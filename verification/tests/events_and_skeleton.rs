use invoke_bindgen::ast::{
    GenerationError, ImplementationCandidate, ParamPattern, Parameter, PayloadShape, RawEvent,
    RawParam, RawSignature, TypeDesc, Variant, Visibility,
};
use invoke_bindgen::events::{derive_event, ArmPattern};
use invoke_bindgen::skeleton::impl_trait;
use invoke_bindgen::subscription::Subscription;

fn ty(leading: Option<&str>, text: &str) -> TypeDesc {
    TypeDesc { leading: leading.map(|s| s.to_owned()), text: text.to_owned() }
}

fn param(name: &str, t: TypeDesc) -> RawParam {
    RawParam { pattern: ParamPattern::Ident { name: name.to_owned() }, ty: t }
}

fn variant(name: &str, payload: PayloadShape) -> Variant {
    Variant { name: name.to_owned(), payload }
}

fn event(name: &str, variants: Vec<Variant>) -> RawEvent {
    RawEvent { name: name.to_owned(), vis: Visibility::Public, has_generics: false, variants }
}

fn candidate(name: &str, inputs: Vec<RawParam>, has_generics: bool) -> ImplementationCandidate {
    ImplementationCandidate {
        sig: RawSignature {
            name: name.to_owned(),
            inputs,
            success: ty(None, "()"),
            error: Some(ty(None, "String")),
            is_async: true,
            has_generics,
        },
        body: "Ok(())".to_owned(),
    }
}

#[test]
fn event_names_ignore_payload_shape() {
    let raw = event(
        "Event",
        vec![
            variant(
                "SomethingHappened",
                PayloadShape::Named {
                    fields: vec![Parameter { name: "payload".to_owned(), ty: ty(None, "Bytes") }],
                },
            ),
            variant("SomeoneSaidHello", PayloadShape::Positional { tys: vec![ty(None, "String")] }),
            variant("NoPayload", PayloadShape::Unit),
        ],
    );
    let out = derive_event(raw).unwrap();
    let literals: Vec<&str> = out.name_impl.arms.iter().map(|a| a.literal.as_str()).collect();
    assert_eq!(literals, vec!["SomethingHappened", "SomeoneSaidHello", "NoPayload"]);
    assert_eq!(out.name_impl.enum_name, "Event");
    assert_eq!(out.binding.name, "EventBinding");
    assert_eq!(out.binding.payload_enum, "Event");
    assert_eq!(out.binding.arms.len(), 3);
    for (arm, name_arm) in out.binding.arms.iter().zip(out.name_impl.arms.iter()) {
        assert_eq!(arm.case, name_arm.variant);
        assert_eq!(arm.literal, name_arm.literal);
    }
    match &out.name_impl.arms[0].pattern {
        ArmPattern::Named { fields } => assert_eq!(fields, &vec!["payload".to_owned()]),
        _ => panic!("named pattern expected"),
    }
    assert!(matches!(out.name_impl.arms[1].pattern, ArmPattern::Positional { count: 1 }));
    assert!(matches!(out.name_impl.arms[2].pattern, ArmPattern::Unit));
}

#[test]
fn event_generation_is_idempotent() {
    let make = || {
        event(
            "Event",
            vec![variant("A", PayloadShape::Unit), variant("B", PayloadShape::Unit)],
        )
    };
    let a = derive_event(make()).unwrap();
    let b = derive_event(make()).unwrap();
    assert_eq!(a, b);
}

#[test]
fn event_generics_are_rejected() {
    let mut raw = event("Event", vec![variant("A", PayloadShape::Unit)]);
    raw.has_generics = true;
    assert_eq!(derive_event(raw).unwrap_err(), GenerationError::GenericsUnsupported);
}

#[test]
fn event_duplicate_variants_are_rejected() {
    let raw = event(
        "Event",
        vec![variant("Same", PayloadShape::Unit), variant("Same", PayloadShape::Unit)],
    );
    assert_eq!(derive_event(raw).unwrap_err(), GenerationError::DuplicateName);
}

#[test]
fn skeleton_filters_host_params_and_marks_the_rest() {
    let foo = candidate(
        "foo",
        vec![param("state", ty(Some("host"), "host::State")), param("bar", ty(None, "String"))],
        true,
    );
    let original = candidate(
        "foo",
        vec![param("state", ty(Some("host"), "host::State")), param("bar", ty(None, "String"))],
        true,
    );
    let host = "host".to_owned();
    let out = impl_trait("Commands".to_owned(), vec![foo], &host).unwrap();
    assert_eq!(out.struct_name, "__ImplCommands");
    assert_eq!(out.trait_name, "Commands");
    assert_eq!(out.impl_fns.len(), 1);
    let g = &out.impl_fns[0];
    assert_eq!(g.name, "foo");
    assert_eq!(g.params.len(), 1);
    assert_eq!(g.params[0].name, "_bar");
    assert_eq!(g.params[0].ty.text, "String");
    assert!(g.is_async);
    assert_eq!(out.reemitted.len(), 1);
    assert_eq!(out.reemitted[0], original);
}

#[test]
fn skeleton_keeps_non_host_path_params() {
    let c = candidate("bar", vec![param("other", ty(Some("std"), "std::string::String"))], false);
    let host = "host".to_owned();
    let out = impl_trait("Commands".to_owned(), vec![c], &host).unwrap();
    assert_eq!(out.impl_fns[0].params.len(), 1);
    assert_eq!(out.impl_fns[0].params[0].name, "_other");
}

#[test]
fn skeleton_propagates_parse_errors() {
    let receiver = RawParam { pattern: ParamPattern::Receiver, ty: ty(None, "Self") };
    let c = candidate("bad", vec![receiver], false);
    let host = "host".to_owned();
    let r = impl_trait("Commands".to_owned(), vec![c], &host);
    assert_eq!(r.unwrap_err(), GenerationError::ReceiverParameter);
}

#[test]
fn listen_yields_an_active_subscription_for_the_case_name() {
    let out = derive_event(event("Event", vec![variant("Ping", PayloadShape::Unit)])).unwrap();
    let mut sub = out.binding.subscribe(0);
    assert!(sub.active);
    assert_eq!(sub.event_name, "Ping");
    assert!(sub.release());
    assert!(!sub.release());
}

#[test]
fn releasing_a_subscription_twice_unlistens_once() {
    let mut sub = Subscription::new("SomethingHappened".to_owned());
    let mut unlisten_calls: u32 = 0;
    if sub.release() {
        unlisten_calls += 1;
    }
    if sub.release() {
        unlisten_calls += 1;
    }
    assert_eq!(unlisten_calls, 1);
    assert_eq!(sub.event_name, "SomethingHappened");
    assert!(!sub.active);
}
