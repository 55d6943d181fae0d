use invoke_bindgen::ast::{
    GenerationConfig, GenerationError, ParamPattern, RawInterface, RawParam, RawSignature,
    TypeDesc, Visibility,
};
use invoke_bindgen::invoke::{invoke_bindings, GenerationUnit, InvokeItem};

fn ty(leading: Option<&str>, text: &str) -> TypeDesc {
    TypeDesc { leading: leading.map(|s| s.to_owned()), text: text.to_owned() }
}

fn param(name: &str, t: TypeDesc) -> RawParam {
    RawParam { pattern: ParamPattern::Ident { name: name.to_owned() }, ty: t }
}

fn sig(name: &str, inputs: Vec<RawParam>) -> RawSignature {
    RawSignature {
        name: name.to_owned(),
        inputs,
        success: ty(None, "String"),
        error: Some(ty(None, "String")),
        is_async: true,
        has_generics: false,
    }
}

fn iface(name: &str, fns: Vec<RawSignature>) -> RawInterface {
    RawInterface { name: name.to_owned(), vis: Visibility::Public, has_generics: false, fns }
}

fn prefix(p: &str) -> GenerationConfig {
    GenerationConfig { cmd_prefix: Some(p.to_owned()) }
}

#[test]
fn hello_stub_with_prefix() {
    let raw = iface("Commands", vec![sig("hello", vec![param("name", ty(None, "String"))])]);
    let unit = invoke_bindings(raw, &prefix("app_")).unwrap();
    assert_eq!(unit.items.len(), 3);
    assert!(matches!(unit.items[0], InvokeItem::TraitVerbatim));
    assert!(matches!(unit.items[1], InvokeItem::BridgeDecl));
    match &unit.items[2] {
        InvokeItem::Stub(s) => {
            assert_eq!(s.sig.name, "hello");
            assert_eq!(s.sig.params.len(), 1);
            assert_eq!(s.sig.params[0].name, "name");
            assert_eq!(s.sig.params[0].ty.text, "String");
            assert_eq!(s.sig.success.text, "String");
            assert_eq!(s.sig.error.as_ref().unwrap().text, "String");
            assert!(s.sig.is_async);
            assert_eq!(s.command, "app_hello");
            assert_eq!(s.record.len(), 1);
            assert_eq!(s.record[0].declared, "name");
            assert_eq!(s.record[0].wire, "name");
            assert_eq!(s.vis, Visibility::Public);
        }
        _ => panic!("third item must be the stub"),
    }
}

#[test]
fn one_stub_per_function_and_one_bridge_decl() {
    let raw = iface(
        "Commands",
        vec![
            sig("first", vec![]),
            sig("second", vec![param("x", ty(None, "u32"))]),
            sig("third", vec![]),
        ],
    );
    let unit = invoke_bindings(raw, &GenerationConfig { cmd_prefix: None }).unwrap();
    let stubs = unit.items.iter().filter(|i| matches!(i, InvokeItem::Stub(_))).count();
    let bridges = unit.items.iter().filter(|i| matches!(i, InvokeItem::BridgeDecl)).count();
    assert_eq!(stubs, 3);
    assert_eq!(bridges, 1);
    match &unit.items[3] {
        InvokeItem::Stub(s) => assert_eq!(s.command, "second"),
        _ => panic!("stub expected"),
    }
}

#[test]
fn bridge_decl_emitted_once_per_unit() {
    let mut unit = GenerationUnit::new();
    unit.emit_bridge_decl();
    unit.emit_bridge_decl();
    let bridges = unit.items.iter().filter(|i| matches!(i, InvokeItem::BridgeDecl)).count();
    assert_eq!(bridges, 1);
}

#[test]
fn unit_shared_by_two_interfaces_keeps_one_bridge_decl() {
    let cfg = GenerationConfig { cmd_prefix: None };
    let d1 = invoke_bindgen::invoke::parse_interface(iface("First", vec![sig("a", vec![])]))
        .unwrap();
    let d2 = invoke_bindgen::invoke::parse_interface(iface("Second", vec![sig("b", vec![])]))
        .unwrap();
    let mut unit = GenerationUnit::new();
    invoke_bindgen::invoke::invoke_bindings_into(&mut unit, d1, &cfg);
    invoke_bindgen::invoke::invoke_bindings_into(&mut unit, d2, &cfg);
    let bridges = unit.items.iter().filter(|i| matches!(i, InvokeItem::BridgeDecl)).count();
    let stubs = unit.items.iter().filter(|i| matches!(i, InvokeItem::Stub(_))).count();
    let traits = unit.items.iter().filter(|i| matches!(i, InvokeItem::TraitVerbatim)).count();
    assert_eq!(bridges, 1);
    assert_eq!(stubs, 2);
    assert_eq!(traits, 2);
}

#[test]
fn receiver_parameter_fails_with_no_output() {
    let receiver = RawParam { pattern: ParamPattern::Receiver, ty: ty(None, "Self") };
    let raw = iface("Commands", vec![sig("hello", vec![receiver])]);
    let r = invoke_bindings(raw, &GenerationConfig { cmd_prefix: None });
    assert_eq!(r.unwrap_err(), GenerationError::ReceiverParameter);
}

#[test]
fn non_identifier_pattern_fails() {
    let bad = RawParam { pattern: ParamPattern::Unsupported, ty: ty(None, "u8") };
    let raw = iface("Commands", vec![sig("ok", vec![]), sig("bad", vec![bad])]);
    let r = invoke_bindings(raw, &GenerationConfig { cmd_prefix: None });
    assert_eq!(r.unwrap_err(), GenerationError::UnsupportedPattern);
}

#[test]
fn generics_are_rejected() {
    let mut generic_fn = sig("poly", vec![]);
    generic_fn.has_generics = true;
    let raw = iface("Commands", vec![generic_fn]);
    let r = invoke_bindings(raw, &GenerationConfig { cmd_prefix: None });
    assert_eq!(r.unwrap_err(), GenerationError::GenericsUnsupported);
}

#[test]
fn duplicate_function_names_are_rejected() {
    let raw = iface("Commands", vec![sig("twice", vec![]), sig("twice", vec![])]);
    let r = invoke_bindings(raw, &GenerationConfig { cmd_prefix: None });
    assert_eq!(r.unwrap_err(), GenerationError::DuplicateName);
}

#[test]
fn no_prefix_uses_bare_function_name() {
    let raw = iface("Commands", vec![sig("hello", vec![])]);
    let unit = invoke_bindings(raw, &GenerationConfig { cmd_prefix: None }).unwrap();
    match &unit.items[2] {
        InvokeItem::Stub(s) => assert_eq!(s.command, "hello"),
        _ => panic!("stub expected"),
    }
}

#[test]
fn rerunning_generation_yields_identical_output() {
    let make = || iface("Commands", vec![sig("hello", vec![param("user_name", ty(None, "String"))])]);
    let a = invoke_bindings(make(), &prefix("app_")).unwrap();
    let b = invoke_bindings(make(), &prefix("app_")).unwrap();
    assert_eq!(a, b);
}

#[test]
fn record_field_wire_names_follow_convention() {
    let raw = iface(
        "Commands",
        vec![sig("save", vec![param("user_name", ty(None, "String")), param("id", ty(None, "u64"))])],
    );
    let unit = invoke_bindings(raw, &GenerationConfig { cmd_prefix: None }).unwrap();
    match &unit.items[2] {
        InvokeItem::Stub(s) => {
            assert_eq!(s.record[0].declared, "user_name");
            assert_eq!(s.record[0].wire, "userName");
            assert_eq!(s.record[1].declared, "id");
            assert_eq!(s.record[1].wire, "id");
        }
        _ => panic!("stub expected"),
    }
}
