//! The event metadata generator: from a tagged-union event description it
//! emits name resolution (a method mapping every variant to its declared
//! name, whatever its payload shape), a payload-free binding companion type
//! whose string accessor agrees with that mapping and whose cases carry the
//! asynchronous listen operation, and the listener support items the
//! subscription abstraction rests on.

use vstd::prelude::*;
use crate::ast::{
    EventDescription, GenerationError, PayloadShape, RawEvent, Variant, Visibility,
};
use crate::subscription::Subscription;
use vstd::string::StringExecFns;

verus! {

/// The pattern of one match arm of the name-resolution method: enough to
/// re-print the variant's shape with every payload position ignored.
#[derive(Debug, PartialEq)]
pub enum ArmPattern {
    Unit,
    Positional { count: usize },
    Named { fields: Vec<String> },
}

/// One arm of the name-resolution method: the variant, the shape its
/// pattern ignores, and the literal the arm returns.
#[derive(Debug, PartialEq)]
pub struct NameArm {
    pub variant: String,
    pub pattern: ArmPattern,
    pub literal: String,
}

/// The name-resolution method on the original type.
#[derive(Debug, PartialEq)]
pub struct EventNameImpl {
    pub vis: Visibility,
    pub enum_name: String,
    pub arms: Vec<NameArm>,
}

/// One arm of the binding companion's string accessor.
#[derive(Debug, PartialEq)]
pub struct BindingArm {
    pub case: String,
    pub literal: String,
}

/// The payload-free binding companion type: one case per variant, a string
/// accessor agreeing with the name resolution, and the listen operation
/// that decodes the matching variant's payload envelope.
#[derive(Debug, PartialEq)]
pub struct BindingEnum {
    pub name: String,
    pub payload_enum: String,
    pub arms: Vec<BindingArm>,
}

/// The fixed listener support items: the external listen declaration, the
/// subscription type and the payload envelope.
#[derive(Debug, PartialEq)]
pub struct ListenerSupport {
    pub vis: Visibility,
}

/// Everything one event generation run emits.
#[derive(Debug, PartialEq)]
pub struct EventOutput {
    pub name_impl: EventNameImpl,
    pub binding: BindingEnum,
    pub support: ListenerSupport,
}

/// The arm pattern ignores exactly the variant's payload shape.
pub open spec fn arm_pattern_matches(a: ArmPattern, p: PayloadShape) -> bool {
    match p {
        PayloadShape::Unit => a is Unit,
        PayloadShape::Positional { tys } => a matches ArmPattern::Positional { count } && count
            == tys@.len(),
        PayloadShape::Named { fields } => a matches ArmPattern::Named { fields: fs } && fs@.len()
            == fields@.len() && (forall|j: int|
            0 <= j < fields@.len() ==> #[trigger] fs@[j] == fields@[j].name),
    }
}

/// A name-resolution arm returns the variant's declared name, whatever the
/// payload shape.
pub open spec fn name_arm_ok(a: NameArm, v: Variant) -> bool {
    &&& a.variant == v.name
    &&& a.literal == v.name
    &&& arm_pattern_matches(a.pattern, v.payload)
}

/// A binding accessor arm returns the same declared name for the matching
/// payload-free case.
pub open spec fn binding_arm_ok(a: BindingArm, v: Variant) -> bool {
    &&& a.case == v.name
    &&& a.literal == v.name
}

impl BindingEnum {
    /// The subscription handle the emitted listen operation returns for
    /// `case` of this companion, once the bridge has confirmed the
    /// registration: an active subscription for exactly that case's event
    /// name, under the release discipline `Subscription` states.
    pub fn subscribe(&self, case: usize) -> (s: Subscription)
        requires
            case < self.arms@.len(),
        ensures
            s.active,
            s.event_name@ == self.arms@[case as int].literal@,
    {
        Subscription::new(self.arms[case].literal.clone())
    }
}

/// Variant names are unique.
pub open spec fn variants_unique(vs: Seq<Variant>) -> bool {
    forall|i: int, j: int| 0 <= i < j < vs.len() ==> vs[i].name@ != vs[j].name@
}

/// What one event generation run owes its description.
pub open spec fn event_output_ok(out: EventOutput, desc: EventDescription) -> bool {
    &&& out.name_impl.vis == desc.vis
    &&& out.name_impl.enum_name == desc.name
    &&& out.name_impl.arms@.len() == desc.variants@.len()
    &&& forall|i: int|
        0 <= i < desc.variants@.len() ==> name_arm_ok(
            #[trigger] out.name_impl.arms@[i],
            desc.variants@[i],
        )
    &&& out.binding.name@ == desc.name@ + "Binding"@
    &&& out.binding.payload_enum == desc.name
    &&& out.binding.arms@.len() == desc.variants@.len()
    &&& forall|i: int|
        0 <= i < desc.variants@.len() ==> binding_arm_ok(
            #[trigger] out.binding.arms@[i],
            desc.variants@[i],
        )
    &&& out.support.vis == desc.vis
}

/// Validate a surface tagged union: reject generics, then duplicate
/// variant names; the variants themselves pass through unchanged.
pub fn parse_event(raw: RawEvent) -> (r: Result<EventDescription, GenerationError>)
    ensures
        r is Ok <==> !raw.has_generics && variants_unique(raw.variants@),
        r matches Ok(d) ==> {
            &&& d.name == raw.name
            &&& d.vis == raw.vis
            &&& d.variants == raw.variants
            &&& d.wf()
        },
        r == Result::<EventDescription, GenerationError>::Err(
            GenerationError::GenericsUnsupported,
        ) <==> raw.has_generics,
        r == Result::<EventDescription, GenerationError>::Err(GenerationError::DuplicateName)
            <==> !raw.has_generics && !variants_unique(raw.variants@),
{
    if raw.has_generics {
        return Err(GenerationError::GenericsUnsupported);
    }
    let mut a: usize = 0;
    while a < raw.variants.len()
        invariant
            !raw.has_generics,
            forall|i: int, j: int| 0 <= i < a && i < j < raw.variants@.len()
                ==> raw.variants@[i].name@ != raw.variants@[j].name@,
        decreases raw.variants@.len() - a,
    {
        let mut b: usize = a + 1;
        while b < raw.variants.len()
            invariant
                !raw.has_generics,
                a < raw.variants@.len(),
                a + 1 <= b,
                forall|j: int| (a as int) < j < b ==> raw.variants@[a as int].name@
                    != raw.variants@[j].name@,
            decreases raw.variants@.len() - b,
        {
            if raw.variants[a].name == raw.variants[b].name {
                return Err(GenerationError::DuplicateName);
            }
            b = b + 1;
        }
        a = a + 1;
    }
    let RawEvent { name, vis, has_generics: _, variants } = raw;
    Ok(EventDescription { name, vis, variants })
}

/// Build the arm pattern that ignores one variant's payload.
fn build_arm_pattern(p: &PayloadShape) -> (a: ArmPattern)
    ensures
        arm_pattern_matches(a, *p),
{
    match p {
        PayloadShape::Unit => ArmPattern::Unit,
        PayloadShape::Positional { tys } => ArmPattern::Positional { count: tys.len() },
        PayloadShape::Named { fields } => {
            let mut fs: Vec<String> = Vec::new();
            let mut j: usize = 0;
            while j < fields.len()
                invariant
                    j <= fields@.len(),
                    fs@.len() == j,
                    forall|k: int| 0 <= k < j ==> #[trigger] fs@[k] == fields@[k].name,
                decreases fields@.len() - j,
            {
                fs.push(fields[j].name.clone());
                j = j + 1;
            }
            ArmPattern::Named { fields: fs }
        },
    }
}

/// Emit the three artifacts for a validated event description.
pub fn emit_event_metadata(desc: &EventDescription) -> (out: EventOutput)
    ensures
        event_output_ok(out, *desc),
{
    let mut name_arms: Vec<NameArm> = Vec::new();
    let mut binding_arms: Vec<BindingArm> = Vec::new();
    let mut i: usize = 0;
    while i < desc.variants.len()
        invariant
            i <= desc.variants@.len(),
            name_arms@.len() == i,
            binding_arms@.len() == i,
            forall|k: int|
                0 <= k < i ==> name_arm_ok(#[trigger] name_arms@[k], desc.variants@[k]),
            forall|k: int|
                0 <= k < i ==> binding_arm_ok(#[trigger] binding_arms@[k], desc.variants@[k]),
        decreases desc.variants@.len() - i,
    {
        let v = &desc.variants[i];
        let pattern = build_arm_pattern(&v.payload);
        name_arms.push(NameArm { variant: v.name.clone(), pattern, literal: v.name.clone() });
        binding_arms.push(BindingArm { case: v.name.clone(), literal: v.name.clone() });
        i = i + 1;
    }
    let name_impl = EventNameImpl {
        vis: desc.vis,
        enum_name: desc.name.clone(),
        arms: name_arms,
    };
    let binding = BindingEnum {
        name: desc.name.clone().concat("Binding"),
        payload_enum: desc.name.clone(),
        arms: binding_arms,
    };
    let support = ListenerSupport { vis: desc.vis };
    EventOutput { name_impl, binding, support }
}

/// Generate the event metadata for one surface tagged union: validate it,
/// then emit the three artifacts. Fails, with no output, exactly on
/// generics or duplicate variant names.
pub fn derive_event(raw: RawEvent) -> (r: Result<EventOutput, GenerationError>)
    ensures
        r is Ok <==> !raw.has_generics && variants_unique(raw.variants@),
        r matches Ok(out) ==> event_output_ok(
            out,
            (EventDescription { name: raw.name, vis: raw.vis, variants: raw.variants }),
        ),
        r == Result::<EventOutput, GenerationError>::Err(GenerationError::GenericsUnsupported)
            <==> raw.has_generics,
        r == Result::<EventOutput, GenerationError>::Err(GenerationError::DuplicateName) <==> !raw.has_generics
            && !variants_unique(raw.variants@),
{
    match parse_event(raw) {
        Err(e) => Err(e),
        Ok(d) => {
            let out = emit_event_metadata(&d);
            proof {
                assert(d == (EventDescription { name: raw.name, vis: raw.vis, variants: raw.variants }));
            }
            Ok(out)
        },
    }
}

/// Name resolution is payload-independent and the companion accessor
/// agrees with it: for every variant, the name-resolution arm and the
/// binding accessor arm both return exactly the variant's declared name.
pub proof fn lemma_event_names_agree(out: EventOutput, desc: EventDescription, i: int)
    requires
        event_output_ok(out, desc),
        0 <= i < desc.variants@.len(),
    ensures
        out.name_impl.arms@[i].literal@ == desc.variants@[i].name@,
        out.binding.arms@[i].literal@ == out.name_impl.arms@[i].literal@,
{
}

/// Event generation is deterministic: two conforming outputs for one
/// description agree on every name, case and literal, so re-running
/// generation on unchanged input yields syntactically identical output.
pub proof fn lemma_event_generation_deterministic(
    x: EventOutput,
    y: EventOutput,
    desc: EventDescription,
)
    requires
        event_output_ok(x, desc),
        event_output_ok(y, desc),
    ensures
        x.name_impl.vis == y.name_impl.vis,
        x.name_impl.enum_name == y.name_impl.enum_name,
        x.name_impl.arms@.len() == y.name_impl.arms@.len(),
        forall|i: int|
            0 <= i < x.name_impl.arms@.len() ==> #[trigger] x.name_impl.arms@[i].variant
                == y.name_impl.arms@[i].variant && x.name_impl.arms@[i].literal
                == y.name_impl.arms@[i].literal,
        x.binding.name@ == y.binding.name@,
        x.binding.payload_enum == y.binding.payload_enum,
        x.binding.arms@.len() == y.binding.arms@.len(),
        forall|i: int|
            0 <= i < x.binding.arms@.len() ==> #[trigger] x.binding.arms@[i].case
                == y.binding.arms@[i].case && x.binding.arms@[i].literal
                == y.binding.arms@[i].literal,
        x.support.vis == y.support.vis,
{
    assert forall|i: int| 0 <= i < x.name_impl.arms@.len() implies #[trigger] x.name_impl.arms@[i].variant
        == y.name_impl.arms@[i].variant && x.name_impl.arms@[i].literal
        == y.name_impl.arms@[i].literal by {
        assert(name_arm_ok(x.name_impl.arms@[i], desc.variants@[i]));
        assert(name_arm_ok(y.name_impl.arms@[i], desc.variants@[i]));
    }
    assert forall|i: int| 0 <= i < x.binding.arms@.len() implies #[trigger] x.binding.arms@[i].case
        == y.binding.arms@[i].case && x.binding.arms@[i].literal == y.binding.arms@[i].literal by {
        assert(binding_arm_ok(x.binding.arms@[i], desc.variants@[i]));
        assert(binding_arm_ok(y.binding.arms@[i], desc.variants@[i]));
    }
}

} // verus!
