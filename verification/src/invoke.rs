//! The invocation stub generator: from an interface description it emits,
//! into one generation unit, a marker for the re-emitted interface, a single
//! bridge declaration, and one marshaling stub per function.

use vstd::prelude::*;
use crate::ast::{
    FunctionSignature, GenerationConfig, GenerationError, InterfaceDescription, Parameter,
    RawInterface, RawSignature, Visibility,
};
use crate::sig::{
    fails_with_receiver, fails_with_unsupported, first_faulty_fn, interface_patterns_ok,
    inputs_wf, is_parsed_sig, lemma_first_faulty_unique, parse_signature,
};
use crate::wire::{wire_name, wire_name_of};
use vstd::string::StringExecFns;

verus! {

/// One field of the anonymous record a stub serializes: the declared
/// parameter name and its wire form.
#[derive(Debug, PartialEq)]
pub struct RecordField {
    pub declared: String,
    pub wire: String,
}

/// One generated marshaling stub: same visibility, name, parameters and
/// result types as the described function; an argument record whose fields
/// are the parameters in order; and the wire command identifier the stub
/// routes its call through.
#[derive(Debug, PartialEq)]
pub struct StubFn {
    pub vis: Visibility,
    pub sig: FunctionSignature,
    pub record: Vec<RecordField>,
    pub command: String,
}

/// One emitted item of a generation unit.
#[derive(Debug, PartialEq)]
pub enum InvokeItem {
    /// The described interface, re-emitted verbatim by the caller.
    TraitVerbatim,
    /// The external bridge declaration; one per unit.
    BridgeDecl,
    Stub(StubFn),
}

/// How many bridge declarations a sequence of items holds.
pub open spec fn count_bridge(items: Seq<InvokeItem>) -> int
    decreases items.len(),
{
    if items.len() == 0 {
        0
    } else {
        count_bridge(items.drop_last()) + if items.last() is BridgeDecl {
            1int
        } else {
            0int
        }
    }
}

proof fn lemma_count_bridge_push(items: Seq<InvokeItem>, x: InvokeItem)
    ensures
        count_bridge(items.push(x)) == count_bridge(items) + if x is BridgeDecl {
            1int
        } else {
            0int
        },
{
    assert(items.push(x).drop_last() =~= items);
    assert(items.push(x).last() == x);
}

/// The sink the generators splice their items into. It tracks whether the
/// bridge declaration has already been emitted for this unit, so that a unit
/// shared by several interfaces still declares the bridge exactly once.
#[derive(Debug, PartialEq)]
pub struct GenerationUnit {
    pub bridge_emitted: bool,
    pub items: Vec<InvokeItem>,
}

impl GenerationUnit {
    /// The unit never holds more than one bridge declaration, and holds one
    /// exactly when `bridge_emitted` says so.
    pub open spec fn wf(&self) -> bool {
        count_bridge(self.items@) == if self.bridge_emitted {
            1int
        } else {
            0int
        }
    }

    pub fn new() -> (u: Self)
        ensures
            u.wf(),
            !u.bridge_emitted,
            u.items@ =~= Seq::<InvokeItem>::empty(),
    {
        GenerationUnit { bridge_emitted: false, items: Vec::new() }
    }

    fn push_trait_marker(&mut self)
        ensures
            final(self).items@ == old(self).items@.push(InvokeItem::TraitVerbatim),
            final(self).bridge_emitted == old(self).bridge_emitted,
            old(self).wf() ==> final(self).wf(),
    {
        proof {
            lemma_count_bridge_push(self.items@, InvokeItem::TraitVerbatim);
        }
        self.items.push(InvokeItem::TraitVerbatim);
    }

    fn push_stub(&mut self, s: StubFn)
        ensures
            final(self).items@ == old(self).items@.push(InvokeItem::Stub(s)),
            final(self).bridge_emitted == old(self).bridge_emitted,
            old(self).wf() ==> final(self).wf(),
    {
        proof {
            lemma_count_bridge_push(self.items@, InvokeItem::Stub(s));
        }
        self.items.push(InvokeItem::Stub(s));
    }

    /// Emit the bridge declaration, unless this unit already holds one:
    /// repeated requests leave the unit unchanged.
    pub fn emit_bridge_decl(&mut self)
        ensures
            final(self).bridge_emitted,
            old(self).bridge_emitted ==> *final(self) == *old(self),
            !old(self).bridge_emitted ==> final(self).items@ == old(self).items@.push(
                InvokeItem::BridgeDecl,
            ),
            old(self).wf() ==> final(self).wf(),
    {
        if !self.bridge_emitted {
            proof {
                lemma_count_bridge_push(self.items@, InvokeItem::BridgeDecl);
            }
            self.items.push(InvokeItem::BridgeDecl);
            self.bridge_emitted = true;
        }
    }
}

/// How many stubs a sequence of items holds.
pub open spec fn count_stubs(items: Seq<InvokeItem>) -> int
    decreases items.len(),
{
    if items.len() == 0 {
        0
    } else {
        count_stubs(items.drop_last()) + if items.last() is Stub {
            1int
        } else {
            0int
        }
    }
}

proof fn lemma_count_stubs_range(items: Seq<InvokeItem>, off: int)
    requires
        0 <= off <= items.len(),
        forall|i: int| 0 <= i < off ==> !(#[trigger] items[i] is Stub),
        forall|i: int| off <= i < items.len() ==> #[trigger] items[i] is Stub,
    ensures
        count_stubs(items) == items.len() - off,
    decreases items.len(),
{
    if items.len() > off {
        lemma_count_stubs_range(items.drop_last(), off);
    } else if items.len() > 0 {
        lemma_count_stubs_range(items.drop_last(), off - 1);
    }
}

/// A unit that says it holds its bridge declaration holds exactly one.
pub proof fn lemma_exactly_one_bridge_decl(u: GenerationUnit)
    requires
        u.wf(),
        u.bridge_emitted,
    ensures
        count_bridge(u.items@) == 1,
{
}

/// The record of a stub lists the declared parameter names in order, each
/// with its wire form.
pub open spec fn stub_record_ok(record: Seq<RecordField>, params: Seq<Parameter>) -> bool {
    &&& record.len() == params.len()
    &&& forall|j: int|
        0 <= j < params.len() ==> record[j].declared@ == params[j].name@ && record[j].wire@
            == wire_name_of(params[j].name@)
}

/// What one stub owes the function it stands for.
pub open spec fn stub_ok(
    s: StubFn,
    f: FunctionSignature,
    vis: Visibility,
    prefix: Seq<char>,
) -> bool {
    &&& s.vis == vis
    &&& s.sig == f
    &&& stub_record_ok(s.record@, f.params@)
    &&& s.command@ == prefix + f.name@
}

/// What the items appended by one generation run owe: the re-emitted
/// interface, then — only where the unit did not hold its bridge
/// declaration yet — the bridge declaration, then one conforming stub per
/// described function, in order.
pub open spec fn invoke_appended_ok(
    items: Seq<InvokeItem>,
    desc: InterfaceDescription,
    prefix: Seq<char>,
    had_bridge: bool,
) -> bool {
    let off: int = if had_bridge { 1int } else { 2int };
    &&& items.len() == off + desc.fns@.len()
    &&& items[0] is TraitVerbatim
    &&& (!had_bridge ==> items[1] is BridgeDecl)
    &&& forall|i: int|
        off <= i < items.len() ==> (#[trigger] items[i] matches InvokeItem::Stub(s)
            && stub_ok(s, desc.fns@[i - off], desc.vis, prefix))
}

/// What a whole run into a fresh unit owes.
pub open spec fn invoke_output_ok(
    items: Seq<InvokeItem>,
    desc: InterfaceDescription,
    prefix: Seq<char>,
) -> bool {
    invoke_appended_ok(items, desc, prefix, false)
}

/// One generation run emits exactly one stub per described function,
/// whatever the function count.
pub proof fn lemma_one_stub_per_function(
    items: Seq<InvokeItem>,
    desc: InterfaceDescription,
    prefix: Seq<char>,
    had_bridge: bool,
)
    requires
        invoke_appended_ok(items, desc, prefix, had_bridge),
    ensures
        count_stubs(items) == desc.fns@.len(),
{
    let off: int = if had_bridge { 1int } else { 2int };
    assert forall|i: int| 0 <= i < off implies !(#[trigger] items[i] is Stub) by {}
    assert forall|i: int| off <= i < items.len() implies #[trigger] items[i] is Stub by {
        assert(items[i] matches InvokeItem::Stub(s) && stub_ok(
            s,
            desc.fns@[i - off],
            desc.vis,
            prefix,
        ));
    }
    lemma_count_stubs_range(items, off);
}

/// Neither the interface nor any of its functions carries generics.
pub open spec fn interface_generics_ok(raw: RawInterface) -> bool {
    &&& !raw.has_generics
    &&& forall|i: int| 0 <= i < raw.fns@.len() ==> !raw.fns@[i].has_generics
}

/// Function names are unique across the interface.
pub open spec fn names_unique(fns: Seq<RawSignature>) -> bool {
    forall|i: int, j: int| 0 <= i < j < fns.len() ==> fns[i].name@ != fns[j].name@
}

/// The inputs on which interface generation is owed success.
pub open spec fn raw_interface_wf(raw: RawInterface) -> bool {
    &&& interface_generics_ok(raw)
    &&& interface_patterns_ok(raw.fns@)
    &&& names_unique(raw.fns@)
}

/// Validate a surface interface: reject generics anywhere, then every
/// signature through the signature parser, then duplicate function names.
/// Succeeds exactly on well-formed interfaces; no partial output.
pub fn parse_interface(raw: RawInterface) -> (r: Result<InterfaceDescription, GenerationError>)
    ensures
        r is Ok <==> raw_interface_wf(raw),
        r matches Ok(d) ==> {
            &&& d.name == raw.name
            &&& d.vis == raw.vis
            &&& d.fns@.len() == raw.fns@.len()
            &&& forall|i: int|
                0 <= i < raw.fns@.len() ==> is_parsed_sig(#[trigger] d.fns@[i], raw.fns@[i])
            &&& d.wf()
        },
        r == Result::<InterfaceDescription, GenerationError>::Err(
            GenerationError::GenericsUnsupported,
        ) <==> !interface_generics_ok(raw),
        r == Result::<InterfaceDescription, GenerationError>::Err(
            GenerationError::ReceiverParameter,
        ) <==> interface_generics_ok(raw) && fails_with_receiver(raw.fns@),
        r == Result::<InterfaceDescription, GenerationError>::Err(
            GenerationError::UnsupportedPattern,
        ) <==> interface_generics_ok(raw) && fails_with_unsupported(raw.fns@),
        r == Result::<InterfaceDescription, GenerationError>::Err(GenerationError::DuplicateName)
            <==> interface_generics_ok(raw) && interface_patterns_ok(raw.fns@) && !names_unique(
            raw.fns@,
        ),
{
    if raw.has_generics {
        return Err(GenerationError::GenericsUnsupported);
    }
    let mut g: usize = 0;
    while g < raw.fns.len()
        invariant
            g <= raw.fns@.len(),
            forall|i: int| 0 <= i < g ==> !raw.fns@[i].has_generics,
        decreases raw.fns@.len() - g,
    {
        if raw.fns[g].has_generics {
            return Err(GenerationError::GenericsUnsupported);
        }
        g = g + 1;
    }
    let ghost fns0 = raw.fns@;
    let RawInterface { name, vis, has_generics: _, fns } = raw;
    let mut parsed: Vec<FunctionSignature> = Vec::new();
    let mut rem = fns;
    while rem.len() > 0
        invariant
            interface_generics_ok(raw),
            fns0 == raw.fns@,
            parsed@.len() + rem@.len() == fns0.len(),
            rem@ =~= fns0.skip(parsed@.len() as int),
            forall|i: int|
                0 <= i < parsed@.len() ==> is_parsed_sig(#[trigger] parsed@[i], fns0[i]),
            forall|i: int| 0 <= i < parsed@.len() ==> inputs_wf(#[trigger] fns0[i].inputs@),
        decreases rem@.len(),
    {
        let ghost k = parsed@.len() as int;
        let f = rem.remove(0);
        proof {
            assert(f == fns0[k]);
            assert(rem@ =~= fns0.skip(k + 1));
        }
        match parse_signature(f) {
            Ok(sig) => {
                parsed.push(sig);
            },
            Err(e) => {
                proof {
                    assert(first_faulty_fn(fns0, k));
                    assert forall|i: int| first_faulty_fn(fns0, i) implies i == k by {
                        lemma_first_faulty_unique(fns0, i, k);
                    };
                    if e == GenerationError::ReceiverParameter {
                        assert(fails_with_receiver(fns0));
                        assert(!fails_with_unsupported(fns0));
                    } else {
                        assert(fails_with_unsupported(fns0));
                        assert(!fails_with_receiver(fns0));
                    }
                }
                return Err(e);
            },
        }
    }
    proof {
        assert(interface_patterns_ok(fns0));
        crate::sig::lemma_patterns_ok_no_failure(fns0);
    }
    let mut a: usize = 0;
    while a < parsed.len()
        invariant
            interface_generics_ok(raw),
            interface_patterns_ok(fns0),
            fns0 == raw.fns@,
            parsed@.len() == fns0.len(),
            forall|i: int|
                0 <= i < parsed@.len() ==> is_parsed_sig(#[trigger] parsed@[i], fns0[i]),
            forall|i: int, j: int| 0 <= i < a && i < j < parsed@.len() ==> fns0[i].name@
                != fns0[j].name@,
        decreases parsed@.len() - a,
    {
        let mut b: usize = a + 1;
        while b < parsed.len()
            invariant
                interface_generics_ok(raw),
                interface_patterns_ok(fns0),
                fns0 == raw.fns@,
                a < parsed@.len(),
                a + 1 <= b,
                parsed@.len() == fns0.len(),
                forall|i: int|
                    0 <= i < parsed@.len() ==> is_parsed_sig(#[trigger] parsed@[i], fns0[i]),
                forall|j: int| (a as int) < j < b ==> fns0[a as int].name@ != fns0[j].name@,
            decreases parsed@.len() - b,
        {
            if parsed[a].name == parsed[b].name {
                proof {
                    assert(parsed@[a as int].name@ == parsed@[b as int].name@);
                    assert(fns0[a as int].name@ == fns0[b as int].name@);
                    assert(!names_unique(fns0));
                    crate::sig::lemma_patterns_ok_no_failure(fns0);
                }
                return Err(GenerationError::DuplicateName);
            }
            b = b + 1;
        }
        a = a + 1;
    }
    let d = InterfaceDescription { name, vis, fns: parsed };
    proof {
        assert forall|i: int, j: int| 0 <= i < j < fns0.len() implies fns0[i].name@
            != fns0[j].name@ by {}
        assert(names_unique(fns0));
        assert forall|i: int, j: int| 0 <= i < j < d.fns@.len() implies d.fns@[i].name@
            != d.fns@[j].name@ by {
            assert(is_parsed_sig(d.fns@[i], fns0[i]));
            assert(is_parsed_sig(d.fns@[j], fns0[j]));
        }
        assert(d.wf());
        crate::sig::lemma_patterns_ok_no_failure(fns0);
    }
    Ok(d)
}

/// What one stub owes the surface function it stands for.
pub open spec fn stub_matches_raw(
    s: StubFn,
    raw_fn: RawSignature,
    vis: Visibility,
    prefix: Seq<char>,
) -> bool {
    &&& s.vis == vis
    &&& is_parsed_sig(s.sig, raw_fn)
    &&& stub_record_ok(s.record@, s.sig.params@)
    &&& s.command@ == prefix + raw_fn.name@
}

/// What a successful generation run owes, stated over the surface input.
pub open spec fn invoke_raw_output_ok(
    items: Seq<InvokeItem>,
    raw: RawInterface,
    prefix: Seq<char>,
) -> bool {
    &&& items.len() == 2 + raw.fns@.len()
    &&& items[0] is TraitVerbatim
    &&& items[1] is BridgeDecl
    &&& forall|i: int|
        0 <= i < raw.fns@.len() ==> (#[trigger] items[2 + i] matches InvokeItem::Stub(s)
            && stub_matches_raw(s, raw.fns@[i], raw.vis, prefix))
}

/// Generate the whole unit for one surface interface: validate it, then
/// emit the re-emitted interface marker, the single bridge declaration and
/// one marshaling stub per function. Fails, with no output at all, exactly
/// on the malformed inputs `parse_interface` rejects.
pub fn invoke_bindings(raw: RawInterface, cfg: &GenerationConfig) -> (r: Result<
    GenerationUnit,
    GenerationError,
>)
    ensures
        r is Ok <==> raw_interface_wf(raw),
        r matches Ok(u) ==> u.wf() && u.bridge_emitted && invoke_raw_output_ok(
            u.items@,
            raw,
            cfg.prefix_chars(),
        ),
        r == Result::<GenerationUnit, GenerationError>::Err(GenerationError::GenericsUnsupported)
            <==> !interface_generics_ok(raw),
        r == Result::<GenerationUnit, GenerationError>::Err(GenerationError::ReceiverParameter)
            <==> interface_generics_ok(raw) && fails_with_receiver(raw.fns@),
        r == Result::<GenerationUnit, GenerationError>::Err(GenerationError::UnsupportedPattern)
            <==> interface_generics_ok(raw) && fails_with_unsupported(raw.fns@),
        r == Result::<GenerationUnit, GenerationError>::Err(GenerationError::DuplicateName)
            <==> interface_generics_ok(raw) && interface_patterns_ok(raw.fns@) && !names_unique(
            raw.fns@,
        ),
{
    let ghost fns0 = raw.fns@;
    let ghost vis0 = raw.vis;
    match parse_interface(raw) {
        Err(e) => Err(e),
        Ok(d) => {
            let ghost dfns = d.fns@;
            let mut unit = GenerationUnit::new();
            invoke_bindings_into(&mut unit, d, cfg);
            proof {
                assert(unit.items@.skip(0) =~= unit.items@);
                assert forall|i: int| 0 <= i < fns0.len() implies (#[trigger] unit.items@[2 + i]
                    matches InvokeItem::Stub(s) && stub_matches_raw(
                    s,
                    fns0[i],
                    vis0,
                    cfg.prefix_chars(),
                )) by {
                    assert(invoke_appended_ok(unit.items@, d, cfg.prefix_chars(), false));
                    assert(unit.items@[2 + i] matches InvokeItem::Stub(s2) && stub_ok(
                        s2,
                        dfns[i],
                        vis0,
                        cfg.prefix_chars(),
                    ));
                };
            }
            Ok(unit)
        },
    }
}

/// Generation is deterministic: two conforming outputs for one description
/// and one prefix agree item for item — the same markers in the same
/// places, and stubs equal in visibility, signature, record text and
/// command text. Re-running generation on unchanged input therefore yields
/// syntactically identical output.
pub open spec fn stub_text_eq(x: StubFn, y: StubFn) -> bool {
    &&& x.vis == y.vis
    &&& x.sig == y.sig
    &&& x.command@ == y.command@
    &&& x.record@.len() == y.record@.len()
    &&& forall|j: int|
        0 <= j < x.record@.len() ==> x.record@[j].declared@ == y.record@[j].declared@
            && x.record@[j].wire@ == y.record@[j].wire@
}

/// The items agree pairwise, up to textual content.
pub open spec fn items_text_eq(x: Seq<InvokeItem>, y: Seq<InvokeItem>) -> bool {
    &&& x.len() == y.len()
    &&& forall|i: int|
        0 <= i < x.len() ==> {
            &&& (#[trigger] x[i] is TraitVerbatim <==> y[i] is TraitVerbatim)
            &&& (x[i] is BridgeDecl <==> y[i] is BridgeDecl)
            &&& (x[i] matches InvokeItem::Stub(a) ==> (y[i] matches InvokeItem::Stub(b)
                && stub_text_eq(a, b)))
        }
}

/// Idempotence of stub generation, stated over any two conforming runs.
pub proof fn lemma_invoke_generation_deterministic(
    x: Seq<InvokeItem>,
    y: Seq<InvokeItem>,
    desc: InterfaceDescription,
    prefix: Seq<char>,
)
    requires
        invoke_output_ok(x, desc, prefix),
        invoke_output_ok(y, desc, prefix),
    ensures
        items_text_eq(x, y),
{
    assert forall|i: int| 0 <= i < x.len() implies {
        &&& (#[trigger] x[i] is TraitVerbatim <==> y[i] is TraitVerbatim)
        &&& (x[i] is BridgeDecl <==> y[i] is BridgeDecl)
        &&& (x[i] matches InvokeItem::Stub(a) ==> (y[i] matches InvokeItem::Stub(b)
            && stub_text_eq(a, b)))
    } by {
        if 2 <= i {
            let k = i - 2;
            assert(invoke_appended_ok(x, desc, prefix, false));
            assert(invoke_appended_ok(y, desc, prefix, false));
            assert(x[2 + k] matches InvokeItem::Stub(a2) && stub_ok(a2, desc.fns@[k], desc.vis, prefix));
            assert(y[2 + k] matches InvokeItem::Stub(b2) && stub_ok(b2, desc.fns@[k], desc.vis, prefix));
        }
    };
}

/// Build the argument record for one function: its parameters in order,
/// each field carrying the declared name and the wire name.
fn build_record(params: &Vec<Parameter>) -> (record: Vec<RecordField>)
    ensures
        stub_record_ok(record@, params@),
{
    let mut record: Vec<RecordField> = Vec::new();
    let mut j: usize = 0;
    while j < params.len()
        invariant
            j <= params@.len(),
            record@.len() == j,
            forall|k: int|
                0 <= k < j ==> record@[k].declared@ == params@[k].name@ && record@[k].wire@
                    == wire_name_of(params@[k].name@),
        decreases params@.len() - j,
    {
        let declared = params[j].name.clone();
        let wire = wire_name(params[j].name.as_str());
        record.push(RecordField { declared, wire });
        j = j + 1;
    }
    record
}

/// The wire command identifier: the configured prefix, then the function name.
fn build_command(cfg: &GenerationConfig, name: &String) -> (command: String)
    ensures
        command@ == cfg.prefix_chars() + name@,
{
    match &cfg.cmd_prefix {
        Some(p) => p.clone().concat(name.as_str()),
        None => {
            proof {
                assert(Seq::<char>::empty() + name@ =~= name@);
            }
            name.clone()
        },
    }
}

/// Generate the invocation stubs for `desc` into `unit`: the re-emitted
/// interface, the single bridge declaration where the unit lacked it, and
/// exactly one conforming stub per function. A unit shared by several
/// interfaces keeps exactly one bridge declaration.
pub fn invoke_bindings_into(
    unit: &mut GenerationUnit,
    desc: InterfaceDescription,
    cfg: &GenerationConfig,
)
    requires
        old(unit).wf(),
    ensures
        final(unit).wf(),
        final(unit).bridge_emitted,
        final(unit).items@ =~= old(unit).items@ + final(unit).items@.skip(
            old(unit).items@.len() as int,
        ),
        invoke_appended_ok(
            final(unit).items@.skip(old(unit).items@.len() as int),
            desc,
            cfg.prefix_chars(),
            old(unit).bridge_emitted,
        ),
{
    let ghost base = unit.items@;
    let ghost had_bridge = unit.bridge_emitted;
    unit.push_trait_marker();
    unit.emit_bridge_decl();
    let ghost off: int = if had_bridge { 1int } else { 2int };
    let ghost head = if had_bridge {
        seq![InvokeItem::TraitVerbatim]
    } else {
        seq![InvokeItem::TraitVerbatim, InvokeItem::BridgeDecl]
    };
    proof {
        assert(unit.items@ =~= base + head);
    }
    let vis = desc.vis;
    let ghost fns0 = desc.fns@;
    let mut rem = desc.fns;
    let ghost mut k: int = 0;
    while rem.len() > 0
        invariant
            unit.wf(),
            unit.bridge_emitted,
            0 <= k,
            off == if had_bridge { 1int } else { 2int },
            head.len() == off,
            head[0] is TraitVerbatim,
            !had_bridge ==> head[1] is BridgeDecl,
            k + rem@.len() == fns0.len(),
            rem@ =~= fns0.skip(k),
            unit.items@ =~= base + head + unit.items@.skip(base.len() + off),
            unit.items@.len() == base.len() + off + k,
            forall|i: int|
                0 <= i < k ==> (#[trigger] unit.items@[base.len() + off + i]
                    matches InvokeItem::Stub(s) && stub_ok(s, fns0[i], vis, cfg.prefix_chars())),
        decreases rem@.len(),
    {
        let f = rem.remove(0);
        proof {
            assert(f == fns0[k]);
            assert(rem@ =~= fns0.skip(k + 1));
        }
        let record = build_record(&f.params);
        let command = build_command(cfg, &f.name);
        unit.push_stub(StubFn { vis, sig: f, record, command });
        proof {
            k = k + 1;
        }
    }
    proof {
        assert(final(unit).items@.skip(base.len() as int) =~= head + final(unit).items@.skip(
            base.len() + off,
        ));
        let s = final(unit).items@.skip(base.len() as int);
        assert(s.len() == off + fns0.len());
        assert(s[0] is TraitVerbatim);
        assert(!had_bridge ==> s[1] is BridgeDecl);
        assert forall|i: int| off <= i < s.len() implies (#[trigger] s[i]
            matches InvokeItem::Stub(st) && stub_ok(st, fns0[i - off], vis, cfg.prefix_chars())) by {
            let j = i - off;
            assert(s[i] == final(unit).items@[base.len() + off + j]);
            assert(final(unit).items@[base.len() + off + j] matches InvokeItem::Stub(st2)
                && stub_ok(st2, fns0[j], vis, cfg.prefix_chars()));
        };
    }
}

} // verus!
