//! The signature parser: turns a surface function signature into a
//! validated one, rejecting receiver-style parameters and parameter
//! patterns that are not simple identifiers.

use vstd::prelude::*;
use crate::ast::{
    FunctionSignature, GenerationError, ParamPattern, Parameter, RawParam, RawSignature,
};

verus! {

/// Every parameter pattern is a simple identifier.
pub open spec fn inputs_wf(inputs: Seq<RawParam>) -> bool {
    forall|i: int| 0 <= i < inputs.len() ==> inputs[i].pattern is Ident
}

/// The parsed form of a raw parameter whose pattern is an identifier.
pub open spec fn parsed_param(p: RawParam) -> Parameter
    recommends
        p.pattern is Ident,
{
    Parameter { name: p.pattern->name, ty: p.ty }
}

/// `i` indexes the first parameter whose pattern is not a simple identifier.
pub open spec fn is_first_offender(inputs: Seq<RawParam>, i: int) -> bool {
    &&& 0 <= i < inputs.len()
    &&& !(inputs[i].pattern is Ident)
    &&& forall|j: int| 0 <= j < i ==> inputs[j].pattern is Ident
}

/// The signature parser rejects this parameter list over a receiver: the
/// first parameter that is not a simple identifier is receiver-style.
pub open spec fn rejects_with_receiver(inputs: Seq<RawParam>) -> bool {
    exists|i: int| is_first_offender(inputs, i) && inputs[i].pattern is Receiver
}

/// The signature parser rejects this parameter list over a pattern: the
/// first parameter that is not a simple identifier is some other pattern.
pub open spec fn rejects_with_unsupported(inputs: Seq<RawParam>) -> bool {
    exists|i: int| is_first_offender(inputs, i) && inputs[i].pattern is Unsupported
}

/// At most one parameter is the first offending one.
pub proof fn lemma_first_offender_unique(inputs: Seq<RawParam>, i: int, j: int)
    requires
        is_first_offender(inputs, i),
        is_first_offender(inputs, j),
    ensures
        i == j,
{
}

impl Clone for ParamPattern {
    fn clone(&self) -> (res: Self)
        ensures
            res == *self,
    {
        match self {
            ParamPattern::Receiver => ParamPattern::Receiver,
            ParamPattern::Ident { name } => ParamPattern::Ident { name: name.clone() },
            ParamPattern::Unsupported => ParamPattern::Unsupported,
        }
    }
}

impl Clone for RawParam {
    fn clone(&self) -> (res: Self)
        ensures
            res == *self,
    {
        RawParam { pattern: self.pattern.clone(), ty: self.ty.clone() }
    }
}

/// Parse a surface signature. Succeeds exactly when every parameter
/// pattern is a simple identifier; the parsed signature keeps the name,
/// parameter order, result types and asynchrony unchanged. On a receiver
/// or an unsupported pattern the whole signature is rejected, naming the
/// first offending parameter's kind.
pub fn parse_signature(raw: RawSignature) -> (r: Result<FunctionSignature, GenerationError>)
    ensures
        r is Ok <==> inputs_wf(raw.inputs@),
        r matches Ok(sig) ==> {
            &&& sig.name == raw.name
            &&& sig.success == raw.success
            &&& sig.error == raw.error
            &&& sig.is_async == raw.is_async
            &&& sig.params@.len() == raw.inputs@.len()
            &&& forall|k: int|
                0 <= k < raw.inputs@.len() ==> sig.params@[k] == parsed_param(raw.inputs@[k])
        },
        r == Result::<FunctionSignature, GenerationError>::Err(GenerationError::ReceiverParameter)
            <==> rejects_with_receiver(raw.inputs@),
        r == Result::<FunctionSignature, GenerationError>::Err(GenerationError::UnsupportedPattern)
            <==> rejects_with_unsupported(raw.inputs@),
        r is Err ==> (r->Err_0 == GenerationError::ReceiverParameter || r->Err_0
            == GenerationError::UnsupportedPattern),
{
    let RawSignature { name, inputs, success, error, is_async, has_generics: _ } = raw;
    let mut params: Vec<Parameter> = Vec::new();
    let mut i: usize = 0;
    while i < inputs.len()
        invariant
            i <= inputs@.len(),
            inputs@ == raw.inputs@,
            params@.len() == i,
            forall|k: int| 0 <= k < i ==> inputs@[k].pattern is Ident,
            forall|k: int| 0 <= k < i ==> params@[k] == parsed_param(inputs@[k]),
        decreases inputs@.len() - i,
    {
        match &inputs[i].pattern {
            ParamPattern::Ident { name: pname } => {
                let pty = inputs[i].ty.clone();
                params.push(Parameter { name: pname.clone(), ty: pty });
            },
            ParamPattern::Receiver => {
                proof {
                    assert(is_first_offender(inputs@, i as int));
                    assert forall|j: int| is_first_offender(inputs@, j) implies j == i as int by {
                        lemma_first_offender_unique(inputs@, j, i as int);
                    };
                }
                return Err(GenerationError::ReceiverParameter);
            },
            ParamPattern::Unsupported => {
                proof {
                    assert(is_first_offender(inputs@, i as int));
                    assert forall|j: int| is_first_offender(inputs@, j) implies j == i as int by {
                        lemma_first_offender_unique(inputs@, j, i as int);
                    };
                }
                return Err(GenerationError::UnsupportedPattern);
            },
        }
        i = i + 1;
    }
    Ok(FunctionSignature { name, params, success, error, is_async })
}

/// Every function's parameter patterns are simple identifiers.
pub open spec fn interface_patterns_ok(fns: Seq<RawSignature>) -> bool {
    forall|i: int| 0 <= i < fns.len() ==> inputs_wf(fns[i].inputs@)
}

/// `f` is what the signature parser makes of `raw_fn`: the name, result
/// types and asynchrony unchanged, the parameters in order with their
/// identifier names.
pub open spec fn is_parsed_sig(f: FunctionSignature, raw_fn: RawSignature) -> bool {
    &&& f.name == raw_fn.name
    &&& f.success == raw_fn.success
    &&& f.error == raw_fn.error
    &&& f.is_async == raw_fn.is_async
    &&& f.params@.len() == raw_fn.inputs@.len()
    &&& forall|k: int|
        0 <= k < raw_fn.inputs@.len() ==> f.params@[k] == parsed_param(raw_fn.inputs@[k])
}

/// `i` indexes the first function whose parameter list the parser rejects.
pub open spec fn first_faulty_fn(fns: Seq<RawSignature>, i: int) -> bool {
    &&& 0 <= i < fns.len()
    &&& !inputs_wf(fns[i].inputs@)
    &&& forall|j: int| 0 <= j < i ==> inputs_wf(fns[j].inputs@)
}

/// At most one function is the first rejected one.
pub proof fn lemma_first_faulty_unique(fns: Seq<RawSignature>, i: int, j: int)
    requires
        first_faulty_fn(fns, i),
        first_faulty_fn(fns, j),
    ensures
        i == j,
{
}

/// Generation fails over a receiver: the first rejected function's first
/// offending parameter is receiver-style.
pub open spec fn fails_with_receiver(fns: Seq<RawSignature>) -> bool {
    exists|i: int| first_faulty_fn(fns, i) && rejects_with_receiver(fns[i].inputs@)
}

/// Generation fails over an unsupported pattern.
pub open spec fn fails_with_unsupported(fns: Seq<RawSignature>) -> bool {
    exists|i: int| first_faulty_fn(fns, i) && rejects_with_unsupported(fns[i].inputs@)
}

/// A list whose patterns all parse rejects no function at all.
pub proof fn lemma_patterns_ok_no_failure(fns: Seq<RawSignature>)
    requires
        interface_patterns_ok(fns),
    ensures
        !fails_with_receiver(fns),
        !fails_with_unsupported(fns),
{
    assert forall|i: int| !first_faulty_fn(fns, i) by {
        if 0 <= i < fns.len() {
            assert(inputs_wf(fns[i].inputs@));
        }
    }
}

} // verus!
