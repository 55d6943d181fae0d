//! The skeleton generator: from an interface name and a list of
//! implementation candidates it derives a deterministically named
//! placeholder implementation type. Candidate generics are stripped, every
//! parameter whose type is owned by the host namespace is dropped, every
//! retained parameter is renamed with the ignore marker, and the original
//! candidates are re-emitted verbatim beside the skeleton.

use vstd::prelude::*;
use crate::ast::{
    FunctionSignature, GenerationError, ImplementationCandidate, ParamPattern, Parameter,
    RawSignature, TypeDesc,
};
use crate::sig::{
    fails_with_receiver, fails_with_unsupported, first_faulty_fn, inputs_wf,
    lemma_first_faulty_unique,
};
use vstd::string::StringExecFns;

verus! {

/// The convention the parameter filter follows: a parameter is owned by the
/// host when its type's leading namespace segment equals the reserved host
/// identifier handed to the generator.
pub open spec fn is_host_owned(ty: TypeDesc, host: Seq<char>) -> bool {
    ty.leading matches Some(l) && l@ == host
}

/// A parameter reduced to what the skeleton's contract speaks of: the name
/// text and the type descriptor value.
pub struct ParamView {
    pub name: Seq<char>,
    pub ty: TypeDesc,
}

/// What one parameter of the described function looks like in spec terms.
pub open spec fn param_view(p: Parameter) -> ParamView {
    ParamView { name: p.name@, ty: p.ty }
}

/// The skeleton's parameter list for a surface parameter list: host-owned
/// parameters are dropped; each retained parameter keeps its type and gains
/// the ignore-marker prefix on its name, exactly once.
pub open spec fn skeleton_params(inputs: Seq<ParamView>, host: Seq<char>) -> Seq<ParamView>
    decreases inputs.len(),
{
    if inputs.len() == 0 {
        Seq::<ParamView>::empty()
    } else {
        let rest = skeleton_params(inputs.drop_last(), host);
        let p = inputs.last();
        if is_host_owned(p.ty, host) {
            rest
        } else {
            rest.push(ParamView { name: seq!['_'] + p.name, ty: p.ty })
        }
    }
}

/// Every parameter of a skeleton list is free of host-owned types, and
/// every name carries the ignore marker exactly once over an original name.
pub proof fn lemma_skeleton_params_filtered(inputs: Seq<ParamView>, host: Seq<char>)
    ensures
        forall|j: int|
            0 <= j < skeleton_params(inputs, host).len() ==> !is_host_owned(
                #[trigger] skeleton_params(inputs, host)[j].ty,
                host,
            ),
        forall|j: int|
            0 <= j < skeleton_params(inputs, host).len() ==> exists|k: int|
                0 <= k < inputs.len() && !is_host_owned(inputs[k].ty, host) && (
                #[trigger] skeleton_params(inputs, host)[j]) == (ParamView {
                    name: seq!['_'] + inputs[k].name,
                    ty: inputs[k].ty,
                }),
    decreases inputs.len(),
{
    if inputs.len() > 0 {
        lemma_skeleton_params_filtered(inputs.drop_last(), host);
        assert forall|k: int| 0 <= k < inputs.len() - 1 implies inputs.drop_last()[k]
            == inputs[k] by {}
    }
}

/// What the generated skeleton signature owes the candidate it came from:
/// name, result types and asynchrony kept, generics gone by construction,
/// parameters filtered and renamed by the host convention.
pub open spec fn skeleton_fn_ok(g: FunctionSignature, raw: RawSignature, host: Seq<char>) -> bool {
    &&& g.name == raw.name
    &&& g.success == raw.success
    &&& g.error == raw.error
    &&& g.is_async == raw.is_async
    &&& g.params@.map_values(|p: Parameter| param_view(p)) == skeleton_params(
        parsed_views(raw.inputs@),
        host,
    )
}

/// The name and type of each surface parameter, in order, for lists whose
/// patterns are all simple identifiers.
pub open spec fn parsed_views(inputs: Seq<crate::ast::RawParam>) -> Seq<ParamView> {
    inputs.map_values(|p: crate::ast::RawParam| ParamView { name: p.pattern->name@, ty: p.ty })
}

/// Derive the skeleton form of one parsed candidate signature.
fn skeleton_fn(sig: &RawSignature, host: &String) -> (r: Result<
    FunctionSignature,
    GenerationError,
>)
    ensures
        r is Ok <==> inputs_wf(sig.inputs@),
        r matches Ok(g) ==> skeleton_fn_ok(g, *sig, host@),
        r is Err ==> (r->Err_0 == GenerationError::ReceiverParameter || r->Err_0
            == GenerationError::UnsupportedPattern),
        r == Result::<FunctionSignature, GenerationError>::Err(GenerationError::ReceiverParameter)
            <==> crate::sig::rejects_with_receiver(sig.inputs@),
        r == Result::<FunctionSignature, GenerationError>::Err(GenerationError::UnsupportedPattern)
            <==> crate::sig::rejects_with_unsupported(sig.inputs@),
{
    let mut params: Vec<Parameter> = Vec::new();
    let mut i: usize = 0;
    proof {
        assert(parsed_views(sig.inputs@.take(0)) =~= Seq::<ParamView>::empty());
        assert(params@.map_values(|p: Parameter| param_view(p)) =~= Seq::<ParamView>::empty());
    }
    while i < sig.inputs.len()
        invariant
            i <= sig.inputs@.len(),
            forall|k: int| 0 <= k < i ==> sig.inputs@[k].pattern is Ident,
            params@.map_values(|p: Parameter| param_view(p)) == skeleton_params(
                parsed_views(sig.inputs@.take(i as int)),
                host@,
            ),
        decreases sig.inputs@.len() - i,
    {
        let ghost before = params@.map_values(|p: Parameter| param_view(p));
        let p = &sig.inputs[i];
        match &p.pattern {
            ParamPattern::Ident { name: pname } => {
                let owned = match &p.ty.leading {
                    Some(l) => *l == *host,
                    None => false,
                };
                proof {
                    assert(parsed_views(sig.inputs@.take(i + 1)).drop_last() =~= parsed_views(
                        sig.inputs@.take(i as int),
                    ));
                    assert(parsed_views(sig.inputs@.take(i + 1)).last() == (ParamView {
                        name: pname@,
                        ty: p.ty,
                    }));
                    assert(owned == is_host_owned(p.ty, host@));
                }
                if !owned {
                    let marked = "_".to_owned().concat(pname.as_str());
                    let ty = p.ty.clone();
                    params.push(Parameter { name: marked, ty });
                    proof {
                        reveal_strlit("_");
                        assert("_"@ =~= seq!['_']);
                        assert(params@.map_values(|q: Parameter| param_view(q)) =~= before.push(
                            ParamView { name: seq!['_'] + pname@, ty: p.ty },
                        ));
                    }
                }
            },
            ParamPattern::Receiver => {
                proof {
                    assert(crate::sig::is_first_offender(sig.inputs@, i as int));
                    assert forall|j: int| crate::sig::is_first_offender(sig.inputs@, j) implies j
                        == i as int by {
                        crate::sig::lemma_first_offender_unique(sig.inputs@, j, i as int);
                    };
                }
                return Err(GenerationError::ReceiverParameter);
            },
            ParamPattern::Unsupported => {
                proof {
                    assert(crate::sig::is_first_offender(sig.inputs@, i as int));
                    assert forall|j: int| crate::sig::is_first_offender(sig.inputs@, j) implies j
                        == i as int by {
                        crate::sig::lemma_first_offender_unique(sig.inputs@, j, i as int);
                    };
                }
                return Err(GenerationError::UnsupportedPattern);
            },
        }
        i = i + 1;
    }
    proof {
        assert(sig.inputs@.take(sig.inputs@.len() as int) =~= sig.inputs@);
    }
    let name = sig.name.clone();
    let success = sig.success.clone();
    let error = match &sig.error {
        Some(t) => Some(t.clone()),
        None => None,
    };
    let is_async = sig.is_async;
    Ok(FunctionSignature { name, params, success, error, is_async })
}

/// The generated skeleton unit: the placeholder type's name, the interface
/// it is declared to implement with the filtered signatures (each body a
/// "not implemented" placeholder), and the original candidates, re-emitted
/// verbatim after the skeleton.
#[derive(Debug, PartialEq)]
pub struct SkeletonOutput {
    pub struct_name: String,
    pub trait_name: String,
    pub impl_fns: Vec<FunctionSignature>,
    pub reemitted: Vec<ImplementationCandidate>,
}

/// The sequence of candidate signatures.
pub open spec fn candidate_sigs(cs: Seq<ImplementationCandidate>) -> Seq<RawSignature> {
    cs.map_values(|c: ImplementationCandidate| c.sig)
}

/// What one successful skeleton generation run owes: the placeholder type
/// named after the interface, one filtered signature per candidate, and
/// the candidates re-emitted unchanged, in order, after the skeleton.
pub open spec fn skeleton_output_ok(
    out: SkeletonOutput,
    trait_name: String,
    fns: Seq<ImplementationCandidate>,
    host: Seq<char>,
) -> bool {
    &&& out.trait_name == trait_name
    &&& out.struct_name@ == "__Impl"@ + trait_name@
    &&& out.reemitted@ == fns
    &&& out.impl_fns@.len() == fns.len()
    &&& forall|i: int|
        0 <= i < fns.len() ==> skeleton_fn_ok(#[trigger] out.impl_fns@[i], fns[i].sig, host)
}

/// Skeleton generation is deterministic: two conforming outputs for one
/// interface name, candidate list and host identifier agree on the
/// placeholder name, the filtered signatures and the re-emitted
/// candidates, so re-running generation on unchanged input yields
/// syntactically identical output.
pub proof fn lemma_skeleton_generation_deterministic(
    x: SkeletonOutput,
    y: SkeletonOutput,
    trait_name: String,
    fns: Seq<ImplementationCandidate>,
    host: Seq<char>,
)
    requires
        skeleton_output_ok(x, trait_name, fns, host),
        skeleton_output_ok(y, trait_name, fns, host),
    ensures
        x.struct_name@ == y.struct_name@,
        x.trait_name == y.trait_name,
        x.reemitted@ == y.reemitted@,
        x.impl_fns@.len() == y.impl_fns@.len(),
        forall|i: int|
            0 <= i < x.impl_fns@.len() ==> {
                &&& (#[trigger] x.impl_fns@[i]).name == y.impl_fns@[i].name
                &&& x.impl_fns@[i].success == y.impl_fns@[i].success
                &&& x.impl_fns@[i].error == y.impl_fns@[i].error
                &&& x.impl_fns@[i].is_async == y.impl_fns@[i].is_async
                &&& x.impl_fns@[i].params@.map_values(|p: Parameter| param_view(p))
                    == y.impl_fns@[i].params@.map_values(|p: Parameter| param_view(p))
            },
{
    assert forall|i: int| 0 <= i < x.impl_fns@.len() implies {
        &&& (#[trigger] x.impl_fns@[i]).name == y.impl_fns@[i].name
        &&& x.impl_fns@[i].success == y.impl_fns@[i].success
        &&& x.impl_fns@[i].error == y.impl_fns@[i].error
        &&& x.impl_fns@[i].is_async == y.impl_fns@[i].is_async
        &&& x.impl_fns@[i].params@.map_values(|p: Parameter| param_view(p))
            == y.impl_fns@[i].params@.map_values(|p: Parameter| param_view(p))
    } by {
        assert(skeleton_fn_ok(x.impl_fns@[i], fns[i].sig, host));
        assert(skeleton_fn_ok(y.impl_fns@[i], fns[i].sig, host));
    }
}

/// Generate the skeleton for `trait_name` from `fns`, filtering by the
/// reserved `host` namespace identifier. Succeeds exactly when every
/// candidate signature parses; parse errors propagate and nothing is
/// emitted. The placeholder type's name is the interface name behind the
/// reserved implementation marker.
pub fn impl_trait(trait_name: String, fns: Vec<ImplementationCandidate>, host: &String) -> (r:
    Result<SkeletonOutput, GenerationError>)
    ensures
        r is Ok <==> crate::sig::interface_patterns_ok(candidate_sigs(fns@)),
        r matches Ok(out) ==> skeleton_output_ok(out, trait_name, fns@, host@),
        r == Result::<SkeletonOutput, GenerationError>::Err(GenerationError::ReceiverParameter)
            <==> fails_with_receiver(candidate_sigs(fns@)),
        r == Result::<SkeletonOutput, GenerationError>::Err(GenerationError::UnsupportedPattern)
            <==> fails_with_unsupported(candidate_sigs(fns@)),
        r is Err ==> (r->Err_0 == GenerationError::ReceiverParameter || r->Err_0
            == GenerationError::UnsupportedPattern),
{
    let struct_name = "__Impl".to_owned().concat(trait_name.as_str());
    let ghost cs0 = fns@;
    let mut impl_fns: Vec<FunctionSignature> = Vec::new();
    let mut reemitted: Vec<ImplementationCandidate> = Vec::new();
    let mut rem = fns;
    while rem.len() > 0
        invariant
            cs0 == fns@,
            impl_fns@.len() == reemitted@.len(),
            reemitted@.len() + rem@.len() == cs0.len(),
            rem@ =~= cs0.skip(reemitted@.len() as int),
            forall|i: int| 0 <= i < reemitted@.len() ==> #[trigger] reemitted@[i] == cs0[i],
            forall|i: int|
                0 <= i < impl_fns@.len() ==> skeleton_fn_ok(
                    #[trigger] impl_fns@[i],
                    cs0[i].sig,
                    host@,
                ),
            forall|i: int|
                0 <= i < reemitted@.len() ==> inputs_wf(#[trigger] cs0[i].sig.inputs@),
        decreases rem@.len(),
    {
        let ghost k = reemitted@.len() as int;
        let c = rem.remove(0);
        proof {
            assert(c == cs0[k]);
            assert(rem@ =~= cs0.skip(k + 1));
        }
        match skeleton_fn(&c.sig, host) {
            Ok(g) => {
                impl_fns.push(g);
                reemitted.push(c);
            },
            Err(e) => {
                proof {
                    assert(candidate_sigs(cs0)[k] == c.sig);
                    assert(first_faulty_fn(candidate_sigs(cs0), k));
                    assert forall|i: int| first_faulty_fn(candidate_sigs(cs0), i) implies i
                        == k by {
                        lemma_first_faulty_unique(candidate_sigs(cs0), i, k);
                    };
                    if e == GenerationError::ReceiverParameter {
                        assert(fails_with_receiver(candidate_sigs(cs0)));
                        assert(!fails_with_unsupported(candidate_sigs(cs0)));
                    } else {
                        assert(fails_with_unsupported(candidate_sigs(cs0)));
                        assert(!fails_with_receiver(candidate_sigs(cs0)));
                    }
                    assert(!crate::sig::interface_patterns_ok(candidate_sigs(cs0)));
                }
                return Err(e);
            },
        }
    }
    proof {
        assert(reemitted@ =~= cs0);
        assert forall|i: int| 0 <= i < candidate_sigs(cs0).len() implies inputs_wf(
            #[trigger] candidate_sigs(cs0)[i].inputs@,
        ) by {
            assert(candidate_sigs(cs0)[i] == cs0[i].sig);
        }
        assert(crate::sig::interface_patterns_ok(candidate_sigs(cs0)));
        crate::sig::lemma_patterns_ok_no_failure(candidate_sigs(cs0));
    }
    Ok(SkeletonOutput { struct_name, trait_name, impl_fns, reemitted })
}

} // verus!
