//! The contract extractor: turns the host's raw method declarations into
//! normalized method contracts.
//!
//! Every declared method must be asynchronous; the typed parameter list is
//! collected in order, skipping the implicit receiver; a `Fallible` tag may
//! stand only outermost in the return type; parameter names must be distinct.
//! Any malformed declaration aborts the whole extraction: a malformed
//! contract cannot be safely dispatched, so no partial surface is produced.

use vstd::prelude::*;

use crate::descriptor::{
    check_fallible_free, check_return_shape, fallible_free, return_shape_ok, TypeDescriptor,
};

verus! {

/// One declared parameter: its name and the descriptor of its type.
pub struct ParamSpec {
    pub name: String,
    pub shape: TypeDescriptor,
}

/// One entry of a raw formal parameter list: the implicit receiver, or a
/// named, typed parameter.
pub enum RawParam {
    Receiver,
    Typed(String, TypeDescriptor),
}

/// One raw method declaration from the host's operation set.
pub struct RawMethod {
    pub name: String,
    pub is_async: bool,
    pub inputs: Vec<RawParam>,
    pub ret: TypeDescriptor,
}

/// A normalized method contract: unique name, ordered typed parameters, and
/// the return descriptor, `Fallible`-wrapped when the method can fail.
pub struct MethodContract {
    pub name: String,
    pub params: Vec<ParamSpec>,
    pub ret: TypeDescriptor,
}

/// A build-time error: the whole generation is aborted, no partial surface is
/// produced.
#[derive(Clone, Debug, PartialEq, Eq)]
pub enum SurfaceError {
    /// The named method is declared synchronous.
    NonAsyncMethod { method: String },
    /// A `Fallible` tag stands somewhere other than outermost in the named
    /// method's return type.
    MisplacedFallible { method: String },
    /// Two parameters of the named method share a name.
    DuplicateParameter { method: String },
}

/// The typed parameters of a raw input list, in order, receiver skipped.
pub open spec fn typed_inputs(inputs: Seq<RawParam>) -> Seq<ParamSpec>
    decreases inputs.len(),
{
    if inputs.len() == 0 {
        Seq::empty()
    } else {
        let rest = typed_inputs(inputs.drop_first());
        match inputs[0] {
            RawParam::Receiver => rest,
            RawParam::Typed(n, t) => seq![ParamSpec { name: n, shape: t }] + rest,
        }
    }
}

/// Collecting typed parameters distributes over concatenation.
pub proof fn lemma_typed_inputs_concat(a: Seq<RawParam>, b: Seq<RawParam>)
    ensures
        typed_inputs(a + b) == typed_inputs(a) + typed_inputs(b),
    decreases a.len(),
{
    if a.len() == 0 {
        assert(a + b =~= b);
        assert(typed_inputs(a) + typed_inputs(b) =~= typed_inputs(b));
    } else {
        assert((a + b)[0] == a[0]);
        assert((a + b).drop_first() =~= a.drop_first() + b);
        lemma_typed_inputs_concat(a.drop_first(), b);
        match a[0] {
            RawParam::Receiver => {},
            RawParam::Typed(n, t) => {
                assert(seq![ParamSpec { name: n, shape: t }] + (typed_inputs(a.drop_first())
                    + typed_inputs(b)) =~= (seq![ParamSpec { name: n, shape: t }] + typed_inputs(
                    a.drop_first(),
                )) + typed_inputs(b));
            },
        }
    }
}

/// All parameter names in the list are pairwise distinct.
pub open spec fn distinct_param_names(params: Seq<ParamSpec>) -> bool {
    forall|i: int, j: int|
        0 <= i < j < params.len() ==> params[i].name@ != params[j].name@
}

/// Every parameter's descriptor is free of `Fallible` tags.
pub open spec fn params_fallible_free(params: Seq<ParamSpec>) -> bool {
    forall|i: int| 0 <= i < params.len() ==> fallible_free(params[i].shape)
}

/// A raw method declaration that extraction accepts.
pub open spec fn raw_wf(m: RawMethod) -> bool {
    &&& m.is_async
    &&& return_shape_ok(m.ret)
    &&& params_fallible_free(typed_inputs(m.inputs@))
    &&& distinct_param_names(typed_inputs(m.inputs@))
}

/// The error that extraction reports for a malformed raw method: the checks
/// run in this order — asynchrony, `Fallible` placement, name distinctness.
pub open spec fn error_for(m: RawMethod, e: SurfaceError) -> bool {
    if !m.is_async {
        e matches SurfaceError::NonAsyncMethod { method } && method@ == m.name@
    } else if !return_shape_ok(m.ret) || !params_fallible_free(typed_inputs(m.inputs@)) {
        e matches SurfaceError::MisplacedFallible { method } && method@ == m.name@
    } else {
        e matches SurfaceError::DuplicateParameter { method } && method@ == m.name@
    }
}

/// The contract extracted from one well-formed raw method.
pub open spec fn contract_matches(c: MethodContract, m: RawMethod) -> bool {
    &&& c.name == m.name
    &&& c.params@ == typed_inputs(m.inputs@)
    &&& c.ret == m.ret
}

/// Extracts normalized contracts from the host's raw method declarations, in
/// declaration order. Fails on the first malformed declaration; nothing is
/// produced then, because a malformed contract cannot be safely dispatched.
#[verifier::loop_isolation(false)]
pub fn extract_contracts(raws: Vec<RawMethod>) -> (r: Result<Vec<MethodContract>, SurfaceError>)
    ensures
        r is Ok <==> (forall|i: int| 0 <= i < raws@.len() ==> raw_wf(raws@[i])),
        r matches Ok(cs) ==> cs@.len() == raws@.len() && (forall|i: int|
            0 <= i < raws@.len() ==> contract_matches(cs@[i], raws@[i])),
        r matches Err(e) ==> exists|i: int|
            0 <= i < raws@.len() && !raw_wf(raws@[i]) && error_for(raws@[i], e) && (forall|j: int|
                0 <= j < i ==> raw_wf(#[trigger] raws@[j])),
{
    let ghost all = raws@;
    let n = raws.len();
    let mut rest = raws;
    let mut contracts: Vec<MethodContract> = Vec::new();
    let mut i: usize = 0;
    while i < n
        invariant
            0 <= i <= n,
            rest@ =~= all.skip(i as int),
            contracts@.len() == i,
            forall|j: int| 0 <= j < i ==> raw_wf(#[trigger] all[j]),
            forall|j: int| 0 <= j < i ==> contract_matches(#[trigger] contracts@[j], all[j]),
        decreases n - i,
    {
        proof {
            assert(all.skip(i as int)[0] == all[i as int]);
            assert(all.skip(i as int).drop_first() =~= all.skip(i as int + 1));
        }
        let m = rest.remove(0);
        let ghost gm = all[i as int];
        let RawMethod { name, is_async, inputs, ret } = m;
        if !is_async {
            return Err(SurfaceError::NonAsyncMethod { method: name });
        }
        if !check_return_shape(&ret) {
            return Err(SurfaceError::MisplacedFallible { method: name });
        }
        // collect the typed parameters, skipping the receiver
        let ghost gin = inputs@;
        let kn = inputs.len();
        let mut rest_in = inputs;
        let mut params: Vec<ParamSpec> = Vec::new();
        let mut k: usize = 0;
        while k < kn
            invariant
                0 <= k <= kn,
                rest_in@ =~= gin.skip(k as int),
                params@ =~= typed_inputs(gin.take(k as int)),
            decreases kn - k,
        {
            proof {
                assert(gin.skip(k as int)[0] == gin[k as int]);
                assert(gin.skip(k as int).drop_first() =~= gin.skip(k as int + 1));
                assert(gin.take(k as int + 1) =~= gin.take(k as int) + seq![gin[k as int]]);
                lemma_typed_inputs_concat(gin.take(k as int), seq![gin[k as int]]);
                assert(seq![gin[k as int]].drop_first() =~= Seq::<RawParam>::empty());
            }
            let p = rest_in.remove(0);
            proof {
                let x = gin[k as int];
                assert(p == x);
                assert(seq![x].drop_first() =~= Seq::<RawParam>::empty());
                assert(typed_inputs(Seq::<RawParam>::empty()) =~= Seq::<ParamSpec>::empty());
                match x {
                    RawParam::Receiver => {
                        assert(typed_inputs(seq![x]) =~= Seq::<ParamSpec>::empty());
                    },
                    RawParam::Typed(n2, t2) => {
                        assert(typed_inputs(seq![x]) =~= seq![ParamSpec { name: n2, shape: t2 }]);
                    },
                }
            }
            match p {
                RawParam::Receiver => {},
                RawParam::Typed(pn, pt) => {
                    params.push(ParamSpec { name: pn, shape: pt });
                },
            }
            k = k + 1;
        }
        proof {
            assert(gin.take(kn as int) =~= gin);
        }
        // every parameter descriptor must be free of Fallible tags
        let pn = params.len();
        let mut a: usize = 0;
        while a < pn
            invariant
                0 <= a <= pn,
                forall|x: int| 0 <= x < a ==> fallible_free(#[trigger] params@[x].shape),
            decreases pn - a,
        {
            if !check_fallible_free(&params[a].shape) {
                return Err(SurfaceError::MisplacedFallible { method: name });
            }
            a = a + 1;
        }
        // parameter names must be pairwise distinct
        let mut b: usize = 0;
        while b < pn
            invariant
                0 <= b <= pn,
                forall|x: int, y: int| 0 <= x < y < b ==> params@[x].name@ != params@[y].name@,
            decreases pn - b,
        {
            let mut c: usize = 0;
            while c < b
                invariant
                    0 <= c <= b < pn,
                    forall|x: int, y: int| 0 <= x < y < b ==> params@[x].name@ != params@[y].name@,
                    forall|x: int| 0 <= x < c ==> params@[x].name@ != params@[b as int].name@,
                decreases b - c,
            {
                if params[c].name == params[b].name {
                    return Err(SurfaceError::DuplicateParameter { method: name });
                }
                c = c + 1;
            }
            b = b + 1;
        }
        contracts.push(MethodContract { name, params, ret });
        i = i + 1;
    }
    proof {
        assert(all.skip(n as int) =~= Seq::<RawMethod>::empty());
    }
    Ok(contracts)
}

} // verus!
