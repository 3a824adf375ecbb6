//! The dispatch table: one handler descriptor per method contract, the
//! decoding of argument payloads into typed arguments, and the encoding of
//! operation outcomes into responses.
//!
//! A handler with zero parameters accepts an empty or absent payload. A
//! handler with parameters accepts one structured payload: positional, with
//! values in declared order, or keyed, with fields routed to parameters by
//! name. A payload that fails to match the expected shape produces the same
//! error envelope shape as a business failure, never a crash.

use vstd::prelude::*;
use vstd::string::StringExecFns;

use crate::codec::{decode_model, decode_value};
use crate::contract::{MethodContract, ParamSpec};
use crate::descriptor::TypeDescriptor;
use crate::host::{encode_model, HostModel, HostValue};
use crate::wire::{arr_model, lemma_arr_model, lemma_obj_model, obj_model, Value, ValueModel};

verus! {

/// The fixed numeric code of the generic server-error envelope.
pub const SERVER_ERROR_CODE: i64 = 1;

/// One registered handler: the method name it answers to, the synthesized
/// parameter shape, and the return classification.
pub struct HandlerSpec {
    pub method: String,
    pub params: Vec<ParamSpec>,
    pub fallible: bool,
}

/// The request-dispatch table, keyed by exact method-name equality.
pub struct DispatchTable {
    pub handlers: Vec<HandlerSpec>,
}

/// An argument payload as the transport hands it over: absent, positional
/// (values in declared order), or keyed (fields routed by name). Which
/// encoding is used is the host's configuration choice.
pub enum Payload {
    Absent,
    Positional(Vec<Value>),
    Keyed(Vec<(String, Value)>),
}

/// The mathematical model of a payload.
pub enum PayloadModel {
    Absent,
    Positional(Seq<ValueModel>),
    Keyed(Seq<(Seq<char>, ValueModel)>),
}

impl View for Payload {
    type V = PayloadModel;

    open spec fn view(&self) -> PayloadModel {
        match *self {
            Payload::Absent => PayloadModel::Absent,
            Payload::Positional(vals) => PayloadModel::Positional(arr_model(vals@)),
            Payload::Keyed(fields) => PayloadModel::Keyed(obj_model(fields@)),
        }
    }
}

/// Why a payload was rejected.
#[derive(Clone, Copy, Debug, PartialEq, Eq, Structural)]
pub enum CallFault {
    /// The method declares parameters but the payload is absent.
    MissingPayload,
    /// The payload's field or value count differs from the declared
    /// parameter count.
    ArityMismatch,
    /// A declared parameter has no field of its name in a keyed payload.
    MissingField,
    /// A routed value does not match its parameter's declared shape.
    ShapeMismatch,
}

/// The first field of the given name, scanning left to right.
pub open spec fn first_field(
    fields: Seq<(Seq<char>, ValueModel)>,
    name: Seq<char>,
) -> Option<ValueModel>
    decreases fields.len(),
{
    if fields.len() == 0 {
        None
    } else if fields[0].0 == name {
        Some(fields[0].1)
    } else {
        first_field(fields.drop_first(), name)
    }
}

/// Scanning past a prefix without the name leaves the lookup unchanged.
pub proof fn lemma_first_field_skip(
    fields: Seq<(Seq<char>, ValueModel)>,
    name: Seq<char>,
    i: int,
)
    requires
        0 <= i <= fields.len(),
        forall|j: int| 0 <= j < i ==> fields[j].0 != name,
    ensures
        first_field(fields, name) == first_field(fields.skip(i), name),
    decreases i,
{
    if i == 0 {
        assert(fields.skip(0) =~= fields);
    } else {
        assert(fields.drop_first().skip(i - 1) =~= fields.skip(i));
        assert(forall|j: int| 0 <= j < i - 1 ==> fields.drop_first()[j].0 != name);
        lemma_first_field_skip(fields.drop_first(), name, i - 1);
    }
}

/// With pairwise distinct field names, the lookup returns the value of the
/// one field carrying the name, wherever it stands.
pub proof fn lemma_first_field_unique(
    fields: Seq<(Seq<char>, ValueModel)>,
    name: Seq<char>,
    j: int,
)
    requires
        forall|x: int, y: int| 0 <= x < y < fields.len() ==> fields[x].0 != fields[y].0,
        0 <= j < fields.len(),
        fields[j].0 == name,
    ensures
        first_field(fields, name) == Some(fields[j].1),
    decreases j,
{
    if j > 0 {
        assert(fields[0].0 != name);
        assert(fields.drop_first()[j - 1] == fields[j]);
        assert(forall|x: int, y: int|
            0 <= x < y < fields.drop_first().len() ==> fields.drop_first()[x].0
                != fields.drop_first()[y].0);
        lemma_first_field_unique(fields.drop_first(), name, j - 1);
    }
}

/// The wire value that the payload routes to the parameter at the given
/// index.
pub open spec fn arg_source(
    params: Seq<ParamSpec>,
    p: PayloadModel,
    i: int,
) -> ValueModel {
    match p {
        PayloadModel::Positional(vals) => vals[i],
        PayloadModel::Keyed(fields) => first_field(fields, params[i].name@)->0,
        PayloadModel::Absent => ValueModel::Null,
    }
}

/// When the payload matches the declared parameters: an absent payload only
/// for a parameterless method; a positional payload with exactly one value
/// per parameter, each matching its shape; a keyed payload with exactly one
/// field per parameter, found by name, each matching its shape.
pub open spec fn payload_ok(params: Seq<ParamSpec>, p: PayloadModel) -> bool {
    match p {
        PayloadModel::Absent => params.len() == 0,
        PayloadModel::Positional(vals) => vals.len() == params.len() && (forall|i: int|
            0 <= i < params.len() ==> decode_model(params[i].shape, vals[i]) is Some),
        PayloadModel::Keyed(fields) => fields.len() == params.len() && (forall|i: int|
            0 <= i < params.len() ==> first_field(fields, params[i].name@) is Some
                && decode_model(
                params[i].shape,
                first_field(fields, params[i].name@)->0,
            ) is Some),
    }
}

/// The decoded arguments stand in declared parameter order, each the decoding
/// of the wire value that the payload routes to its parameter.
pub open spec fn args_decoded(
    params: Seq<ParamSpec>,
    p: PayloadModel,
    args: Seq<HostModel>,
) -> bool {
    args.len() == params.len() && (forall|i: int|
        0 <= i < params.len() ==> Some(args[i]) == decode_model(
            params[i].shape,
            arg_source(params, p, i),
        ))
}

/// The fault reported for a rejected payload, tied to the first parameter, in
/// declared order, that cannot be served.
pub open spec fn fault_matches(params: Seq<ParamSpec>, p: PayloadModel, f: CallFault) -> bool {
    match p {
        PayloadModel::Absent => params.len() > 0 && f == CallFault::MissingPayload,
        PayloadModel::Positional(vals) => if vals.len() != params.len() {
            f == CallFault::ArityMismatch
        } else {
            f == CallFault::ShapeMismatch && exists|i: int|
                0 <= i < params.len() && !(decode_model(params[i].shape, vals[i]) is Some)
        },
        PayloadModel::Keyed(fields) => if fields.len() != params.len() {
            f == CallFault::ArityMismatch
        } else {
            exists|i: int|
                #![trigger params[i]]
                0 <= i < params.len() && {
                    &&& if first_field(fields, params[i].name@) is None {
                        f == CallFault::MissingField
                    } else {
                        !(decode_model(
                            params[i].shape,
                            first_field(fields, params[i].name@)->0,
                        ) is Some) && f == CallFault::ShapeMismatch
                    }
                    &&& forall|j: int|
                        0 <= j < i ==> first_field(fields, params[j].name@) is Some
                            && decode_model(
                            params[j].shape,
                            first_field(fields, params[j].name@)->0,
                        ) is Some
                }
        },
    }
}

/// Finds the first field of the given name in a keyed payload.
#[verifier::loop_isolation(false)]
fn find_field<'a>(fields: &'a Vec<(String, Value)>, name: &String) -> (r: Option<&'a Value>)
    ensures
        r matches Some(v) ==> first_field(obj_model(fields@), name@) == Some(v@),
        r is None <==> first_field(obj_model(fields@), name@) is None,
{
    proof {
        lemma_obj_model(fields@);
    }
    let n = fields.len();
    let mut i: usize = 0;
    while i < n
        invariant
            0 <= i <= n,
            forall|j: int| 0 <= j < i ==> obj_model(fields@)[j].0 != name@,
        decreases n - i,
    {
        if fields[i].0 == *name {
            proof {
                lemma_first_field_skip(obj_model(fields@), name@, i as int);
                assert(obj_model(fields@).skip(i as int)[0] == obj_model(fields@)[i as int]);
            }
            return Some(&fields[i].1);
        }
        i = i + 1;
    }
    proof {
        lemma_first_field_skip(obj_model(fields@), name@, n as int);
        assert(obj_model(fields@).skip(n as int).len() == 0);
    }
    None
}

/// Decodes a positional payload: one value per parameter, in declared order.
#[verifier::loop_isolation(false)]
fn decode_positional(params: &Vec<ParamSpec>, vals: &Vec<Value>) -> (r: Result<
    Vec<HostValue>,
    CallFault,
>)
    ensures
        r is Ok <==> payload_ok(params@, PayloadModel::Positional(arr_model(vals@))),
        r matches Ok(args) ==> args_decoded(
            params@,
            PayloadModel::Positional(arr_model(vals@)),
            args@.map_values(|a: HostValue| a@),
        ),
        r matches Err(f) ==> fault_matches(params@, PayloadModel::Positional(arr_model(vals@)), f),
{
    proof {
        lemma_arr_model(vals@);
    }
    let np = params.len();
    if vals.len() != np {
        return Err(CallFault::ArityMismatch);
    }
    let mut args: Vec<HostValue> = Vec::new();
    let mut i: usize = 0;
    while i < np
        invariant
            0 <= i <= np,
            args@.len() == i,
            forall|j: int|
                0 <= j < i ==> Some(#[trigger] args@[j]@) == decode_model(
                    params@[j].shape,
                    arr_model(vals@)[j],
                ),
        decreases np - i,
    {
        match decode_value(&params[i].shape, &vals[i]) {
            Some(a) => {
                let ghost ga = a@;
                args.push(a);
                proof {
                    assert(args@[i as int]@ == ga);
                }
            },
            None => {
                proof {
                    assert(!(decode_model(params@[i as int].shape, arr_model(vals@)[i as int])
                        is Some));
                }
                return Err(CallFault::ShapeMismatch);
            },
        }
        i = i + 1;
    }
    proof {
        assert(args@.map_values(|a: HostValue| a@).len() == np);
        assert forall|x: int| 0 <= x < params@.len() implies decode_model(
            params@[x].shape,
            arr_model(vals@)[x],
        ) is Some by {
            assert(Some(args@[x]@) == decode_model(params@[x].shape, arr_model(vals@)[x]));
        }
    }
    Ok(args)
}

/// Decodes a keyed payload: one field per parameter, routed by name.
#[verifier::loop_isolation(false)]
fn decode_keyed(params: &Vec<ParamSpec>, fields: &Vec<(String, Value)>) -> (r: Result<
    Vec<HostValue>,
    CallFault,
>)
    ensures
        r is Ok <==> payload_ok(params@, PayloadModel::Keyed(obj_model(fields@))),
        r matches Ok(args) ==> args_decoded(
            params@,
            PayloadModel::Keyed(obj_model(fields@)),
            args@.map_values(|a: HostValue| a@),
        ),
        r matches Err(f) ==> fault_matches(params@, PayloadModel::Keyed(obj_model(fields@)), f),
{
    proof {
        lemma_obj_model(fields@);
    }
    let np = params.len();
    if fields.len() != np {
        return Err(CallFault::ArityMismatch);
    }
    let mut args: Vec<HostValue> = Vec::new();
    let mut i: usize = 0;
    while i < np
        invariant
            0 <= i <= np,
            args@.len() == i,
            forall|j: int|
                0 <= j < i ==> first_field(obj_model(fields@), #[trigger] params@[j].name@)
                    is Some && Some(args@[j]@) == decode_model(
                    params@[j].shape,
                    first_field(obj_model(fields@), params@[j].name@)->0,
                ),
        decreases np - i,
    {
        match find_field(fields, &params[i].name) {
            None => {
                proof {
                    assert(first_field(obj_model(fields@), params@[i as int].name@) is None);
                }
                return Err(CallFault::MissingField);
            },
            Some(v) => {
                let ghost gv = v@;
                match decode_value(&params[i].shape, v) {
                    Some(a) => {
                        let ghost ga = a@;
                        args.push(a);
                        proof {
                            assert(args@[i as int]@ == ga);
                            assert(first_field(obj_model(fields@), params@[i as int].name@)
                                == Some(gv));
                            assert(decode_model(params@[i as int].shape, gv) == Some(ga));
                        }
                    },
                    None => {
                        proof {
                            assert(first_field(obj_model(fields@), params@[i as int].name@)
                                == Some(gv));
                            assert(!(decode_model(params@[i as int].shape, gv) is Some));
                        }
                        return Err(CallFault::ShapeMismatch);
                    },
                }
            },
        }
        i = i + 1;
    }
    proof {
        assert(args@.map_values(|a: HostValue| a@).len() == np);
        assert forall|x: int| 0 <= x < params@.len() implies first_field(
            obj_model(fields@),
            #[trigger] params@[x].name@,
        ) is Some && decode_model(
            params@[x].shape,
            first_field(obj_model(fields@), params@[x].name@)->0,
        ) is Some by {
            assert(Some(args@[x]@) == decode_model(
                params@[x].shape,
                first_field(obj_model(fields@), params@[x].name@)->0,
            ));
        }
    }
    Ok(args)
}

/// Decodes a payload against a handler's parameter shape into the typed
/// argument list, in declared order, or reports why the payload was
/// rejected. Acceptance is exact: the call succeeds precisely on payloads
/// that match the declared parameters.
pub fn decode_call(h: &HandlerSpec, p: &Payload) -> (r: Result<Vec<HostValue>, CallFault>)
    ensures
        r is Ok <==> payload_ok(h.params@, p@),
        r matches Ok(args) ==> args_decoded(
            h.params@,
            p@,
            args@.map_values(|a: HostValue| a@),
        ),
        r matches Err(f) ==> fault_matches(h.params@, p@, f),
{
    match p {
        Payload::Absent => {
            if h.params.len() == 0 {
                let args: Vec<HostValue> = Vec::new();
                proof {
                    assert(args@.map_values(|a: HostValue| a@) =~= Seq::<HostModel>::empty());
                }
                Ok(args)
            } else {
                Err(CallFault::MissingPayload)
            }
        },
        Payload::Positional(vals) => decode_positional(&h.params, vals),
        Payload::Keyed(fields) => decode_keyed(&h.params, fields),
    }
}

/// What a host operation came back with: its value, or, for a fallible
/// operation, the textual description of its failure.
pub enum Outcome {
    Succeeded(HostValue),
    Failed(String),
}

/// A response to the caller: the encoded result value, or an error envelope
/// with the fixed server-error code and a human-readable message.
pub enum Response {
    Success(Value),
    Failure { code: i64, message: String },
}

/// Encodes an operation's outcome. A successful outcome encodes the value; a
/// failure — possible only for a fallible return — becomes the generic error
/// envelope carrying the failure's description.
pub fn encode_outcome(fallible: bool, outcome: Outcome) -> (r: Response)
    requires
        outcome is Failed ==> fallible,
    ensures
        outcome matches Outcome::Succeeded(v) ==> r matches Response::Success(w) && w@
            == encode_model(v@),
        outcome matches Outcome::Failed(msg) ==> r matches Response::Failure { code, message }
            && code == SERVER_ERROR_CODE && message@ == msg@,
{
    match outcome {
        Outcome::Succeeded(v) => Response::Success(v.into_json_value()),
        Outcome::Failed(msg) => Response::Failure { code: SERVER_ERROR_CODE, message: msg },
    }
}

/// The message text of each payload fault.
pub open spec fn fault_text(f: CallFault) -> Seq<char> {
    match f {
        CallFault::MissingPayload => "the method expects a parameter payload"@,
        CallFault::ArityMismatch => "the payload does not match the declared parameter count"@,
        CallFault::MissingField => "a declared parameter is missing from the payload"@,
        CallFault::ShapeMismatch => "a payload value does not match its declared parameter type"@,
    }
}

/// Wraps a rejected payload in the same error envelope shape as a business
/// failure.
pub fn fault_response(f: CallFault) -> (r: Response)
    ensures
        r matches Response::Failure { code, message } && code == SERVER_ERROR_CODE && message@
            == fault_text(f),
{
    let message = match f {
        CallFault::MissingPayload => String::from_str("the method expects a parameter payload"),
        CallFault::ArityMismatch => String::from_str(
            "the payload does not match the declared parameter count",
        ),
        CallFault::MissingField => String::from_str(
            "a declared parameter is missing from the payload",
        ),
        CallFault::ShapeMismatch => String::from_str(
            "a payload value does not match its declared parameter type",
        ),
    };
    Response::Failure { code: SERVER_ERROR_CODE, message }
}

/// The handler built from one contract: same name, same parameter shape, and
/// the return classification.
pub open spec fn handler_matches(h: HandlerSpec, c: MethodContract) -> bool {
    &&& h.method == c.name
    &&& h.params@ == c.params@
    &&& h.fallible == (c.ret is Fallible)
}

/// Builds the request-dispatch table: one handler per contract, in contract
/// order, keyed by the contract's method name, classified by whether the
/// return is fallible.
#[verifier::loop_isolation(false)]
pub fn build_dispatch_table(contracts: Vec<MethodContract>) -> (r: DispatchTable)
    ensures
        r.handlers@.len() == contracts@.len(),
        forall|i: int|
            0 <= i < contracts@.len() ==> handler_matches(#[trigger] r.handlers@[i], contracts@[i]),
{
    let ghost all = contracts@;
    let n = contracts.len();
    let mut rest = contracts;
    let mut handlers: Vec<HandlerSpec> = Vec::new();
    let mut i: usize = 0;
    while i < n
        invariant
            0 <= i <= n,
            rest@ =~= all.skip(i as int),
            handlers@.len() == i,
            forall|j: int| 0 <= j < i ==> handler_matches(#[trigger] handlers@[j], all[j]),
        decreases n - i,
    {
        proof {
            assert(all.skip(i as int)[0] == all[i as int]);
            assert(all.skip(i as int).drop_first() =~= all.skip(i as int + 1));
        }
        let c = rest.remove(0);
        let MethodContract { name, params, ret } = c;
        let fallible = match &ret {
            TypeDescriptor::Fallible(_) => true,
            _ => false,
        };
        handlers.push(HandlerSpec { method: name, params, fallible });
        i = i + 1;
    }
    DispatchTable { handlers }
}

/// The first handler registered under the given method name.
pub open spec fn handler_for(handlers: Seq<HandlerSpec>, name: Seq<char>) -> Option<HandlerSpec>
    decreases handlers.len(),
{
    if handlers.len() == 0 {
        None
    } else if handlers[0].method@ == name {
        Some(handlers[0])
    } else {
        handler_for(handlers.drop_first(), name)
    }
}

/// Scanning past a prefix without the name leaves the lookup unchanged.
pub proof fn lemma_handler_for_skip(handlers: Seq<HandlerSpec>, name: Seq<char>, i: int)
    requires
        0 <= i <= handlers.len(),
        forall|j: int| 0 <= j < i ==> handlers[j].method@ != name,
    ensures
        handler_for(handlers, name) == handler_for(handlers.skip(i), name),
    decreases i,
{
    if i == 0 {
        assert(handlers.skip(0) =~= handlers);
    } else {
        assert(handlers.drop_first().skip(i - 1) =~= handlers.skip(i));
        assert(forall|j: int| 0 <= j < i - 1 ==> handlers.drop_first()[j].method@ != name);
        lemma_handler_for_skip(handlers.drop_first(), name, i - 1);
    }
}

impl DispatchTable {
    /// Looks a handler up by exact method-name equality.
    #[verifier::loop_isolation(false)]
    pub fn find_handler<'a>(&'a self, method: &String) -> (r: Option<&'a HandlerSpec>)
        ensures
            r matches Some(h) ==> handler_for(self.handlers@, method@) == Some(*h),
            r is None <==> handler_for(self.handlers@, method@) is None,
    {
        let n = self.handlers.len();
        let mut i: usize = 0;
        while i < n
            invariant
                0 <= i <= n,
                forall|j: int| 0 <= j < i ==> self.handlers@[j].method@ != method@,
            decreases n - i,
        {
            if self.handlers[i].method == *method {
                proof {
                    lemma_handler_for_skip(self.handlers@, method@, i as int);
                    assert(self.handlers@.skip(i as int)[0] == self.handlers@[i as int]);
                }
                return Some(&self.handlers[i]);
            }
            i = i + 1;
        }
        proof {
            lemma_handler_for_skip(self.handlers@, method@, n as int);
            assert(self.handlers@.skip(n as int).len() == 0);
        }
        None
    }
}

/// Law: a handler with zero parameters accepts an empty or absent argument
/// payload, decoding to the empty argument list; the call then succeeds
/// whenever the underlying operation succeeds, since `encode_outcome` turns
/// every successful outcome into a success response.
pub proof fn lemma_zero_param_handler_accepts_empty(params: Seq<ParamSpec>)
    requires
        params.len() == 0,
    ensures
        payload_ok(params, PayloadModel::Absent),
        payload_ok(params, PayloadModel::Positional(Seq::empty())),
        payload_ok(params, PayloadModel::Keyed(Seq::empty())),
        args_decoded(params, PayloadModel::Absent, Seq::empty()),
{
}

/// Law: with keyed encoding, a payload whose fields carry pairwise distinct
/// names routes every field to the parameter of the same name, wherever the
/// field stands in the payload — no positional swap.
pub proof fn lemma_keyed_routing_no_swap(
    params: Seq<ParamSpec>,
    fields: Seq<(Seq<char>, ValueModel)>,
    args: Seq<HostModel>,
    i: int,
    j: int,
)
    requires
        forall|x: int, y: int| 0 <= x < y < fields.len() ==> fields[x].0 != fields[y].0,
        payload_ok(params, PayloadModel::Keyed(fields)),
        args_decoded(params, PayloadModel::Keyed(fields), args),
        0 <= i < params.len(),
        0 <= j < fields.len(),
        fields[j].0 == params[i].name@,
    ensures
        arg_source(params, PayloadModel::Keyed(fields), i) == fields[j].1,
        Some(args[i]) == decode_model(params[i].shape, fields[j].1),
{
    lemma_first_field_unique(fields, params[i].name@, j);
}

} // verus!
