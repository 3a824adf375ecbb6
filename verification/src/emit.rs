//! The client stub emitter: one TypeScript stub per method contract, in
//! declaration order, assembled into the final client document.
//!
//! The document is: a fixed header marking it as generated, the registered
//! custom-type definitions in first-encounter order, a fixed class opening,
//! one asynchronous stub per contract forwarding its name and argument
//! payload to a caller-supplied transport, and a fixed closing. Given the
//! same contracts the document is byte-identical on every run.

use vstd::prelude::*;
use vstd::string::StringExecFns;

use crate::contract::{MethodContract, ParamSpec};
use crate::descriptor::{custom_text, TypeDescriptor};
use crate::registry::{
    absorb, first_idx, has_sig, lemma_absorb_concat, lemma_absorb_first_encounter,
    lemma_absorb_unique, sigs_unique, CustomTypeRegistry, Entry,
};
use crate::resolve::{customs_of, resolve_custom};

verus! {

/// The mathematical model of one contract: its name, typed parameter list,
/// and return descriptor.
pub struct ContractModel {
    pub name: String,
    pub params: Seq<ParamSpec>,
    pub ret: TypeDescriptor,
}

/// The model of a contract.
pub open spec fn contract_model(c: MethodContract) -> ContractModel {
    ContractModel { name: c.name, params: c.params@, ret: c.ret }
}

/// The text of one parameter entry: `name: type`, custom-aware.
pub open spec fn param_entry_text(p: ParamSpec) -> Seq<char> {
    p.name@ + ": "@ + custom_text(p.shape)
}

/// The parameter-list text: entries joined with a comma and a space.
pub open spec fn params_list_text(params: Seq<ParamSpec>) -> Seq<char>
    decreases params.len(),
{
    if params.len() == 0 {
        Seq::empty()
    } else if params.len() == 1 {
        param_entry_text(params[0])
    } else {
        param_entry_text(params[0]) + ", "@ + params_list_text(params.drop_first())
    }
}

/// Appending one parameter extends the list text with a separator when the
/// list was not empty.
pub proof fn lemma_params_list_push(params: Seq<ParamSpec>, p: ParamSpec)
    ensures
        params_list_text(params + seq![p]) == if params.len() == 0 {
            param_entry_text(p)
        } else {
            params_list_text(params) + ", "@ + param_entry_text(p)
        },
    decreases params.len(),
{
    let whole = params + seq![p];
    if params.len() == 0 {
        assert(whole =~= seq![p]);
    } else {
        assert(whole[0] == params[0]);
        assert(whole.drop_first() =~= params.drop_first() + seq![p]);
        lemma_params_list_push(params.drop_first(), p);
        if params.len() == 1 {
            assert(params.drop_first().len() == 0);
        } else {
            assert(param_entry_text(whole[0]) + ", "@ + (params_list_text(params.drop_first())
                + ", "@ + param_entry_text(p)) =~= (param_entry_text(params[0]) + ", "@
                + params_list_text(params.drop_first())) + ", "@ + param_entry_text(p));
        }
    }
}

/// The argument-name text: parameter names joined with a comma and a space.
pub open spec fn arg_names_text(params: Seq<ParamSpec>) -> Seq<char>
    decreases params.len(),
{
    if params.len() == 0 {
        Seq::empty()
    } else if params.len() == 1 {
        params[0].name@
    } else {
        params[0].name@ + ", "@ + arg_names_text(params.drop_first())
    }
}

/// Appending one parameter extends the name text with a separator when the
/// list was not empty.
pub proof fn lemma_arg_names_push(params: Seq<ParamSpec>, p: ParamSpec)
    ensures
        arg_names_text(params + seq![p]) == if params.len() == 0 {
            p.name@
        } else {
            arg_names_text(params) + ", "@ + p.name@
        },
    decreases params.len(),
{
    let whole = params + seq![p];
    if params.len() == 0 {
        assert(whole =~= seq![p]);
    } else {
        assert(whole[0] == params[0]);
        assert(whole.drop_first() =~= params.drop_first() + seq![p]);
        lemma_arg_names_push(params.drop_first(), p);
        if params.len() == 1 {
            assert(params.drop_first().len() == 0);
        } else {
            assert(params[0].name@ + ", "@ + (arg_names_text(params.drop_first()) + ", "@
                + p.name@) =~= (params[0].name@ + ", "@ + arg_names_text(params.drop_first()))
                + ", "@ + p.name@);
        }
    }
}

/// The call-payload text handed to the transport: `undefined` for a
/// parameterless method, else the argument names in an object literal.
pub open spec fn call_payload_text(params: Seq<ParamSpec>) -> Seq<char> {
    if params.len() == 0 {
        "undefined"@
    } else {
        "{"@ + arg_names_text(params) + "}"@
    }
}

/// The text of one method stub.
pub open spec fn stub_text(c: ContractModel) -> Seq<char> {
    "\tpublic async "@ + c.name@ + "("@ + params_list_text(c.params) + "):Promise<"@ + custom_text(
        c.ret,
    ) + ">{\n\t\treturn await this.json_transport(\""@ + c.name@ + "\", "@ + call_payload_text(
        c.params,
    ) + ");\n\t}\n"@
}

/// The concatenated stubs of a contract sequence, in order.
pub open spec fn stubs_text(cs: Seq<ContractModel>) -> Seq<char>
    decreases cs.len(),
{
    if cs.len() == 0 {
        Seq::empty()
    } else {
        stub_text(cs[0]) + stubs_text(cs.drop_first())
    }
}

/// Stub text distributes over concatenation.
pub proof fn lemma_stubs_text_concat(a: Seq<ContractModel>, b: Seq<ContractModel>)
    ensures
        stubs_text(a + b) == stubs_text(a) + stubs_text(b),
    decreases a.len(),
{
    if a.len() == 0 {
        assert(a + b =~= b);
        assert(stubs_text(a) + stubs_text(b) =~= stubs_text(b));
    } else {
        assert((a + b)[0] == a[0]);
        assert((a + b).drop_first() =~= a.drop_first() + b);
        lemma_stubs_text_concat(a.drop_first(), b);
        assert(stub_text(a[0]) + (stubs_text(a.drop_first()) + stubs_text(b)) =~= (stub_text(a[0])
            + stubs_text(a.drop_first())) + stubs_text(b));
    }
}

/// The custom-leaf definitions of a parameter list, in traversal order.
pub open spec fn params_customs(params: Seq<ParamSpec>) -> Seq<(Seq<char>, Seq<char>)>
    decreases params.len(),
{
    if params.len() == 0 {
        Seq::empty()
    } else {
        customs_of(params[0].shape) + params_customs(params.drop_first())
    }
}

/// Parameter customs distribute over concatenation.
pub proof fn lemma_params_customs_concat(a: Seq<ParamSpec>, b: Seq<ParamSpec>)
    ensures
        params_customs(a + b) == params_customs(a) + params_customs(b),
    decreases a.len(),
{
    if a.len() == 0 {
        assert(a + b =~= b);
        assert(params_customs(a) + params_customs(b) =~= params_customs(b));
    } else {
        assert((a + b)[0] == a[0]);
        assert((a + b).drop_first() =~= a.drop_first() + b);
        lemma_params_customs_concat(a.drop_first(), b);
        assert(customs_of(a[0].shape) + (params_customs(a.drop_first()) + params_customs(b)) =~= (
        customs_of(a[0].shape) + params_customs(a.drop_first())) + params_customs(b));
    }
}

/// The custom-leaf definitions one contract contributes: its parameters in
/// order, then its return type.
pub open spec fn contract_customs(c: ContractModel) -> Seq<(Seq<char>, Seq<char>)> {
    params_customs(c.params) + customs_of(c.ret)
}

/// The custom-leaf definitions of a whole contract sequence, in traversal
/// order.
pub open spec fn all_customs(cs: Seq<ContractModel>) -> Seq<(Seq<char>, Seq<char>)>
    decreases cs.len(),
{
    if cs.len() == 0 {
        Seq::empty()
    } else {
        contract_customs(cs[0]) + all_customs(cs.drop_first())
    }
}

/// Contract customs distribute over concatenation.
pub proof fn lemma_all_customs_concat(a: Seq<ContractModel>, b: Seq<ContractModel>)
    ensures
        all_customs(a + b) == all_customs(a) + all_customs(b),
    decreases a.len(),
{
    if a.len() == 0 {
        assert(a + b =~= b);
        assert(all_customs(a) + all_customs(b) =~= all_customs(b));
    } else {
        assert((a + b)[0] == a[0]);
        assert((a + b).drop_first() =~= a.drop_first() + b);
        lemma_all_customs_concat(a.drop_first(), b);
        assert(contract_customs(a[0]) + (all_customs(a.drop_first()) + all_customs(b)) =~= (
        contract_customs(a[0]) + all_customs(a.drop_first())) + all_customs(b));
    }
}

/// The registry contents after resolving a whole contract sequence: every
/// custom leaf in traversal order, first encounter kept, duplicates absorbed.
pub open spec fn registry_contents(cs: Seq<ContractModel>) -> Seq<(Seq<char>, Seq<char>)> {
    absorb(Seq::empty(), all_customs(cs))
}

/// The text of one emitted type definition.
pub open spec fn def_text(e: (Seq<char>, Seq<char>)) -> Seq<char> {
    "export type "@ + e.0 + " = "@ + e.1 + ";\n"@
}

/// The concatenated definition texts, in registry order.
pub open spec fn defs_text(entries: Seq<(Seq<char>, Seq<char>)>) -> Seq<char>
    decreases entries.len(),
{
    if entries.len() == 0 {
        Seq::empty()
    } else {
        def_text(entries[0]) + defs_text(entries.drop_first())
    }
}

/// Definition text distributes over concatenation.
pub proof fn lemma_defs_text_concat(
    a: Seq<(Seq<char>, Seq<char>)>,
    b: Seq<(Seq<char>, Seq<char>)>,
)
    ensures
        defs_text(a + b) == defs_text(a) + defs_text(b),
    decreases a.len(),
{
    if a.len() == 0 {
        assert(a + b =~= b);
        assert(defs_text(a) + defs_text(b) =~= defs_text(b));
    } else {
        assert((a + b)[0] == a[0]);
        assert((a + b).drop_first() =~= a.drop_first() + b);
        lemma_defs_text_concat(a.drop_first(), b);
        assert(def_text(a[0]) + (defs_text(a.drop_first()) + defs_text(b)) =~= (def_text(a[0])
            + defs_text(a.drop_first())) + defs_text(b));
    }
}

/// The fixed header marking the document as generated.
pub open spec fn preamble_text() -> Seq<char> {
    "// Auto-generated client bindings for the command API; do not edit by hand.\n"@
}

/// The fixed class opening with the transport-taking constructor.
pub open spec fn class_open_text() -> Seq<char> {
    "export class RawApi {\n\t/**\n\t * @param json_transport function that executes a jsonrpc call and throws an error if one occured\n\t */\n\tconstructor (private json_transport: (method: string, params?: any) => Promise<any>) {}\n"@
}

/// The whole client document for a contract sequence: header, custom-type
/// definitions in first-encounter order, class opening, stubs in contract
/// order, closing.
pub open spec fn document_text(cs: Seq<ContractModel>) -> Seq<char> {
    preamble_text() + defs_text(registry_contents(cs)) + class_open_text() + stubs_text(cs) + "}"@
}

/// Law (idempotent registration, order stability): in the document emitted
/// for a contract sequence, the custom-type definitions carry pairwise
/// distinct signatures — registering the same canonical signature twice
/// yields exactly one definition — and each definition is the first
/// occurrence of its signature in the traversal of all contracts in
/// declaration order, the definitions standing in strictly increasing order
/// of those first occurrences.
pub proof fn lemma_document_definitions(cs: Seq<ContractModel>)
    ensures
        sigs_unique(registry_contents(cs)),
        forall|i: int|
            #![trigger registry_contents(cs)[i]]
            0 <= i < registry_contents(cs).len() ==> {
                &&& has_sig(all_customs(cs), registry_contents(cs)[i].0)
                &&& registry_contents(cs)[i] == all_customs(cs)[first_idx(
                    all_customs(cs),
                    registry_contents(cs)[i].0,
                )]
                &&& forall|j: int|
                    0 <= j < i ==> first_idx(all_customs(cs), registry_contents(cs)[j].0)
                        < first_idx(all_customs(cs), registry_contents(cs)[i].0)
            },
{
    let empty = Seq::<(Seq<char>, Seq<char>)>::empty();
    assert(sigs_unique(empty));
    lemma_absorb_unique(empty, all_customs(cs));
    lemma_absorb_first_encounter(empty, all_customs(cs));
}

/// Emits the parameter-list text of one contract, registering every custom
/// leaf encountered.
#[verifier::loop_isolation(false)]
fn emit_param_list(params: &Vec<ParamSpec>, reg: &mut CustomTypeRegistry) -> (r: String)
    ensures
        r@ == params_list_text(params@),
        final(reg)@ == absorb(old(reg)@, params_customs(params@)),
        old(reg).wf() ==> final(reg).wf(),
{
    let n = params.len();
    let mut s = String::new();
    let mut i: usize = 0;
    while i < n
        invariant
            0 <= i <= n,
            s@ == params_list_text(params@.take(i as int)),
            reg@ == absorb(old(reg)@, params_customs(params@.take(i as int))),
            old(reg).wf() ==> reg.wf(),
        decreases n - i,
    {
        proof {
            assert(params@.take(i as int + 1) =~= params@.take(i as int) + seq![params@[i as int]]);
            lemma_params_list_push(params@.take(i as int), params@[i as int]);
            lemma_params_customs_concat(params@.take(i as int), seq![params@[i as int]]);
            assert(seq![params@[i as int]].drop_first() =~= Seq::<ParamSpec>::empty());
            assert(params_customs(Seq::<ParamSpec>::empty()) =~= Seq::<
                (Seq<char>, Seq<char>),
            >::empty());
            assert(seq![params@[i as int]][0] == params@[i as int]);
            assert(params_customs(seq![params@[i as int]]) =~= customs_of(params@[i as int].shape));
            lemma_absorb_concat(
                old(reg)@,
                params_customs(params@.take(i as int)),
                customs_of(params@[i as int].shape),
            );
        }
        if i > 0 {
            s.append(", ");
        }
        s.append(params[i].name.as_str());
        s.append(": ");
        let shape_text = resolve_custom(&params[i].shape, reg);
        s.append(shape_text.as_str());
        proof {
            if i == 0 {
                assert(s@ =~= param_entry_text(params@[0]));
            } else {
                assert(s@ =~= params_list_text(params@.take(i as int)) + ", "@ + param_entry_text(
                    params@[i as int],
                ));
            }
        }
        i = i + 1;
    }
    proof {
        assert(params@.take(n as int) =~= params@);
    }
    s
}

/// Emits the argument-name text of one contract.
#[verifier::loop_isolation(false)]
fn emit_arg_names(params: &Vec<ParamSpec>) -> (r: String)
    ensures
        r@ == arg_names_text(params@),
{
    let n = params.len();
    let mut s = String::new();
    let mut i: usize = 0;
    while i < n
        invariant
            0 <= i <= n,
            s@ == arg_names_text(params@.take(i as int)),
        decreases n - i,
    {
        proof {
            assert(params@.take(i as int + 1) =~= params@.take(i as int) + seq![params@[i as int]]);
            lemma_arg_names_push(params@.take(i as int), params@[i as int]);
        }
        if i > 0 {
            s.append(", ");
        }
        s.append(params[i].name.as_str());
        i = i + 1;
    }
    proof {
        assert(params@.take(n as int) =~= params@);
    }
    s
}

/// Emits one method stub, registering every custom leaf that the contract's
/// parameter and return types reference.
fn emit_stub(c: &MethodContract, reg: &mut CustomTypeRegistry) -> (r: String)
    ensures
        r@ == stub_text(contract_model(*c)),
        final(reg)@ == absorb(old(reg)@, contract_customs(contract_model(*c))),
        old(reg).wf() ==> final(reg).wf(),
{
    let mut s = String::from_str("\tpublic async ");
    s.append(c.name.as_str());
    s.append("(");
    let param_list = emit_param_list(&c.params, reg);
    s.append(param_list.as_str());
    s.append("):Promise<");
    let ret_text = resolve_custom(&c.ret, reg);
    s.append(ret_text.as_str());
    s.append(">{\n\t\treturn await this.json_transport(\"");
    s.append(c.name.as_str());
    s.append("\", ");
    if c.params.len() == 0 {
        s.append("undefined");
    } else {
        s.append("{");
        let names = emit_arg_names(&c.params);
        s.append(names.as_str());
        s.append("}");
    }
    s.append(");\n\t}\n");
    proof {
        lemma_absorb_concat(old(reg)@, params_customs(c.params@), customs_of(c.ret));
        assert(s@ =~= stub_text(contract_model(*c)));
    }
    s
}

/// Emits the whole client document for the given contracts: the fixed
/// header, every registered custom-type definition in first-encounter order,
/// the fixed class opening, one stub per contract in declaration order, and
/// the closing. The registry is created empty for this run, populated during
/// resolution, and consumed at emission.
#[verifier::loop_isolation(false)]
pub fn emit_document(contracts: &Vec<MethodContract>) -> (r: String)
    ensures
        r@ == document_text(contracts@.map_values(|c: MethodContract| contract_model(c))),
{
    let ghost models = contracts@.map_values(|c: MethodContract| contract_model(c));
    let mut reg = CustomTypeRegistry::new();
    let n = contracts.len();
    let mut stubs = String::new();
    let mut i: usize = 0;
    while i < n
        invariant
            0 <= i <= n,
            stubs@ == stubs_text(models.take(i as int)),
            reg@ == absorb(Seq::empty(), all_customs(models.take(i as int))),
            reg.wf(),
        decreases n - i,
    {
        proof {
            assert(models[i as int] == contract_model(contracts@[i as int]));
            assert(models.take(i as int + 1) =~= models.take(i as int) + seq![models[i as int]]);
            lemma_stubs_text_concat(models.take(i as int), seq![models[i as int]]);
            assert(seq![models[i as int]].drop_first() =~= Seq::<ContractModel>::empty());
            assert(stubs_text(Seq::<ContractModel>::empty()) =~= Seq::<char>::empty());
            assert(all_customs(Seq::<ContractModel>::empty()) =~= Seq::<
                (Seq<char>, Seq<char>),
            >::empty());
            assert(seq![models[i as int]][0] == models[i as int]);
            assert(stubs_text(seq![models[i as int]]) =~= stub_text(models[i as int]));
            lemma_all_customs_concat(models.take(i as int), seq![models[i as int]]);
            assert(all_customs(seq![models[i as int]]) =~= contract_customs(models[i as int]));
            lemma_absorb_concat(
                Seq::empty(),
                all_customs(models.take(i as int)),
                contract_customs(models[i as int]),
            );
        }
        let stub = emit_stub(&contracts[i], &mut reg);
        stubs.append(stub.as_str());
        i = i + 1;
    }
    proof {
        assert(models.take(n as int) =~= models);
    }
    let entries = reg.drain_in_order();
    let ghost entry_models = entries@.map_values(|e: Entry| e@);
    let en = entries.len();
    let mut defs = String::new();
    let mut k: usize = 0;
    while k < en
        invariant
            0 <= k <= en,
            defs@ == defs_text(entry_models.take(k as int)),
        decreases en - k,
    {
        proof {
            assert(entry_models[k as int] == entries@[k as int]@);
            assert(entry_models.take(k as int + 1) =~= entry_models.take(k as int) + seq![
                entry_models[k as int],
            ]);
            lemma_defs_text_concat(entry_models.take(k as int), seq![entry_models[k as int]]);
            assert(seq![entry_models[k as int]].drop_first() =~= Seq::<
                (Seq<char>, Seq<char>),
            >::empty());
            assert(defs_text(Seq::<(Seq<char>, Seq<char>)>::empty()) =~= Seq::<char>::empty());
            assert(seq![entry_models[k as int]][0] == entry_models[k as int]);
            assert(defs_text(seq![entry_models[k as int]]) =~= def_text(entry_models[k as int]));
        }
        defs.append("export type ");
        defs.append(entries[k].signature.as_str());
        defs.append(" = ");
        defs.append(entries[k].definition.as_str());
        defs.append(";\n");
        k = k + 1;
    }
    proof {
        assert(entry_models.take(en as int) =~= entry_models);
    }
    let mut doc = String::from_str(
        "// Auto-generated client bindings for the command API; do not edit by hand.\n",
    );
    doc.append(defs.as_str());
    doc.append(
        "export class RawApi {\n\t/**\n\t * @param json_transport function that executes a jsonrpc call and throws an error if one occured\n\t */\n\tconstructor (private json_transport: (method: string, params?: any) => Promise<any>) {}\n",
    );
    doc.append(stubs.as_str());
    doc.append("}");
    proof {
        assert(doc@ =~= document_text(models));
    }
    doc
}

} // verus!
