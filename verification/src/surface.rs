//! The one-shot compilation pipeline: contract extraction, dispatch-table
//! construction, and client-document emission.
//!
//! Compilation is synchronous and atomic: any malformed method declaration
//! aborts the whole run and no partial surface is produced. A successful run
//! yields an immutable `GeneratedSurface`, owned by the host for its
//! lifetime.

use vstd::prelude::*;

use crate::contract::{
    error_for, extract_contracts, raw_wf, typed_inputs, MethodContract, RawMethod, SurfaceError,
};
use crate::dispatch::{build_dispatch_table, DispatchTable};
use crate::emit::{contract_model, document_text, emit_document, ContractModel};

verus! {

/// The two artifacts of one compilation run: the request-dispatch table and
/// the emitted client document.
pub struct GeneratedSurface {
    pub table: DispatchTable,
    pub document: String,
}

/// The contract model that a well-formed raw method gives rise to.
pub open spec fn raw_contract_model(m: RawMethod) -> ContractModel {
    ContractModel { name: m.name, params: typed_inputs(m.inputs@), ret: m.ret }
}

/// Compiles the host's declared operation set into a surface: one dispatch
/// handler per method, keyed by name and classified by fallibility, and the
/// client document with deduplicated type definitions and one stub per
/// method. Succeeds exactly when every declaration is well formed; the first
/// malformed declaration aborts the run with its error.
pub fn compile_surface(methods: Vec<RawMethod>) -> (r: Result<GeneratedSurface, SurfaceError>)
    ensures
        r is Ok <==> (forall|i: int| 0 <= i < methods@.len() ==> raw_wf(methods@[i])),
        r matches Ok(s) ==> {
            &&& s.document@ == document_text(
                methods@.map_values(|m: RawMethod| raw_contract_model(m)),
            )
            &&& s.table.handlers@.len() == methods@.len()
            &&& forall|i: int|
                0 <= i < methods@.len() ==> {
                    &&& (#[trigger] s.table.handlers@[i]).method == methods@[i].name
                    &&& s.table.handlers@[i].params@ == typed_inputs(methods@[i].inputs@)
                    &&& s.table.handlers@[i].fallible == (methods@[i].ret is Fallible)
                }
        },
        r matches Err(e) ==> exists|i: int|
            0 <= i < methods@.len() && !raw_wf(methods@[i]) && error_for(methods@[i], e) && (
            forall|j: int| 0 <= j < i ==> raw_wf(#[trigger] methods@[j])),
{
    let ghost gmethods = methods@;
    let contracts = match extract_contracts(methods) {
        Ok(cs) => cs,
        Err(e) => {
            return Err(e);
        },
    };
    let document = emit_document(&contracts);
    proof {
        let cm = contracts@.map_values(|c: MethodContract| contract_model(c));
        let mm = gmethods.map_values(|m: RawMethod| raw_contract_model(m));
        assert forall|i: int| 0 <= i < cm.len() implies cm[i] == mm[i] by {
            assert(cm[i] == contract_model(contracts@[i]));
            assert(mm[i] == raw_contract_model(gmethods[i]));
        }
        assert(cm =~= mm);
    }
    let ghost gcontracts = contracts@;
    let table = build_dispatch_table(contracts);
    proof {
        assert forall|i: int| 0 <= i < gmethods.len() implies {
            &&& (#[trigger] table.handlers@[i]).method == gmethods[i].name
            &&& table.handlers@[i].params@ == typed_inputs(gmethods[i].inputs@)
            &&& table.handlers@[i].fallible == (gmethods[i].ret is Fallible)
        } by {
            assert(crate::dispatch::handler_matches(table.handlers@[i], gcontracts[i]));
        }
    }
    Ok(GeneratedSurface { table, document })
}

} // verus!
