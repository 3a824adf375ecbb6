//! Tests for the compiler side of the surface: contract extraction, type
//! resolution, the custom-type registry, and client-document emission.

use rpc_surface::contract::{extract_contracts, MethodContract, RawMethod, RawParam, SurfaceError};
use rpc_surface::descriptor::{signature, TypeDescriptor};
use rpc_surface::emit::emit_document;
use rpc_surface::registry::CustomTypeRegistry;
use rpc_surface::resolve::{resolve_custom, resolve_plain};
use rpc_surface::surface::compile_surface;
use rpc_surface::types::contact::ContactObject;
use rpc_surface::types::message::MessageObject;
use rpc_surface::types::provider_info::ProviderInfo;

fn num_t() -> TypeDescriptor {
    TypeDescriptor::primitive("number")
}

fn str_t() -> TypeDescriptor {
    TypeDescriptor::primitive("string")
}

fn list(t: TypeDescriptor) -> TypeDescriptor {
    TypeDescriptor::List(Box::new(t))
}

fn optional(t: TypeDescriptor) -> TypeDescriptor {
    TypeDescriptor::Optional(Box::new(t))
}

fn dict(k: TypeDescriptor, v: TypeDescriptor) -> TypeDescriptor {
    TypeDescriptor::Dictionary(Box::new(k), Box::new(v))
}

fn fallible(t: TypeDescriptor) -> TypeDescriptor {
    TypeDescriptor::Fallible(Box::new(t))
}

fn typed(name: &str, t: TypeDescriptor) -> RawParam {
    RawParam::Typed(name.to_string(), t)
}

fn method(name: &str, params: Vec<RawParam>, ret: TypeDescriptor) -> RawMethod {
    let mut inputs: Vec<RawParam> = vec![RawParam::Receiver];
    for p in params {
        inputs.push(p);
    }
    RawMethod { name: name.to_string(), is_async: true, inputs, ret }
}

fn extract_ok(raws: Vec<RawMethod>) -> Vec<MethodContract> {
    match extract_contracts(raws) {
        Ok(cs) => cs,
        Err(e) => panic!("extraction failed: {:?}", e),
    }
}

#[test]
fn signature_composes_structurally() {
    assert_eq!(signature(&num_t()), "number");
    assert_eq!(signature(&list(num_t())), "List(number)");
    assert_eq!(signature(&optional(str_t())), "Optional(string)");
    assert_eq!(signature(&dict(str_t(), list(num_t()))), "Dictionary(string,List(number))");
    assert_eq!(signature(&fallible(num_t())), "Fallible(number)");
}

#[test]
fn plain_resolution_inlines_everything() {
    assert_eq!(resolve_plain(&num_t()), "number");
    assert_eq!(resolve_plain(&list(num_t())), "number[]");
    assert_eq!(resolve_plain(&optional(str_t())), "string|null");
    assert_eq!(
        resolve_plain(&dict(str_t(), list(optional(num_t())))),
        "{ [key: string]: number|null[] }"
    );
    assert_eq!(resolve_plain(&ContactObject::type_descriptor()), ContactObject::get_typescript_type());
}

#[test]
fn custom_resolution_references_by_name_and_registers() {
    let mut reg = CustomTypeRegistry::new();
    let text = resolve_custom(&optional(ContactObject::type_descriptor()), &mut reg);
    assert_eq!(text, "Contact|null");
    assert_eq!(reg.len(), 1);
    let entries = reg.drain_in_order();
    assert_eq!(entries[0].signature, "Contact");
    assert_eq!(entries[0].definition, ContactObject::get_typescript_type());
}

#[test]
fn fallible_resolves_to_success_payload() {
    let mut reg = CustomTypeRegistry::new();
    let text = resolve_custom(&fallible(optional(str_t())), &mut reg);
    assert_eq!(text, "string|null");
    assert_eq!(reg.len(), 0);
}

#[test]
fn registering_same_signature_twice_keeps_one_entry() {
    let mut reg = CustomTypeRegistry::new();
    reg.register("Contact".to_string(), "{ id: number }".to_string());
    reg.register("Contact".to_string(), "{ id: number, name: string }".to_string());
    assert_eq!(reg.len(), 1);
    let entries = reg.drain_in_order();
    assert_eq!(entries[0].signature, "Contact");
    assert_eq!(entries[0].definition, "{ id: number }");
}

#[test]
fn extraction_collects_params_in_order_and_skips_receiver() {
    let contracts = extract_ok(vec![method(
        "get_config",
        vec![typed("account_id", num_t()), typed("key", str_t())],
        fallible(optional(str_t())),
    )]);
    assert_eq!(contracts.len(), 1);
    assert_eq!(contracts[0].name, "get_config");
    assert_eq!(contracts[0].params.len(), 2);
    assert_eq!(contracts[0].params[0].name, "account_id");
    assert_eq!(contracts[0].params[1].name, "key");
}

#[test]
fn sync_method_aborts_the_build() {
    let mut bad = method("select_account", vec![typed("id", num_t())], num_t());
    bad.is_async = false;
    let r = extract_contracts(vec![
        method("add_account", vec![], fallible(num_t())),
        bad,
    ]);
    assert_eq!(
        r.err(),
        Some(SurfaceError::NonAsyncMethod { method: "select_account".to_string() })
    );
}

#[test]
fn nested_fallible_aborts_the_build() {
    let r = extract_contracts(vec![method(
        "get_all_accounts",
        vec![],
        list(fallible(num_t())),
    )]);
    assert_eq!(
        r.err(),
        Some(SurfaceError::MisplacedFallible { method: "get_all_accounts".to_string() })
    );
}

#[test]
fn fallible_parameter_aborts_the_build() {
    let r = extract_contracts(vec![method(
        "set_config",
        vec![typed("value", fallible(str_t()))],
        num_t(),
    )]);
    assert_eq!(
        r.err(),
        Some(SurfaceError::MisplacedFallible { method: "set_config".to_string() })
    );
}

#[test]
fn duplicate_parameter_name_aborts_the_build() {
    let r = extract_contracts(vec![method(
        "batch_set_config",
        vec![typed("key", str_t()), typed("key", str_t())],
        num_t(),
    )]);
    assert_eq!(
        r.err(),
        Some(SurfaceError::DuplicateParameter { method: "batch_set_config".to_string() })
    );
}

#[test]
fn document_for_one_plain_method_is_exact() {
    let contracts = extract_ok(vec![method("ping", vec![], TypeDescriptor::void())]);
    let doc = emit_document(&contracts);
    let expected = format!(
        "{}{}{}{}",
        "// Auto-generated client bindings for the command API; do not edit by hand.\n",
        "export class RawApi {\n\t/**\n\t * @param json_transport function that executes a jsonrpc call and throws an error if one occured\n\t */\n\tconstructor (private json_transport: (method: string, params?: any) => Promise<any>) {}\n",
        "\tpublic async ping():Promise<void>{\n\t\treturn await this.json_transport(\"ping\", undefined);\n\t}\n",
        "}",
    );
    assert_eq!(doc, expected);
}

#[test]
fn stub_for_parameters_lists_names_and_payload() {
    let contracts = extract_ok(vec![method(
        "check_email_validity",
        vec![typed("email", str_t())],
        TypeDescriptor::primitive("boolean"),
    )]);
    let doc = emit_document(&contracts);
    assert!(doc.contains(
        "\tpublic async check_email_validity(email: string):Promise<boolean>{\n\t\treturn await this.json_transport(\"check_email_validity\", {email});\n\t}\n"
    ));
}

#[test]
fn shared_custom_type_is_defined_once_and_referenced_in_both_stubs() {
    let contracts = extract_ok(vec![
        method(
            "contacts_get_contact",
            vec![typed("contact_id", num_t())],
            fallible(ContactObject::type_descriptor()),
        ),
        method(
            "contacts_get_blocked",
            vec![],
            fallible(list(ContactObject::type_descriptor())),
        ),
    ]);
    let doc = emit_document(&contracts);
    assert_eq!(doc.matches("export type Contact = ").count(), 1);
    assert!(doc.contains(":Promise<Contact>"));
    assert!(doc.contains(":Promise<Contact[]>"));
}

#[test]
fn definitions_stand_in_first_encounter_order() {
    let contracts = extract_ok(vec![
        method(
            "contacts_get_contact",
            vec![typed("contact_id", num_t())],
            fallible(ContactObject::type_descriptor()),
        ),
        method(
            "get_provider_info",
            vec![typed("info", ProviderInfo::type_descriptor())],
            fallible(ContactObject::type_descriptor()),
        ),
        method(
            "message_get_message",
            vec![typed("message_id", num_t())],
            fallible(MessageObject::type_descriptor()),
        ),
    ]);
    let doc = emit_document(&contracts);
    let contact_at = doc.find("export type Contact = ").expect("contact definition");
    let provider_at = doc.find("export type ProviderInfo_Type = ").expect("provider definition");
    let message_at = doc.find("export type Message_Type = ").expect("message definition");
    assert!(contact_at < provider_at);
    assert!(provider_at < message_at);
    assert_eq!(doc.matches("export type ").count(), 3);
}

#[test]
fn compiling_twice_yields_identical_documents() {
    let build = || {
        compile_surface(vec![
            method("add_account", vec![], fallible(num_t())),
            method(
                "contacts_get_contact",
                vec![typed("contact_id", num_t())],
                fallible(ContactObject::type_descriptor()),
            ),
        ])
    };
    let first = match build() {
        Ok(s) => s.document,
        Err(e) => panic!("compilation failed: {:?}", e),
    };
    let second = match build() {
        Ok(s) => s.document,
        Err(e) => panic!("compilation failed: {:?}", e),
    };
    assert_eq!(first, second);
}

#[test]
fn compiled_table_registers_one_handler_per_contract() {
    let surface = match compile_surface(vec![
        method("add_account", vec![], fallible(num_t())),
        method("get_all_account_ids", vec![], list(num_t())),
        method(
            "get_config",
            vec![typed("account_id", num_t()), typed("key", str_t())],
            fallible(optional(str_t())),
        ),
    ]) {
        Ok(s) => s,
        Err(e) => panic!("compilation failed: {:?}", e),
    };
    assert_eq!(surface.table.handlers.len(), 3);
    assert_eq!(surface.table.handlers[0].method, "add_account");
    assert!(surface.table.handlers[0].fallible);
    assert_eq!(surface.table.handlers[0].params.len(), 0);
    assert_eq!(surface.table.handlers[1].method, "get_all_account_ids");
    assert!(!surface.table.handlers[1].fallible);
    assert_eq!(surface.table.handlers[2].params.len(), 2);
    assert!(surface.table.find_handler(&"get_config".to_string()).is_some());
    assert!(surface.table.find_handler(&"unknown_method".to_string()).is_none());
}

#[test]
fn empty_operation_set_compiles_to_the_bare_document() {
    let surface = match compile_surface(vec![]) {
        Ok(s) => s,
        Err(e) => panic!("compilation failed: {:?}", e),
    };
    assert_eq!(surface.table.handlers.len(), 0);
    let expected = format!(
        "{}{}{}",
        "// Auto-generated client bindings for the command API; do not edit by hand.\n",
        "export class RawApi {\n\t/**\n\t * @param json_transport function that executes a jsonrpc call and throws an error if one occured\n\t */\n\tconstructor (private json_transport: (method: string, params?: any) => Promise<any>) {}\n",
        "}",
    );
    assert_eq!(surface.document, expected);
}
