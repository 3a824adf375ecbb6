//! Tests for request dispatch: payload decoding, argument routing, and
//! response encoding.

use rpc_surface::contract::{RawMethod, RawParam};
use rpc_surface::descriptor::TypeDescriptor;
use rpc_surface::dispatch::{
    decode_call, encode_outcome, fault_response, CallFault, HandlerSpec, Outcome, Payload,
    Response, SERVER_ERROR_CODE,
};
use rpc_surface::host::HostValue;
use rpc_surface::surface::{compile_surface, GeneratedSurface};
use rpc_surface::wire::Value;

fn num_t() -> TypeDescriptor {
    TypeDescriptor::primitive("number")
}

fn str_t() -> TypeDescriptor {
    TypeDescriptor::primitive("string")
}

fn optional(t: TypeDescriptor) -> TypeDescriptor {
    TypeDescriptor::Optional(Box::new(t))
}

fn fallible(t: TypeDescriptor) -> TypeDescriptor {
    TypeDescriptor::Fallible(Box::new(t))
}

fn typed(name: &str, t: TypeDescriptor) -> RawParam {
    RawParam::Typed(name.to_string(), t)
}

fn method(name: &str, params: Vec<RawParam>, ret: TypeDescriptor) -> RawMethod {
    let mut inputs: Vec<RawParam> = vec![RawParam::Receiver];
    for p in params {
        inputs.push(p);
    }
    RawMethod { name: name.to_string(), is_async: true, inputs, ret }
}

fn compile(methods: Vec<RawMethod>) -> GeneratedSurface {
    match compile_surface(methods) {
        Ok(s) => s,
        Err(e) => panic!("compilation failed: {:?}", e),
    }
}

fn handler<'a>(surface: &'a GeneratedSurface, name: &str) -> &'a HandlerSpec {
    match surface.table.find_handler(&name.to_string()) {
        Some(h) => h,
        None => panic!("no handler registered under that name"),
    }
}

fn value_eq(a: &Value, b: &Value) -> bool {
    match (a, b) {
        (Value::Null, Value::Null) => true,
        (Value::Flag(x), Value::Flag(y)) => x == y,
        (Value::Num(x), Value::Num(y)) => x == y,
        (Value::Text(x), Value::Text(y)) => x == y,
        (Value::Arr(x), Value::Arr(y)) => {
            x.len() == y.len() && x.iter().zip(y.iter()).all(|(u, v)| value_eq(u, v))
        }
        (Value::Obj(x), Value::Obj(y)) => {
            x.len() == y.len()
                && x.iter().zip(y.iter()).all(|(u, v)| u.0 == v.0 && value_eq(&u.1, &v.1))
        }
        _ => false,
    }
}

fn host_eq(a: &HostValue, b: &HostValue) -> bool {
    match (a, b) {
        (HostValue::Unit, HostValue::Unit) => true,
        (HostValue::Number(x), HostValue::Number(y)) => x == y,
        (HostValue::Text(x), HostValue::Text(y)) => x == y,
        (HostValue::Flag(x), HostValue::Flag(y)) => x == y,
        (HostValue::Sequence(x), HostValue::Sequence(y)) => {
            x.len() == y.len() && x.iter().zip(y.iter()).all(|(u, v)| host_eq(u, v))
        }
        (HostValue::OptionalOf(x), HostValue::OptionalOf(y)) => match (x, y) {
            (None, None) => true,
            (Some(u), Some(v)) => host_eq(u, v),
            _ => false,
        },
        (HostValue::Mapping(x), HostValue::Mapping(y)) => {
            x.len() == y.len()
                && x.iter().zip(y.iter()).all(|(u, v)| u.0 == v.0 && host_eq(&u.1, &v.1))
        }
        (HostValue::Opaque(x), HostValue::Opaque(y)) => value_eq(x, y),
        _ => false,
    }
}

fn expect_success(r: Response) -> Value {
    match r {
        Response::Success(v) => v,
        Response::Failure { code, message } => {
            panic!("unexpected failure: code {} message {}", code, message)
        }
    }
}

#[test]
fn zero_param_handler_accepts_absent_payload() {
    let surface = compile(vec![method("add_account", vec![], fallible(num_t()))]);
    let h = handler(&surface, "add_account");
    let args = decode_call(h, &Payload::Absent).expect("absent payload accepted");
    assert_eq!(args.len(), 0);
    let response = encode_outcome(h.fallible, Outcome::Succeeded(HostValue::Number(1)));
    assert!(value_eq(&expect_success(response), &Value::Num(1)));
}

#[test]
fn zero_param_handler_accepts_empty_payloads() {
    let surface = compile(vec![method("stop_ongoing_process", vec![], fallible(TypeDescriptor::void()))]);
    let h = handler(&surface, "stop_ongoing_process");
    assert!(decode_call(h, &Payload::Positional(vec![])).is_ok());
    assert!(decode_call(h, &Payload::Keyed(vec![])).is_ok());
}

#[test]
fn keyed_payload_routes_fields_by_name_in_any_order() {
    let surface = compile(vec![method(
        "set_config",
        vec![
            typed("account_id", num_t()),
            typed("key", str_t()),
            typed("value", optional(str_t())),
        ],
        fallible(TypeDescriptor::void()),
    )]);
    let h = handler(&surface, "set_config");
    let payload = Payload::Keyed(vec![
        ("value".to_string(), Value::Text("hello".to_string())),
        ("account_id".to_string(), Value::Num(3)),
        ("key".to_string(), Value::Text("displayname".to_string())),
    ]);
    let args = decode_call(h, &payload).expect("keyed payload accepted");
    assert_eq!(args.len(), 3);
    assert!(host_eq(&args[0], &HostValue::Number(3)));
    assert!(host_eq(&args[1], &HostValue::Text("displayname".to_string())));
    assert!(host_eq(
        &args[2],
        &HostValue::OptionalOf(Some(Box::new(HostValue::Text("hello".to_string()))))
    ));
}

#[test]
fn positional_payload_follows_declared_order() {
    let surface = compile(vec![method(
        "misc_send_text_message",
        vec![
            typed("account_id", num_t()),
            typed("text", str_t()),
            typed("chat_id", num_t()),
        ],
        fallible(num_t()),
    )]);
    let h = handler(&surface, "misc_send_text_message");
    let payload = Payload::Positional(vec![
        Value::Num(1),
        Value::Text("hi".to_string()),
        Value::Num(12),
    ]);
    let args = decode_call(h, &payload).expect("positional payload accepted");
    assert!(host_eq(&args[0], &HostValue::Number(1)));
    assert!(host_eq(&args[1], &HostValue::Text("hi".to_string())));
    assert!(host_eq(&args[2], &HostValue::Number(12)));
}

#[test]
fn add_account_success_encodes_the_number() {
    let surface = compile(vec![method("addAccount", vec![], fallible(num_t()))]);
    let h = handler(&surface, "addAccount");
    let args = decode_call(h, &Payload::Absent).expect("absent payload accepted");
    assert!(args.is_empty());
    let response = encode_outcome(h.fallible, Outcome::Succeeded(HostValue::Number(7)));
    assert!(value_eq(&expect_success(response), &Value::Num(7)));
}

#[test]
fn add_account_failure_encodes_the_error_envelope() {
    let surface = compile(vec![method("addAccount", vec![], fallible(num_t()))]);
    let h = handler(&surface, "addAccount");
    let response = encode_outcome(
        h.fallible,
        Outcome::Failed("could not create account directory".to_string()),
    );
    match response {
        Response::Failure { code, message } => {
            assert_eq!(code, SERVER_ERROR_CODE);
            assert_eq!(message, "could not create account directory");
        }
        Response::Success(_) => panic!("expected the error envelope"),
    }
}

#[test]
fn get_config_absent_value_encodes_null() {
    let surface = compile(vec![method(
        "getConfig",
        vec![typed("key", str_t())],
        fallible(optional(str_t())),
    )]);
    let h = handler(&surface, "getConfig");
    let payload = Payload::Keyed(vec![("key".to_string(), Value::Text("addr".to_string()))]);
    let args = decode_call(h, &payload).expect("keyed payload accepted");
    assert!(host_eq(&args[0], &HostValue::Text("addr".to_string())));
    let response = encode_outcome(h.fallible, Outcome::Succeeded(HostValue::OptionalOf(None)));
    assert!(value_eq(&expect_success(response), &Value::Null));
}

#[test]
fn missing_payload_is_a_fault() {
    let surface = compile(vec![method(
        "remove_account",
        vec![typed("account_id", num_t())],
        fallible(TypeDescriptor::void()),
    )]);
    let h = handler(&surface, "remove_account");
    assert_eq!(decode_call(h, &Payload::Absent).err(), Some(CallFault::MissingPayload));
}

#[test]
fn arity_mismatch_is_a_fault() {
    let surface = compile(vec![method(
        "remove_account",
        vec![typed("account_id", num_t())],
        fallible(TypeDescriptor::void()),
    )]);
    let h = handler(&surface, "remove_account");
    let payload = Payload::Positional(vec![Value::Num(1), Value::Num(2)]);
    assert_eq!(decode_call(h, &payload).err(), Some(CallFault::ArityMismatch));
}

#[test]
fn missing_field_is_a_fault() {
    let surface = compile(vec![method(
        "remove_account",
        vec![typed("account_id", num_t())],
        fallible(TypeDescriptor::void()),
    )]);
    let h = handler(&surface, "remove_account");
    let payload = Payload::Keyed(vec![("account".to_string(), Value::Num(1))]);
    assert_eq!(decode_call(h, &payload).err(), Some(CallFault::MissingField));
}

#[test]
fn shape_mismatch_is_a_fault() {
    let surface = compile(vec![method(
        "remove_account",
        vec![typed("account_id", num_t())],
        fallible(TypeDescriptor::void()),
    )]);
    let h = handler(&surface, "remove_account");
    let payload = Payload::Keyed(vec![("account_id".to_string(), Value::Text("one".to_string()))]);
    assert_eq!(decode_call(h, &payload).err(), Some(CallFault::ShapeMismatch));
}

#[test]
fn fault_becomes_the_same_envelope_shape_as_a_business_failure() {
    let response = fault_response(CallFault::ShapeMismatch);
    match response {
        Response::Failure { code, message } => {
            assert_eq!(code, SERVER_ERROR_CODE);
            assert_eq!(message, "a payload value does not match its declared parameter type");
        }
        Response::Success(_) => panic!("expected the error envelope"),
    }
}

#[test]
fn duplicate_field_leaves_a_parameter_missing() {
    let surface = compile(vec![method(
        "set_config",
        vec![typed("key", str_t()), typed("value", optional(str_t()))],
        fallible(TypeDescriptor::void()),
    )]);
    let h = handler(&surface, "set_config");
    let payload = Payload::Keyed(vec![
        ("key".to_string(), Value::Text("addr".to_string())),
        ("key".to_string(), Value::Text("addr2".to_string())),
    ]);
    assert_eq!(decode_call(h, &payload).err(), Some(CallFault::MissingField));
}
