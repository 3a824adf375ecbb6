//! Tests for the value codec and the wire encodings of the application leaf
//! types.

use rpc_surface::codec::decode_value;
use rpc_surface::descriptor::TypeDescriptor;
use rpc_surface::host::HostValue;
use rpc_surface::types::account::Account;
use rpc_surface::types::chat::FullChat;
use rpc_surface::types::contact::ContactObject;
use rpc_surface::types::message::MessageObject;
use rpc_surface::types::provider_info::ProviderInfo;
use rpc_surface::wire::Value;

fn num_t() -> TypeDescriptor {
    TypeDescriptor::primitive("number")
}

fn str_t() -> TypeDescriptor {
    TypeDescriptor::primitive("string")
}

fn list(t: TypeDescriptor) -> TypeDescriptor {
    TypeDescriptor::List(Box::new(t))
}

fn optional(t: TypeDescriptor) -> TypeDescriptor {
    TypeDescriptor::Optional(Box::new(t))
}

fn dict(k: TypeDescriptor, v: TypeDescriptor) -> TypeDescriptor {
    TypeDescriptor::Dictionary(Box::new(k), Box::new(v))
}

fn value_eq(a: &Value, b: &Value) -> bool {
    match (a, b) {
        (Value::Null, Value::Null) => true,
        (Value::Flag(x), Value::Flag(y)) => x == y,
        (Value::Num(x), Value::Num(y)) => x == y,
        (Value::Text(x), Value::Text(y)) => x == y,
        (Value::Arr(x), Value::Arr(y)) => {
            x.len() == y.len() && x.iter().zip(y.iter()).all(|(u, v)| value_eq(u, v))
        }
        (Value::Obj(x), Value::Obj(y)) => {
            x.len() == y.len()
                && x.iter().zip(y.iter()).all(|(u, v)| u.0 == v.0 && value_eq(&u.1, &v.1))
        }
        _ => false,
    }
}

fn host_eq(a: &HostValue, b: &HostValue) -> bool {
    match (a, b) {
        (HostValue::Unit, HostValue::Unit) => true,
        (HostValue::Number(x), HostValue::Number(y)) => x == y,
        (HostValue::Text(x), HostValue::Text(y)) => x == y,
        (HostValue::Flag(x), HostValue::Flag(y)) => x == y,
        (HostValue::Sequence(x), HostValue::Sequence(y)) => {
            x.len() == y.len() && x.iter().zip(y.iter()).all(|(u, v)| host_eq(u, v))
        }
        (HostValue::OptionalOf(x), HostValue::OptionalOf(y)) => match (x, y) {
            (None, None) => true,
            (Some(u), Some(v)) => host_eq(u, v),
            _ => false,
        },
        (HostValue::Mapping(x), HostValue::Mapping(y)) => {
            x.len() == y.len()
                && x.iter().zip(y.iter()).all(|(u, v)| u.0 == v.0 && host_eq(&u.1, &v.1))
        }
        (HostValue::Opaque(x), HostValue::Opaque(y)) => value_eq(x, y),
        _ => false,
    }
}

fn obj_field<'a>(v: &'a Value, name: &str) -> &'a Value {
    match v {
        Value::Obj(fields) => {
            for (k, f) in fields {
                if k == name {
                    return f;
                }
            }
            panic!("no field of that name");
        }
        _ => panic!("not an object"),
    }
}

fn sample_contact(id: u32, name: &str) -> ContactObject {
    ContactObject {
        address: format!("{}@example.org", name),
        color: "#ff0000".to_string(),
        auth_name: String::new(),
        status: String::new(),
        display_name: name.to_string(),
        id,
        name: name.to_string(),
        profile_image: None,
        name_and_addr: format!("{} ({}@example.org)", name, name),
        is_blocked: false,
        is_verified: false,
    }
}

#[test]
fn number_list_round_trips_through_its_resolved_shape() {
    let shape = list(num_t());
    let original = HostValue::Sequence(vec![
        HostValue::Number(1),
        HostValue::Number(2),
        HostValue::Number(3),
    ]);
    let encoded = original.into_json_value();
    assert!(value_eq(
        &encoded,
        &Value::Arr(vec![Value::Num(1), Value::Num(2), Value::Num(3)])
    ));
    let decoded = decode_value(&shape, &encoded).expect("array of numbers decodes");
    assert!(host_eq(&decoded, &original));
}

#[test]
fn optional_and_mapping_encode_following_the_wire_conventions() {
    assert!(value_eq(&HostValue::Unit.into_json_value(), &Value::Null));
    assert!(value_eq(&HostValue::OptionalOf(None).into_json_value(), &Value::Null));
    assert!(value_eq(
        &HostValue::OptionalOf(Some(Box::new(HostValue::Flag(true)))).into_json_value(),
        &Value::Flag(true)
    ));
    let mapping = HostValue::Mapping(vec![
        ("displayname".to_string(), HostValue::OptionalOf(None)),
        ("addr".to_string(), HostValue::Text("a@b.c".to_string())),
    ]);
    assert!(value_eq(
        &mapping.into_json_value(),
        &Value::Obj(vec![
            ("displayname".to_string(), Value::Null),
            ("addr".to_string(), Value::Text("a@b.c".to_string())),
        ])
    ));
}

#[test]
fn dictionary_values_decode_against_the_value_shape() {
    let shape = dict(str_t(), optional(str_t()));
    let wire = Value::Obj(vec![
        ("displayname".to_string(), Value::Null),
        ("addr".to_string(), Value::Text("a@b.c".to_string())),
    ]);
    let decoded = decode_value(&shape, &wire).expect("object decodes");
    assert!(host_eq(
        &decoded,
        &HostValue::Mapping(vec![
            ("displayname".to_string(), HostValue::OptionalOf(None)),
            (
                "addr".to_string(),
                HostValue::OptionalOf(Some(Box::new(HostValue::Text("a@b.c".to_string()))))
            ),
        ])
    ));
}

#[test]
fn primitive_shapes_reject_mismatched_values() {
    assert!(decode_value(&num_t(), &Value::Text("7".to_string())).is_none());
    assert!(decode_value(&str_t(), &Value::Num(7)).is_none());
    assert!(decode_value(&list(num_t()), &Value::Num(7)).is_none());
    assert!(decode_value(&list(num_t()), &Value::Arr(vec![Value::Num(1), Value::Null])).is_none());
}

#[test]
fn opaque_leaf_carries_the_value_through() {
    let shape = ContactObject::type_descriptor();
    let wire = sample_contact(12, "alice").into_json_value();
    let decoded = decode_value(&shape, &wire).expect("opaque leaf accepts the object");
    match decoded {
        HostValue::Opaque(v) => assert!(value_eq(&v, &wire)),
        _ => panic!("expected an opaque value"),
    }
}

#[test]
fn contact_encodes_every_field_in_order() {
    let mut contact = sample_contact(12, "alice");
    contact.profile_image = Some("/blobs/alice.png".to_string());
    contact.is_blocked = true;
    let v = contact.into_json_value();
    match &v {
        Value::Obj(fields) => assert_eq!(fields.len(), 11),
        _ => panic!("expected an object"),
    }
    assert!(value_eq(obj_field(&v, "address"), &Value::Text("alice@example.org".to_string())));
    assert!(value_eq(obj_field(&v, "id"), &Value::Num(12)));
    assert!(value_eq(
        obj_field(&v, "profile_image"),
        &Value::Text("/blobs/alice.png".to_string())
    ));
    assert!(value_eq(obj_field(&v, "is_blocked"), &Value::Flag(true)));
    assert!(value_eq(obj_field(&v, "is_verified"), &Value::Flag(false)));
}

#[test]
fn provider_info_encodes_exactly() {
    let info = ProviderInfo {
        before_login_hint: "use an app password".to_string(),
        overview_page: "https://providers.example.org/gmail".to_string(),
        status: 2,
    };
    let v = info.into_json_value();
    assert!(value_eq(
        &v,
        &Value::Obj(vec![
            ("before_login_hint".to_string(), Value::Text("use an app password".to_string())),
            (
                "overview_page".to_string(),
                Value::Text("https://providers.example.org/gmail".to_string())
            ),
            ("status".to_string(), Value::Num(2)),
        ])
    ));
}

#[test]
fn account_encodes_as_a_tagged_union() {
    let configured = Account::Configured {
        id: 1,
        display_name: Some("Alice".to_string()),
        addr: Some("alice@example.org".to_string()),
        profile_image: None,
        color: "#00ff00".to_string(),
    };
    let v = configured.into_json_value();
    assert!(value_eq(obj_field(&v, "type"), &Value::Text("Configured".to_string())));
    assert!(value_eq(obj_field(&v, "display_name"), &Value::Text("Alice".to_string())));
    assert!(value_eq(obj_field(&v, "profile_image"), &Value::Null));

    let unconfigured = Account::Unconfigured { id: 2 };
    let w = unconfigured.into_json_value();
    assert!(value_eq(
        &w,
        &Value::Obj(vec![
            ("type".to_string(), Value::Text("Unconfigured".to_string())),
            ("id".to_string(), Value::Num(2)),
        ])
    ));
}

#[test]
fn full_chat_embeds_contacts_and_ids() {
    let chat = FullChat {
        id: 10,
        name: "team".to_string(),
        is_protected: false,
        profile_image: None,
        archived: false,
        chat_type: 120,
        is_unpromoted: false,
        is_self_talk: false,
        contacts: vec![sample_contact(1, "alice"), sample_contact(2, "bob")],
        contact_ids: vec![1, 2],
        color: "#0000ff".to_string(),
        fresh_message_counter: 4,
        is_contact_request: false,
        is_device_chat: false,
        self_in_group: true,
        is_muted: false,
        ephemeral_timer: 0,
    };
    let v = chat.into_json_value();
    match obj_field(&v, "contacts") {
        Value::Arr(items) => {
            assert_eq!(items.len(), 2);
            assert!(value_eq(obj_field(&items[0], "id"), &Value::Num(1)));
            assert!(value_eq(obj_field(&items[1], "id"), &Value::Num(2)));
        }
        _ => panic!("expected an array of contacts"),
    }
    assert!(value_eq(
        obj_field(&v, "contact_ids"),
        &Value::Arr(vec![Value::Num(1), Value::Num(2)])
    ));
    assert!(value_eq(obj_field(&v, "fresh_message_counter"), &Value::Num(4)));
}

#[test]
fn message_encodes_plain_fields_and_embedded_sender() {
    let message = MessageObject {
        id: 100,
        chat_id: 10,
        from_id: 1,
        quoted_text: None,
        quoted_message_id: None,
        text: Some("hello world".to_string()),
        has_location: false,
        has_html: false,
        view_type: 10,
        state: 26,
        timestamp: 1640000000,
        sort_timestamp: 1640000000,
        received_timestamp: 1640000001,
        has_deviating_timestamp: false,
        subject: "greeting".to_string(),
        show_padlock: true,
        is_setupmessage: false,
        is_info: false,
        is_forwarded: false,
        duration: 0,
        dimensions_height: 0,
        dimensions_width: 0,
        videochat_type: None,
        videochat_url: None,
        override_sender_name: None,
        sender: sample_contact(1, "alice"),
        setup_code_begin: None,
        file: None,
        file_mime: None,
        file_bytes: 0,
        file_name: None,
    };
    let v = message.into_json_value();
    match &v {
        Value::Obj(fields) => assert_eq!(fields.len(), 31),
        _ => panic!("expected an object"),
    }
    assert!(value_eq(obj_field(&v, "id"), &Value::Num(100)));
    assert!(value_eq(obj_field(&v, "text"), &Value::Text("hello world".to_string())));
    assert!(value_eq(obj_field(&v, "quoted_text"), &Value::Null));
    assert!(value_eq(obj_field(&v, "timestamp"), &Value::Num(1640000000)));
    assert!(value_eq(obj_field(&v, "show_padlock"), &Value::Flag(true)));
    assert!(value_eq(
        obj_field(obj_field(&v, "sender"), "address"),
        &Value::Text("alice@example.org".to_string())
    ));
}

#[test]
fn typescript_texts_of_leaf_types_are_stable() {
    assert!(ContactObject::get_typescript_type().starts_with("{ address: string,"));
    assert_eq!(
        ProviderInfo::get_typescript_type(),
        "{ before_login_hint: string, overview_page: string, status: 1 | 2 | 3 }"
    );
    assert!(MessageObject::get_typescript_type().contains("sender: Contact,"));
    assert!(FullChat::get_typescript_type().contains("contacts: Contact[],"));
    assert!(Account::get_typescript_type().contains("type: \"Unconfigured\""));
}
