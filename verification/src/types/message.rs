//! The message object of the command API surface.

use vstd::prelude::*;
use vstd::string::StringExecFns;

use crate::descriptor::TypeDescriptor;
use crate::types::contact::{contact_value, ContactObject};
use crate::wire::{lemma_obj_model, obj_model, Value, ValueModel};

verus! {

/// A message as the surface exposes it: plain values only, the sender
/// embedded as a contact object, blobs referenced by path.
pub struct MessageObject {
    pub id: u32,
    pub chat_id: u32,
    pub from_id: u32,
    pub quoted_text: Option<String>,
    pub quoted_message_id: Option<u32>,
    pub text: Option<String>,
    pub has_location: bool,
    pub has_html: bool,
    pub view_type: u32,
    pub state: u32,
    pub timestamp: i64,
    pub sort_timestamp: i64,
    pub received_timestamp: i64,
    pub has_deviating_timestamp: bool,
    pub subject: String,
    pub show_padlock: bool,
    pub is_setupmessage: bool,
    pub is_info: bool,
    pub is_forwarded: bool,
    pub duration: i32,
    pub dimensions_height: i32,
    pub dimensions_width: i32,
    pub videochat_type: Option<u32>,
    pub videochat_url: Option<String>,
    pub override_sender_name: Option<String>,
    pub sender: ContactObject,
    pub setup_code_begin: Option<String>,
    pub file: Option<String>,
    pub file_mime: Option<String>,
    pub file_bytes: u64,
    pub file_name: Option<String>,
}

/// The wire-type text of a message.
pub open spec fn message_type_text() -> Seq<char> {
    "{ id: number, chat_id: number, from_id: number, quoted_text: string|null, quoted_message_id: number|null, text: string|null, has_location: boolean, has_html: boolean, view_type: number, state: number, timestamp: number, sort_timestamp: number, received_timestamp: number, has_deviating_timestamp: boolean, subject: string, show_padlock: boolean, is_setupmessage: boolean, is_info: boolean, is_forwarded: boolean, duration: number, dimensions_height: number, dimensions_width: number, videochat_type: number|null, videochat_url: string|null, override_sender_name: string|null, sender: Contact, setup_code_begin: string|null, file: string|null, file_mime: string|null, file_bytes: number, file_name: string|null }"@
}

/// The wire value of an optional text: the text, or null.
pub open spec fn opt_text_value(o: Option<String>) -> ValueModel {
    match o {
        Some(s) => ValueModel::Text(s@),
        None => ValueModel::Null,
    }
}

/// The wire value of an optional number: the number, or null.
pub open spec fn opt_num_value(o: Option<u32>) -> ValueModel {
    match o {
        Some(n) => ValueModel::Num(n as int),
        None => ValueModel::Null,
    }
}

/// The wire value of a message: one object field per struct field, in
/// declaration order, the sender encoded as a contact object.
pub open spec fn message_value(m: MessageObject) -> ValueModel {
    ValueModel::Obj(
        seq![
            ("id"@, ValueModel::Num(m.id as int)),
            ("chat_id"@, ValueModel::Num(m.chat_id as int)),
            ("from_id"@, ValueModel::Num(m.from_id as int)),
            ("quoted_text"@, opt_text_value(m.quoted_text)),
            ("quoted_message_id"@, opt_num_value(m.quoted_message_id)),
            ("text"@, opt_text_value(m.text)),
            ("has_location"@, ValueModel::Flag(m.has_location)),
            ("has_html"@, ValueModel::Flag(m.has_html)),
            ("view_type"@, ValueModel::Num(m.view_type as int)),
            ("state"@, ValueModel::Num(m.state as int)),
            ("timestamp"@, ValueModel::Num(m.timestamp as int)),
            ("sort_timestamp"@, ValueModel::Num(m.sort_timestamp as int)),
            ("received_timestamp"@, ValueModel::Num(m.received_timestamp as int)),
            ("has_deviating_timestamp"@, ValueModel::Flag(m.has_deviating_timestamp)),
            ("subject"@, ValueModel::Text(m.subject@)),
            ("show_padlock"@, ValueModel::Flag(m.show_padlock)),
            ("is_setupmessage"@, ValueModel::Flag(m.is_setupmessage)),
            ("is_info"@, ValueModel::Flag(m.is_info)),
            ("is_forwarded"@, ValueModel::Flag(m.is_forwarded)),
            ("duration"@, ValueModel::Num(m.duration as int)),
            ("dimensions_height"@, ValueModel::Num(m.dimensions_height as int)),
            ("dimensions_width"@, ValueModel::Num(m.dimensions_width as int)),
            ("videochat_type"@, opt_num_value(m.videochat_type)),
            ("videochat_url"@, opt_text_value(m.videochat_url)),
            ("override_sender_name"@, opt_text_value(m.override_sender_name)),
            ("sender"@, contact_value(m.sender)),
            ("setup_code_begin"@, opt_text_value(m.setup_code_begin)),
            ("file"@, opt_text_value(m.file)),
            ("file_mime"@, opt_text_value(m.file_mime)),
            ("file_bytes"@, ValueModel::Num(m.file_bytes as int)),
            ("file_name"@, opt_text_value(m.file_name)),
        ],
    )
}

/// Encodes an optional text as its wire value.
fn opt_text_to_value(o: &Option<String>) -> (r: Value)
    ensures
        r@ == opt_text_value(*o),
{
    match o {
        Some(s) => Value::Text(s.clone()),
        None => Value::Null,
    }
}

/// Encodes an optional number as its wire value.
fn opt_num_to_value(o: &Option<u32>) -> (r: Value)
    ensures
        r@ == opt_num_value(*o),
{
    match o {
        Some(n) => Value::Num(*n as i64),
        None => Value::Null,
    }
}

impl MessageObject {
    /// The wire-type text of a message.
    pub fn get_typescript_type() -> (r: String)
        ensures
            r@ == message_type_text(),
    {
        String::from_str(
            "{ id: number, chat_id: number, from_id: number, quoted_text: string|null, quoted_message_id: number|null, text: string|null, has_location: boolean, has_html: boolean, view_type: number, state: number, timestamp: number, sort_timestamp: number, received_timestamp: number, has_deviating_timestamp: boolean, subject: string, show_padlock: boolean, is_setupmessage: boolean, is_info: boolean, is_forwarded: boolean, duration: number, dimensions_height: number, dimensions_width: number, videochat_type: number|null, videochat_url: string|null, override_sender_name: string|null, sender: Contact, setup_code_begin: string|null, file: string|null, file_mime: string|null, file_bytes: number, file_name: string|null }",
        )
    }

    /// The custom leaf descriptor under which messages appear in contracts.
    pub fn type_descriptor() -> (r: TypeDescriptor)
        ensures
            r matches TypeDescriptor::Leaf(l) && l.custom && l.name@ == "Message_Type"@
                && l.definition@ == message_type_text(),
            crate::descriptor::fallible_free(r),
    {
        TypeDescriptor::custom(
            "Message_Type",
            "{ id: number, chat_id: number, from_id: number, quoted_text: string|null, quoted_message_id: number|null, text: string|null, has_location: boolean, has_html: boolean, view_type: number, state: number, timestamp: number, sort_timestamp: number, received_timestamp: number, has_deviating_timestamp: boolean, subject: string, show_padlock: boolean, is_setupmessage: boolean, is_info: boolean, is_forwarded: boolean, duration: number, dimensions_height: number, dimensions_width: number, videochat_type: number|null, videochat_url: string|null, override_sender_name: string|null, sender: Contact, setup_code_begin: string|null, file: string|null, file_mime: string|null, file_bytes: number, file_name: string|null }",
        )
    }

    /// Encodes the message into its wire value. The file size must fit the
    /// wire's signed number range.
    #[verifier::rlimit(30)]
    pub fn into_json_value(&self) -> (r: Value)
        requires
            self.file_bytes <= i64::MAX as u64,
        ensures
            r@ == message_value(*self),
    {
        let mut fields: Vec<(String, Value)> = Vec::new();
        fields.push((String::from_str("id"), Value::Num(self.id as i64)));
        fields.push((String::from_str("chat_id"), Value::Num(self.chat_id as i64)));
        fields.push((String::from_str("from_id"), Value::Num(self.from_id as i64)));
        fields.push((String::from_str("quoted_text"), opt_text_to_value(&self.quoted_text)));
        fields.push(
            (String::from_str("quoted_message_id"), opt_num_to_value(&self.quoted_message_id)),
        );
        fields.push((String::from_str("text"), opt_text_to_value(&self.text)));
        fields.push((String::from_str("has_location"), Value::Flag(self.has_location)));
        fields.push((String::from_str("has_html"), Value::Flag(self.has_html)));
        fields.push((String::from_str("view_type"), Value::Num(self.view_type as i64)));
        fields.push((String::from_str("state"), Value::Num(self.state as i64)));
        fields.push((String::from_str("timestamp"), Value::Num(self.timestamp)));
        fields.push((String::from_str("sort_timestamp"), Value::Num(self.sort_timestamp)));
        fields.push(
            (String::from_str("received_timestamp"), Value::Num(self.received_timestamp)),
        );
        fields.push(
            (
                String::from_str("has_deviating_timestamp"),
                Value::Flag(self.has_deviating_timestamp),
            ),
        );
        fields.push((String::from_str("subject"), Value::Text(self.subject.clone())));
        fields.push((String::from_str("show_padlock"), Value::Flag(self.show_padlock)));
        fields.push((String::from_str("is_setupmessage"), Value::Flag(self.is_setupmessage)));
        fields.push((String::from_str("is_info"), Value::Flag(self.is_info)));
        fields.push((String::from_str("is_forwarded"), Value::Flag(self.is_forwarded)));
        fields.push((String::from_str("duration"), Value::Num(self.duration as i64)));
        fields.push(
            (String::from_str("dimensions_height"), Value::Num(self.dimensions_height as i64)),
        );
        fields.push(
            (String::from_str("dimensions_width"), Value::Num(self.dimensions_width as i64)),
        );
        fields.push((String::from_str("videochat_type"), opt_num_to_value(&self.videochat_type)));
        fields.push((String::from_str("videochat_url"), opt_text_to_value(&self.videochat_url)));
        fields.push(
            (
                String::from_str("override_sender_name"),
                opt_text_to_value(&self.override_sender_name),
            ),
        );
        fields.push((String::from_str("sender"), self.sender.into_json_value()));
        fields.push(
            (String::from_str("setup_code_begin"), opt_text_to_value(&self.setup_code_begin)),
        );
        fields.push((String::from_str("file"), opt_text_to_value(&self.file)));
        fields.push((String::from_str("file_mime"), opt_text_to_value(&self.file_mime)));
        fields.push((String::from_str("file_bytes"), Value::Num(self.file_bytes as i64)));
        fields.push((String::from_str("file_name"), opt_text_to_value(&self.file_name)));
        let r = Value::Obj(fields);
        proof {
            lemma_obj_model(fields@);
            assert(obj_model(fields@) =~= message_value(*self)->Obj_0);
        }
        r
    }
}

} // verus!
