//! The full chat object of the command API surface.

use vstd::prelude::*;
use vstd::string::StringExecFns;

use crate::descriptor::TypeDescriptor;
use crate::types::contact::{contact_value, ContactObject};
use crate::types::message::opt_text_value;
use crate::wire::{arr_model, lemma_arr_model, lemma_obj_model, obj_model, Value, ValueModel};

verus! {

/// A chat with everything the surface exposes about it, contacts embedded.
pub struct FullChat {
    pub id: u32,
    pub name: String,
    pub is_protected: bool,
    pub profile_image: Option<String>,
    pub archived: bool,
    pub chat_type: u32,
    pub is_unpromoted: bool,
    pub is_self_talk: bool,
    pub contacts: Vec<ContactObject>,
    pub contact_ids: Vec<u32>,
    pub color: String,
    pub fresh_message_counter: usize,
    pub is_contact_request: bool,
    pub is_device_chat: bool,
    pub self_in_group: bool,
    pub is_muted: bool,
    pub ephemeral_timer: u32,
}

/// The wire-type text of a full chat.
pub open spec fn full_chat_type_text() -> Seq<char> {
    "{ id: number, name: string, is_protected: boolean, profile_image: string|null, archived: boolean, chat_type: number, is_unpromoted: boolean, is_self_talk: boolean, contacts: Contact[], contact_ids: number[], color: string, fresh_message_counter: number, is_contact_request: boolean, is_device_chat: boolean, self_in_group: boolean, is_muted: boolean, ephemeral_timer: number }"@
}

/// The wire value of a full chat: one object field per struct field, the
/// contacts encoded as an array of contact objects.
pub open spec fn full_chat_value(c: FullChat) -> ValueModel {
    ValueModel::Obj(
        seq![
            ("id"@, ValueModel::Num(c.id as int)),
            ("name"@, ValueModel::Text(c.name@)),
            ("is_protected"@, ValueModel::Flag(c.is_protected)),
            ("profile_image"@, opt_text_value(c.profile_image)),
            ("archived"@, ValueModel::Flag(c.archived)),
            ("chat_type"@, ValueModel::Num(c.chat_type as int)),
            ("is_unpromoted"@, ValueModel::Flag(c.is_unpromoted)),
            ("is_self_talk"@, ValueModel::Flag(c.is_self_talk)),
            (
                "contacts"@,
                ValueModel::Arr(
                    Seq::new(c.contacts@.len(), |i: int| contact_value(c.contacts@[i])),
                ),
            ),
            (
                "contact_ids"@,
                ValueModel::Arr(
                    Seq::new(c.contact_ids@.len(), |i: int| ValueModel::Num(c.contact_ids@[i] as int)),
                ),
            ),
            ("color"@, ValueModel::Text(c.color@)),
            ("fresh_message_counter"@, ValueModel::Num(c.fresh_message_counter as int)),
            ("is_contact_request"@, ValueModel::Flag(c.is_contact_request)),
            ("is_device_chat"@, ValueModel::Flag(c.is_device_chat)),
            ("self_in_group"@, ValueModel::Flag(c.self_in_group)),
            ("is_muted"@, ValueModel::Flag(c.is_muted)),
            ("ephemeral_timer"@, ValueModel::Num(c.ephemeral_timer as int)),
        ],
    )
}

/// Encodes an optional text as its wire value.
fn opt_text_to_value(o: &Option<String>) -> (r: Value)
    ensures
        r@ == opt_text_value(*o),
{
    match o {
        Some(s) => Value::Text(s.clone()),
        None => Value::Null,
    }
}

impl FullChat {
    /// The wire-type text of a full chat.
    pub fn get_typescript_type() -> (r: String)
        ensures
            r@ == full_chat_type_text(),
    {
        String::from_str(
            "{ id: number, name: string, is_protected: boolean, profile_image: string|null, archived: boolean, chat_type: number, is_unpromoted: boolean, is_self_talk: boolean, contacts: Contact[], contact_ids: number[], color: string, fresh_message_counter: number, is_contact_request: boolean, is_device_chat: boolean, self_in_group: boolean, is_muted: boolean, ephemeral_timer: number }",
        )
    }

    /// The custom leaf descriptor under which full chats appear in contracts.
    pub fn type_descriptor() -> (r: TypeDescriptor)
        ensures
            r matches TypeDescriptor::Leaf(l) && l.custom && l.name@ == "FullChat_Type"@
                && l.definition@ == full_chat_type_text(),
            crate::descriptor::fallible_free(r),
    {
        TypeDescriptor::custom(
            "FullChat_Type",
            "{ id: number, name: string, is_protected: boolean, profile_image: string|null, archived: boolean, chat_type: number, is_unpromoted: boolean, is_self_talk: boolean, contacts: Contact[], contact_ids: number[], color: string, fresh_message_counter: number, is_contact_request: boolean, is_device_chat: boolean, self_in_group: boolean, is_muted: boolean, ephemeral_timer: number }",
        )
    }

    /// Encodes the full chat into its wire value. The fresh-message count
    /// must fit the wire's signed number range.
    #[verifier::loop_isolation(false)]
    #[verifier::rlimit(30)]
    pub fn into_json_value(&self) -> (r: Value)
        requires
            self.fresh_message_counter <= i64::MAX as usize,
        ensures
            r@ == full_chat_value(*self),
    {
        let cn = self.contacts.len();
        let mut contact_values: Vec<Value> = Vec::new();
        let mut i: usize = 0;
        while i < cn
            invariant
                0 <= i <= cn,
                contact_values@.len() == i,
                forall|j: int|
                    0 <= j < i ==> contact_values@[j]@ == contact_value(self.contacts@[j]),
            decreases cn - i,
        {
            let v = self.contacts[i].into_json_value();
            contact_values.push(v);
            i = i + 1;
        }
        let idn = self.contact_ids.len();
        let mut id_values: Vec<Value> = Vec::new();
        let mut k: usize = 0;
        while k < idn
            invariant
                0 <= k <= idn,
                id_values@.len() == k,
                forall|j: int|
                    0 <= j < k ==> id_values@[j]@ == ValueModel::Num(self.contact_ids@[j] as int),
            decreases idn - k,
        {
            let n = self.contact_ids[k];
            id_values.push(Value::Num(n as i64));
            k = k + 1;
        }
        let mut fields: Vec<(String, Value)> = Vec::new();
        fields.push((String::from_str("id"), Value::Num(self.id as i64)));
        fields.push((String::from_str("name"), Value::Text(self.name.clone())));
        fields.push((String::from_str("is_protected"), Value::Flag(self.is_protected)));
        fields.push((String::from_str("profile_image"), opt_text_to_value(&self.profile_image)));
        fields.push((String::from_str("archived"), Value::Flag(self.archived)));
        fields.push((String::from_str("chat_type"), Value::Num(self.chat_type as i64)));
        fields.push((String::from_str("is_unpromoted"), Value::Flag(self.is_unpromoted)));
        fields.push((String::from_str("is_self_talk"), Value::Flag(self.is_self_talk)));
        let ghost gcontact_values = contact_values@;
        fields.push((String::from_str("contacts"), Value::Arr(contact_values)));
        let ghost gid_values = id_values@;
        fields.push((String::from_str("contact_ids"), Value::Arr(id_values)));
        fields.push((String::from_str("color"), Value::Text(self.color.clone())));
        fields.push(
            (
                String::from_str("fresh_message_counter"),
                Value::Num(self.fresh_message_counter as i64),
            ),
        );
        fields.push((String::from_str("is_contact_request"), Value::Flag(self.is_contact_request)));
        fields.push((String::from_str("is_device_chat"), Value::Flag(self.is_device_chat)));
        fields.push((String::from_str("self_in_group"), Value::Flag(self.self_in_group)));
        fields.push((String::from_str("is_muted"), Value::Flag(self.is_muted)));
        fields.push((String::from_str("ephemeral_timer"), Value::Num(self.ephemeral_timer as i64)));
        let r = Value::Obj(fields);
        proof {
            lemma_arr_model(gcontact_values);
            lemma_arr_model(gid_values);
            assert(arr_model(gcontact_values) =~= Seq::new(
                self.contacts@.len(),
                |j: int| contact_value(self.contacts@[j]),
            ));
            assert(arr_model(gid_values) =~= Seq::new(
                self.contact_ids@.len(),
                |j: int| ValueModel::Num(self.contact_ids@[j] as int),
            ));
            lemma_obj_model(fields@);
            assert(obj_model(fields@) =~= full_chat_value(*self)->Obj_0);
        }
        r
    }
}

} // verus!
