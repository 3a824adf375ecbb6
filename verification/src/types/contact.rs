//! The contact object of the command API surface.

use vstd::prelude::*;
use vstd::string::StringExecFns;

use crate::descriptor::TypeDescriptor;
use crate::wire::{lemma_obj_model, obj_model, Value, ValueModel};

verus! {

/// A contact as the surface exposes it: plain values only, blobs referenced
/// by path.
pub struct ContactObject {
    pub address: String,
    pub color: String,
    pub auth_name: String,
    pub status: String,
    pub display_name: String,
    pub id: u32,
    pub name: String,
    pub profile_image: Option<String>,
    pub name_and_addr: String,
    pub is_blocked: bool,
    pub is_verified: bool,
}

/// The wire-type text of a contact.
pub open spec fn contact_type_text() -> Seq<char> {
    "{ address: string, color: string, auth_name: string, status: string, display_name: string, id: number, name: string, profile_image: string|null, name_and_addr: string, is_blocked: boolean, is_verified: boolean }"@
}

/// The wire value of a contact: one object field per struct field, in
/// declaration order.
pub open spec fn contact_value(c: ContactObject) -> ValueModel {
    ValueModel::Obj(
        seq![
            ("address"@, ValueModel::Text(c.address@)),
            ("color"@, ValueModel::Text(c.color@)),
            ("auth_name"@, ValueModel::Text(c.auth_name@)),
            ("status"@, ValueModel::Text(c.status@)),
            ("display_name"@, ValueModel::Text(c.display_name@)),
            ("id"@, ValueModel::Num(c.id as int)),
            ("name"@, ValueModel::Text(c.name@)),
            (
                "profile_image"@,
                match c.profile_image {
                    Some(p) => ValueModel::Text(p@),
                    None => ValueModel::Null,
                },
            ),
            ("name_and_addr"@, ValueModel::Text(c.name_and_addr@)),
            ("is_blocked"@, ValueModel::Flag(c.is_blocked)),
            ("is_verified"@, ValueModel::Flag(c.is_verified)),
        ],
    )
}

impl ContactObject {
    /// The wire-type text of a contact.
    pub fn get_typescript_type() -> (r: String)
        ensures
            r@ == contact_type_text(),
    {
        String::from_str(
            "{ address: string, color: string, auth_name: string, status: string, display_name: string, id: number, name: string, profile_image: string|null, name_and_addr: string, is_blocked: boolean, is_verified: boolean }",
        )
    }

    /// The custom leaf descriptor under which contacts appear in contracts.
    pub fn type_descriptor() -> (r: TypeDescriptor)
        ensures
            r matches TypeDescriptor::Leaf(l) && l.custom && l.name@ == "Contact"@
                && l.definition@ == contact_type_text(),
            crate::descriptor::fallible_free(r),
    {
        TypeDescriptor::custom(
            "Contact",
            "{ address: string, color: string, auth_name: string, status: string, display_name: string, id: number, name: string, profile_image: string|null, name_and_addr: string, is_blocked: boolean, is_verified: boolean }",
        )
    }

    /// Encodes the contact into its wire value.
    pub fn into_json_value(&self) -> (r: Value)
        ensures
            r@ == contact_value(*self),
    {
        let mut fields: Vec<(String, Value)> = Vec::new();
        fields.push((String::from_str("address"), Value::Text(self.address.clone())));
        fields.push((String::from_str("color"), Value::Text(self.color.clone())));
        fields.push((String::from_str("auth_name"), Value::Text(self.auth_name.clone())));
        fields.push((String::from_str("status"), Value::Text(self.status.clone())));
        fields.push((String::from_str("display_name"), Value::Text(self.display_name.clone())));
        fields.push((String::from_str("id"), Value::Num(self.id as i64)));
        fields.push((String::from_str("name"), Value::Text(self.name.clone())));
        let profile_image = match &self.profile_image {
            Some(p) => Value::Text(p.clone()),
            None => Value::Null,
        };
        fields.push((String::from_str("profile_image"), profile_image));
        fields.push((String::from_str("name_and_addr"), Value::Text(self.name_and_addr.clone())));
        fields.push((String::from_str("is_blocked"), Value::Flag(self.is_blocked)));
        fields.push((String::from_str("is_verified"), Value::Flag(self.is_verified)));
        let r = Value::Obj(fields);
        proof {
            lemma_obj_model(fields@);
            assert(obj_model(fields@) =~= contact_value(*self)->Obj_0);
        }
        r
    }
}

} // verus!
