//! The account object of the command API surface.

use vstd::prelude::*;
use vstd::string::StringExecFns;

use crate::descriptor::TypeDescriptor;
use crate::types::message::opt_text_value;
use crate::wire::{lemma_obj_model, obj_model, Value, ValueModel};

verus! {

/// An account as the surface exposes it: configured, with its display data,
/// or unconfigured, with its identifier alone.
pub enum Account {
    Configured {
        id: u32,
        display_name: Option<String>,
        addr: Option<String>,
        profile_image: Option<String>,
        color: String,
    },
    Unconfigured { id: u32 },
}

/// The wire-type text of an account: a tagged union over the two variants.
pub open spec fn account_type_text() -> Seq<char> {
    "{ type: \"Configured\", id: number, display_name: string|null, addr: string|null, profile_image: string|null, color: string } | { type: \"Unconfigured\", id: number }"@
}

/// The wire value of an account: a tagged object whose `type` field names
/// the variant.
pub open spec fn account_value(a: Account) -> ValueModel {
    match a {
        Account::Configured { id, display_name, addr, profile_image, color } => ValueModel::Obj(
            seq![
                ("type"@, ValueModel::Text("Configured"@)),
                ("id"@, ValueModel::Num(id as int)),
                ("display_name"@, opt_text_value(display_name)),
                ("addr"@, opt_text_value(addr)),
                ("profile_image"@, opt_text_value(profile_image)),
                ("color"@, ValueModel::Text(color@)),
            ],
        ),
        Account::Unconfigured { id } => ValueModel::Obj(
            seq![
                ("type"@, ValueModel::Text("Unconfigured"@)),
                ("id"@, ValueModel::Num(id as int)),
            ],
        ),
    }
}

/// Encodes an optional text as its wire value.
fn opt_text_to_value(o: &Option<String>) -> (r: Value)
    ensures
        r@ == opt_text_value(*o),
{
    match o {
        Some(s) => Value::Text(s.clone()),
        None => Value::Null,
    }
}

impl Account {
    /// The wire-type text of an account.
    pub fn get_typescript_type() -> (r: String)
        ensures
            r@ == account_type_text(),
    {
        String::from_str(
            "{ type: \"Configured\", id: number, display_name: string|null, addr: string|null, profile_image: string|null, color: string } | { type: \"Unconfigured\", id: number }",
        )
    }

    /// The custom leaf descriptor under which accounts appear in contracts.
    pub fn type_descriptor() -> (r: TypeDescriptor)
        ensures
            r matches TypeDescriptor::Leaf(l) && l.custom && l.name@ == "Account"@
                && l.definition@ == account_type_text(),
            crate::descriptor::fallible_free(r),
    {
        TypeDescriptor::custom(
            "Account",
            "{ type: \"Configured\", id: number, display_name: string|null, addr: string|null, profile_image: string|null, color: string } | { type: \"Unconfigured\", id: number }",
        )
    }

    /// Encodes the account into its wire value.
    pub fn into_json_value(&self) -> (r: Value)
        ensures
            r@ == account_value(*self),
    {
        match self {
            Account::Configured { id, display_name, addr, profile_image, color } => {
                let mut fields: Vec<(String, Value)> = Vec::new();
                fields.push(
                    (String::from_str("type"), Value::Text(String::from_str("Configured"))),
                );
                fields.push((String::from_str("id"), Value::Num(*id as i64)));
                fields.push((String::from_str("display_name"), opt_text_to_value(display_name)));
                fields.push((String::from_str("addr"), opt_text_to_value(addr)));
                fields.push((String::from_str("profile_image"), opt_text_to_value(profile_image)));
                fields.push((String::from_str("color"), Value::Text(color.clone())));
                let r = Value::Obj(fields);
                proof {
                    lemma_obj_model(fields@);
                    assert(obj_model(fields@) =~= account_value(*self)->Obj_0);
                }
                r
            },
            Account::Unconfigured { id } => {
                let mut fields: Vec<(String, Value)> = Vec::new();
                fields.push(
                    (String::from_str("type"), Value::Text(String::from_str("Unconfigured"))),
                );
                fields.push((String::from_str("id"), Value::Num(*id as i64)));
                let r = Value::Obj(fields);
                proof {
                    lemma_obj_model(fields@);
                    assert(obj_model(fields@) =~= account_value(*self)->Obj_0);
                }
                r
            },
        }
    }
}

} // verus!
