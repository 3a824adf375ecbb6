//! The provider-information object of the command API surface.

use vstd::prelude::*;
use vstd::string::StringExecFns;

use crate::descriptor::TypeDescriptor;
use crate::wire::{lemma_obj_model, obj_model, Value, ValueModel};

verus! {

/// Provider information for an email domain. The status is an enumeration on
/// the provider side; it is carried as a plain number because that is how it
/// goes over the wire.
pub struct ProviderInfo {
    pub before_login_hint: String,
    pub overview_page: String,
    pub status: u32,
}

/// The wire-type text of a provider-information object.
pub open spec fn provider_info_type_text() -> Seq<char> {
    "{ before_login_hint: string, overview_page: string, status: 1 | 2 | 3 }"@
}

/// The wire value of a provider-information object.
pub open spec fn provider_info_value(p: ProviderInfo) -> ValueModel {
    ValueModel::Obj(
        seq![
            ("before_login_hint"@, ValueModel::Text(p.before_login_hint@)),
            ("overview_page"@, ValueModel::Text(p.overview_page@)),
            ("status"@, ValueModel::Num(p.status as int)),
        ],
    )
}

impl ProviderInfo {
    /// The wire-type text of a provider-information object.
    pub fn get_typescript_type() -> (r: String)
        ensures
            r@ == provider_info_type_text(),
    {
        String::from_str("{ before_login_hint: string, overview_page: string, status: 1 | 2 | 3 }")
    }

    /// The custom leaf descriptor under which provider information appears in
    /// contracts.
    pub fn type_descriptor() -> (r: TypeDescriptor)
        ensures
            r matches TypeDescriptor::Leaf(l) && l.custom && l.name@ == "ProviderInfo_Type"@
                && l.definition@ == provider_info_type_text(),
            crate::descriptor::fallible_free(r),
    {
        TypeDescriptor::custom(
            "ProviderInfo_Type",
            "{ before_login_hint: string, overview_page: string, status: 1 | 2 | 3 }",
        )
    }

    /// Encodes the provider information into its wire value.
    pub fn into_json_value(&self) -> (r: Value)
        ensures
            r@ == provider_info_value(*self),
    {
        let mut fields: Vec<(String, Value)> = Vec::new();
        fields.push(
            (String::from_str("before_login_hint"), Value::Text(self.before_login_hint.clone())),
        );
        fields.push((String::from_str("overview_page"), Value::Text(self.overview_page.clone())));
        fields.push((String::from_str("status"), Value::Num(self.status as i64)));
        let r = Value::Obj(fields);
        proof {
            lemma_obj_model(fields@);
            assert(obj_model(fields@) =~= provider_info_value(*self)->Obj_0);
        }
        r
    }
}

} // verus!
