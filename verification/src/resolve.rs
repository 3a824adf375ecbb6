//! The type resolver: recursive mapping from a descriptor to its wire-type
//! text.
//!
//! Plain resolution inlines everything. Custom-aware resolution returns a
//! reference to a custom leaf's name instead of its definition and, as a side
//! effect, registers the definition under its canonical signature in the
//! registry handed through the call chain. Containers are composed inline and
//! are never themselves registered.

use vstd::prelude::*;
use vstd::string::StringExecFns;

use crate::descriptor::{custom_text, plain_text, TypeDescriptor};
use crate::registry::{absorb, lemma_absorb_concat, CustomTypeRegistry};

verus! {

/// The custom-leaf definitions encountered in a pre-order traversal of the
/// descriptor, in encounter order: for each custom leaf the pair of its
/// canonical signature and its definition text.
pub open spec fn customs_of(t: TypeDescriptor) -> Seq<(Seq<char>, Seq<char>)>
    decreases t,
{
    match t {
        TypeDescriptor::Leaf(l) => if l.custom {
            seq![(l.name@, l.definition@)]
        } else {
            Seq::empty()
        },
        TypeDescriptor::List(inner) => customs_of(*inner),
        TypeDescriptor::Optional(inner) => customs_of(*inner),
        TypeDescriptor::Dictionary(k, v) => customs_of(*k) + customs_of(*v),
        TypeDescriptor::Fallible(inner) => customs_of(*inner),
    }
}

/// Expands a descriptor into its fully inlined wire-type text.
pub fn resolve_plain(t: &TypeDescriptor) -> (r: String)
    ensures
        r@ == plain_text(*t),
    decreases *t,
{
    match t {
        TypeDescriptor::Leaf(l) => l.definition.clone(),
        TypeDescriptor::List(inner) => {
            let mut s = resolve_plain(inner);
            s.append("[]");
            s
        },
        TypeDescriptor::Optional(inner) => {
            let mut s = resolve_plain(inner);
            s.append("|null");
            s
        },
        TypeDescriptor::Dictionary(k, v) => {
            let mut s = String::from_str("{ [key: ");
            let key_text = resolve_plain(k);
            s.append(key_text.as_str());
            s.append("]: ");
            let value_text = resolve_plain(v);
            s.append(value_text.as_str());
            s.append(" }");
            proof {
                assert(s@ =~= plain_text(*t));
            }
            s
        },
        TypeDescriptor::Fallible(inner) => resolve_plain(inner),
    }
}

/// Resolves a descriptor with custom-type support: a custom leaf resolves to
/// a reference to its name and registers its definition; containers compose
/// their children's resolved text inline; `Fallible` resolves to its success
/// payload. The registry grows exactly by the traversal's custom leaves,
/// first encounter first, duplicates absorbed.
pub fn resolve_custom(t: &TypeDescriptor, reg: &mut CustomTypeRegistry) -> (r: String)
    ensures
        r@ == custom_text(*t),
        final(reg)@ == absorb(old(reg)@, customs_of(*t)),
        old(reg).wf() ==> final(reg).wf(),
    decreases *t,
{
    match t {
        TypeDescriptor::Leaf(l) => {
            if l.custom {
                reg.register(l.name.clone(), l.definition.clone());
                proof {
                    let one = seq![(l.name@, l.definition@)];
                    assert(customs_of(*t) == one);
                    assert(one[0] == (l.name@, l.definition@));
                    assert(one.drop_first() =~= Seq::<(Seq<char>, Seq<char>)>::empty());
                    assert(absorb(
                        crate::registry::absorb_one(old(reg)@, one[0]),
                        one.drop_first(),
                    ) == crate::registry::absorb_one(old(reg)@, one[0]));
                    assert(absorb(old(reg)@, customs_of(*t)) == reg@);
                }
                l.name.clone()
            } else {
                proof {
                    assert(customs_of(*t) =~= Seq::<(Seq<char>, Seq<char>)>::empty());
                }
                l.definition.clone()
            }
        },
        TypeDescriptor::List(inner) => {
            let mut s = resolve_custom(inner, reg);
            s.append("[]");
            s
        },
        TypeDescriptor::Optional(inner) => {
            let mut s = resolve_custom(inner, reg);
            s.append("|null");
            s
        },
        TypeDescriptor::Dictionary(k, v) => {
            let mut s = String::from_str("{ [key: ");
            let key_text = resolve_custom(k, reg);
            s.append(key_text.as_str());
            s.append("]: ");
            let value_text = resolve_custom(v, reg);
            s.append(value_text.as_str());
            s.append(" }");
            proof {
                assert(s@ =~= custom_text(*t));
                lemma_absorb_concat(old(reg)@, customs_of(**k), customs_of(**v));
            }
            s
        },
        TypeDescriptor::Fallible(inner) => resolve_custom(inner, reg),
    }
}

} // verus!
