//! The algebra of wire-representable types.
//!
//! A `TypeDescriptor` describes the shape of a method parameter or return
//! value. Leaves are opaque named types; containers (list, optional,
//! dictionary) derive their wire shape from their children; `Fallible` marks
//! an error-carrying return and may only stand outermost in a return type.

use vstd::prelude::*;
use vstd::string::StringExecFns;

verus! {

/// A named opaque type with a statically known wire representation.
///
/// For a primitive leaf (number, string, boolean, void) the `name` and the
/// `definition` are the same wire-type text. For a custom leaf — a structured
/// application type that deserves a named, reusable client-side definition —
/// `name` is the reference text used wherever the type occurs, and
/// `definition` is the full structural wire-type text registered once.
pub struct LeafType {
    pub name: String,
    pub custom: bool,
    pub definition: String,
}

/// The recursive descriptor of a wire-representable type.
pub enum TypeDescriptor {
    /// An opaque named type.
    Leaf(LeafType),
    /// An ordered sequence of one inner type.
    List(Box<TypeDescriptor>),
    /// Either a value of the inner type or null.
    Optional(Box<TypeDescriptor>),
    /// A string-keyed index of values; first child is the key type, second
    /// the value type.
    Dictionary(Box<TypeDescriptor>, Box<TypeDescriptor>),
    /// An error-carrying return whose success payload is the inner type.
    Fallible(Box<TypeDescriptor>),
}

/// The canonical signature of a descriptor: the leaf name, or the container
/// name composed with the canonical signatures of the children, so that two
/// occurrences of the same logical type always produce the same text.
pub open spec fn sig_of(t: TypeDescriptor) -> Seq<char>
    decreases t,
{
    match t {
        TypeDescriptor::Leaf(l) => l.name@,
        TypeDescriptor::List(inner) => "List("@ + sig_of(*inner) + ")"@,
        TypeDescriptor::Optional(inner) => "Optional("@ + sig_of(*inner) + ")"@,
        TypeDescriptor::Dictionary(k, v) => "Dictionary("@ + sig_of(*k) + ","@ + sig_of(*v)
            + ")"@,
        TypeDescriptor::Fallible(inner) => "Fallible("@ + sig_of(*inner) + ")"@,
    }
}

/// The fully inlined wire-type text: every descriptor, leaves included, is
/// expanded in place.
pub open spec fn plain_text(t: TypeDescriptor) -> Seq<char>
    decreases t,
{
    match t {
        TypeDescriptor::Leaf(l) => l.definition@,
        TypeDescriptor::List(inner) => plain_text(*inner) + "[]"@,
        TypeDescriptor::Optional(inner) => plain_text(*inner) + "|null"@,
        TypeDescriptor::Dictionary(k, v) => "{ [key: "@ + plain_text(*k) + "]: "@ + plain_text(
            *v,
        ) + " }"@,
        TypeDescriptor::Fallible(inner) => plain_text(*inner),
    }
}

/// The custom-aware wire-type text: a custom leaf resolves to a reference to
/// its name instead of its inlined definition; containers compose around
/// their children; `Fallible` resolves to its success payload, since the
/// error channel never appears in the type text.
pub open spec fn custom_text(t: TypeDescriptor) -> Seq<char>
    decreases t,
{
    match t {
        TypeDescriptor::Leaf(l) => if l.custom {
            l.name@
        } else {
            l.definition@
        },
        TypeDescriptor::List(inner) => custom_text(*inner) + "[]"@,
        TypeDescriptor::Optional(inner) => custom_text(*inner) + "|null"@,
        TypeDescriptor::Dictionary(k, v) => "{ [key: "@ + custom_text(*k) + "]: "@ + custom_text(
            *v,
        ) + " }"@,
        TypeDescriptor::Fallible(inner) => custom_text(*inner),
    }
}

/// True when no `Fallible` tag occurs anywhere in the descriptor.
pub open spec fn fallible_free(t: TypeDescriptor) -> bool
    decreases t,
{
    match t {
        TypeDescriptor::Leaf(_) => true,
        TypeDescriptor::List(inner) => fallible_free(*inner),
        TypeDescriptor::Optional(inner) => fallible_free(*inner),
        TypeDescriptor::Dictionary(k, v) => fallible_free(*k) && fallible_free(*v),
        TypeDescriptor::Fallible(_) => false,
    }
}

/// True when the descriptor is valid as a return type: `Fallible` may stand
/// only outermost, never nested.
pub open spec fn return_shape_ok(t: TypeDescriptor) -> bool {
    match t {
        TypeDescriptor::Fallible(inner) => fallible_free(*inner),
        _ => fallible_free(t),
    }
}

impl TypeDescriptor {
    /// The leaf for a method that returns nothing.
    pub fn void() -> (r: TypeDescriptor)
        ensures
            r matches TypeDescriptor::Leaf(l) && !l.custom && l.name@ == "void"@ && l.definition@
                == "void"@,
            fallible_free(r),
    {
        TypeDescriptor::Leaf(
            LeafType { name: String::from_str("void"), custom: false, definition: String::from_str("void") },
        )
    }

    /// A primitive leaf whose reference text and definition are the same.
    pub fn primitive(text: &str) -> (r: TypeDescriptor)
        ensures
            r matches TypeDescriptor::Leaf(l) && !l.custom && l.name@ == text@ && l.definition@
                == text@,
            fallible_free(r),
    {
        TypeDescriptor::Leaf(
            LeafType {
                name: String::from_str(text),
                custom: false,
                definition: String::from_str(text),
            },
        )
    }

    /// A custom structured leaf: referenced by `name`, defined once by
    /// `definition`.
    pub fn custom(name: &str, definition: &str) -> (r: TypeDescriptor)
        ensures
            r matches TypeDescriptor::Leaf(l) && l.custom && l.name@ == name@ && l.definition@
                == definition@,
            fallible_free(r),
    {
        TypeDescriptor::Leaf(
            LeafType {
                name: String::from_str(name),
                custom: true,
                definition: String::from_str(definition),
            },
        )
    }
}

/// Decides whether no `Fallible` tag occurs anywhere in the descriptor.
pub fn check_fallible_free(t: &TypeDescriptor) -> (r: bool)
    ensures
        r == fallible_free(*t),
    decreases *t,
{
    match t {
        TypeDescriptor::Leaf(_) => true,
        TypeDescriptor::List(inner) => check_fallible_free(inner),
        TypeDescriptor::Optional(inner) => check_fallible_free(inner),
        TypeDescriptor::Dictionary(k, v) => {
            let key_ok = check_fallible_free(k);
            key_ok && check_fallible_free(v)
        },
        TypeDescriptor::Fallible(_) => false,
    }
}

/// Decides whether the descriptor is valid as a return type.
pub fn check_return_shape(t: &TypeDescriptor) -> (r: bool)
    ensures
        r == return_shape_ok(*t),
{
    match t {
        TypeDescriptor::Fallible(inner) => check_fallible_free(inner),
        _ => check_fallible_free(t),
    }
}

/// Builds the canonical signature text of a descriptor.
pub fn signature(t: &TypeDescriptor) -> (r: String)
    ensures
        r@ == sig_of(*t),
    decreases *t,
{
    match t {
        TypeDescriptor::Leaf(l) => l.name.clone(),
        TypeDescriptor::List(inner) => {
            let mut s = String::from_str("List(");
            let inner_sig = signature(inner);
            s.append(inner_sig.as_str());
            s.append(")");
            proof {
                assert(s@ =~= sig_of(*t));
            }
            s
        },
        TypeDescriptor::Optional(inner) => {
            let mut s = String::from_str("Optional(");
            let inner_sig = signature(inner);
            s.append(inner_sig.as_str());
            s.append(")");
            proof {
                assert(s@ =~= sig_of(*t));
            }
            s
        },
        TypeDescriptor::Dictionary(k, v) => {
            let mut s = String::from_str("Dictionary(");
            let key_sig = signature(k);
            s.append(key_sig.as_str());
            s.append(",");
            let value_sig = signature(v);
            s.append(value_sig.as_str());
            s.append(")");
            proof {
                assert(s@ =~= sig_of(*t));
            }
            s
        },
        TypeDescriptor::Fallible(inner) => {
            let mut s = String::from_str("Fallible(");
            let inner_sig = signature(inner);
            s.append(inner_sig.as_str());
            s.append(")");
            proof {
                assert(s@ =~= sig_of(*t));
            }
            s
        },
    }
}

} // verus!
