//! Shape-directed decoding of wire values into typed host values, and the
//! round-trip law tying decoding to encoding.
//!
//! Decoding follows a descriptor: primitive leaves demand the matching
//! primitive wire value; any other leaf is opaque and carries the wire value
//! through; a list demands an array and decodes every element; an optional
//! accepts null or a value of its inner shape; a dictionary demands an object
//! and decodes every field value; a fallible return decodes as its success
//! payload.

use vstd::prelude::*;
use vstd::string::StringExecFns;

use crate::descriptor::TypeDescriptor;
use crate::host::{
    encode_model, encode_pairs, encode_seq, host_model, hpairs_model, hseq_model,
    lemma_hpairs_model, lemma_hseq_model, HostModel, HostValue,
};
use crate::wire::{
    arr_model, lemma_arr_model, lemma_obj_model, obj_model, value_model, Value, ValueModel,
};

verus! {

/// Decodes one wire value against a descriptor, or nothing when the value
/// does not match the shape.
pub open spec fn decode_model(t: TypeDescriptor, v: ValueModel) -> Option<HostModel>
    decreases t, v, 1int,
{
    match t {
        TypeDescriptor::Leaf(l) => if l.name@ == "number"@ {
            match v {
                ValueModel::Num(n) => Some(HostModel::Number(n)),
                _ => None,
            }
        } else if l.name@ == "string"@ {
            match v {
                ValueModel::Text(s) => Some(HostModel::Text(s)),
                _ => None,
            }
        } else if l.name@ == "boolean"@ {
            match v {
                ValueModel::Flag(b) => Some(HostModel::Flag(b)),
                _ => None,
            }
        } else if l.name@ == "void"@ {
            match v {
                ValueModel::Null => Some(HostModel::Unit),
                _ => None,
            }
        } else {
            Some(HostModel::Opaque(v))
        },
        TypeDescriptor::List(inner) => match v {
            ValueModel::Arr(_) => match decode_seq_model(*inner, v->Arr_0) {
                Some(hs) => Some(HostModel::Sequence(hs)),
                None => None,
            },
            _ => None,
        },
        TypeDescriptor::Optional(inner) => if v is Null {
            Some(HostModel::OptionalOf(None))
        } else {
            match decode_model(*inner, v) {
                Some(h) => Some(HostModel::OptionalOf(Some(Box::new(h)))),
                None => None,
            }
        },
        TypeDescriptor::Dictionary(_k, val) => match v {
            ValueModel::Obj(_) => match decode_pairs_model(*val, v->Obj_0) {
                Some(ps) => Some(HostModel::Mapping(ps)),
                None => None,
            },
            _ => None,
        },
        TypeDescriptor::Fallible(inner) => decode_model(*inner, v),
    }
}

/// Decodes every element of an array against one descriptor, or nothing when
/// any element fails.
pub open spec fn decode_seq_model(t: TypeDescriptor, items: Seq<ValueModel>) -> Option<
    Seq<HostModel>,
>
    decreases t, items, 0int,
{
    if items.len() == 0 {
        Some(Seq::empty())
    } else {
        match (decode_model(t, items[0]), decode_seq_model(t, items.drop_first())) {
            (Some(h), Some(rest)) => Some(seq![h] + rest),
            _ => None,
        }
    }
}

/// Decodes every field value of an object against one descriptor, keeping
/// field names, or nothing when any field fails.
pub open spec fn decode_pairs_model(
    t: TypeDescriptor,
    fields: Seq<(Seq<char>, ValueModel)>,
) -> Option<Seq<(Seq<char>, HostModel)>>
    decreases t, fields, 0int,
{
    if fields.len() == 0 {
        Some(Seq::empty())
    } else {
        match (decode_model(t, fields[0].1), decode_pairs_model(t, fields.drop_first())) {
            (Some(h), Some(rest)) => Some(seq![(fields[0].0, h)] + rest),
            _ => None,
        }
    }
}

/// `decode_seq_model` succeeds exactly when every element decodes, and then
/// maps the elements in order.
pub proof fn lemma_decode_seq_model(t: TypeDescriptor, items: Seq<ValueModel>)
    ensures
        decode_seq_model(t, items) is Some <==> (forall|i: int|
            0 <= i < items.len() ==> decode_model(t, items[i]) is Some),
        decode_seq_model(t, items) matches Some(hs) ==> hs.len() == items.len() && (forall|i: int|
            0 <= i < items.len() ==> Some(hs[i]) == decode_model(t, items[i])),
    decreases items.len(),
{
    if items.len() > 0 {
        lemma_decode_seq_model(t, items.drop_first());
        assert(forall|i: int|
            1 <= i < items.len() ==> items.drop_first()[i - 1] == items[i]);
        if decode_seq_model(t, items) is Some {
            let hs = decode_seq_model(t, items)->0;
            let rest = decode_seq_model(t, items.drop_first())->0;
            assert(forall|i: int| 1 <= i < items.len() ==> hs[i] == rest[i - 1]);
        } else {
            if decode_model(t, items[0]) is Some {
                let j = choose|j: int|
                    0 <= j < items.drop_first().len() && !(decode_model(
                        t,
                        items.drop_first()[j],
                    ) is Some);
                assert(!(decode_model(t, items[j + 1]) is Some));
            }
        }
    }
}

/// `decode_pairs_model` succeeds exactly when every field value decodes, and
/// then maps the fields in order, keeping names.
pub proof fn lemma_decode_pairs_model(t: TypeDescriptor, fields: Seq<(Seq<char>, ValueModel)>)
    ensures
        decode_pairs_model(t, fields) is Some <==> (forall|i: int|
            0 <= i < fields.len() ==> decode_model(t, fields[i].1) is Some),
        decode_pairs_model(t, fields) matches Some(ps) ==> ps.len() == fields.len() && (
        forall|i: int|
            0 <= i < fields.len() ==> ps[i].0 == fields[i].0 && Some(ps[i].1) == decode_model(
                t,
                fields[i].1,
            )),
    decreases fields.len(),
{
    if fields.len() > 0 {
        lemma_decode_pairs_model(t, fields.drop_first());
        assert(forall|i: int|
            1 <= i < fields.len() ==> fields.drop_first()[i - 1] == fields[i]);
        if decode_pairs_model(t, fields) is Some {
            let ps = decode_pairs_model(t, fields)->0;
            let rest = decode_pairs_model(t, fields.drop_first())->0;
            assert(forall|i: int| 1 <= i < fields.len() ==> ps[i] == rest[i - 1]);
        } else {
            if decode_model(t, fields[0].1) is Some {
                let j = choose|j: int|
                    0 <= j < fields.drop_first().len() && !(decode_model(
                        t,
                        fields.drop_first()[j].1,
                    ) is Some);
                assert(!(decode_model(t, fields[j + 1].1) is Some));
            }
        }
    }
}

/// Decodes a wire value against a descriptor into a typed host value.
#[verifier::loop_isolation(false)]
pub fn decode_value(t: &TypeDescriptor, v: &Value) -> (r: Option<HostValue>)
    ensures
        r matches Some(h) ==> decode_model(*t, v@) == Some(h@),
        r is None <==> decode_model(*t, v@) is None,
    decreases *t, *v,
{
    match t {
        TypeDescriptor::Leaf(l) => {
            if l.name == String::from_str("number") {
                match v {
                    Value::Num(n) => Some(HostValue::Number(*n)),
                    _ => None,
                }
            } else if l.name == String::from_str("string") {
                match v {
                    Value::Text(s) => Some(HostValue::Text(s.clone())),
                    _ => None,
                }
            } else if l.name == String::from_str("boolean") {
                match v {
                    Value::Flag(b) => Some(HostValue::Flag(*b)),
                    _ => None,
                }
            } else if l.name == String::from_str("void") {
                match v {
                    Value::Null => Some(HostValue::Unit),
                    _ => None,
                }
            } else {
                Some(HostValue::Opaque(v.duplicate()))
            }
        },
        TypeDescriptor::List(inner) => match v {
            Value::Arr(items) => {
                let n = items.len();
                let mut out: Vec<HostValue> = Vec::new();
                let mut i: usize = 0;
                proof {
                    lemma_arr_model(items@);
                }
                while i < n
                    invariant
                        0 <= i <= n,
                        out@.len() == i,
                        forall|j: int|
                            0 <= j < i ==> decode_model(**inner, value_model(items@[j]))
                                == Some(host_model(out@[j])),
                    decreases n - i,
                {
                    proof {
                        assert(decreases_to!(*v => *items));
                        assert(decreases_to!(*items => items@[i as int]));
                    }
                    match decode_value(inner, &items[i]) {
                        Some(h) => {
                            out.push(h);
                        },
                        None => {
                            proof {
                                lemma_decode_seq_model(**inner, arr_model(items@));
                                assert(arr_model(items@)[i as int] == value_model(
                                    items@[i as int],
                                ));
                            }
                            return None;
                        },
                    }
                    i = i + 1;
                }
                let r = HostValue::Sequence(out);
                proof {
                    lemma_decode_seq_model(**inner, arr_model(items@));
                    lemma_hseq_model(out@);
                    let hs = decode_seq_model(**inner, arr_model(items@))->0;
                    assert(hs =~= hseq_model(out@));
                }
                Some(r)
            },
            _ => None,
        },
        TypeDescriptor::Optional(inner) => match v {
            Value::Null => Some(HostValue::OptionalOf(None)),
            _ => {
                match decode_value(inner, v) {
                    Some(h) => Some(HostValue::OptionalOf(Some(Box::new(h)))),
                    None => None,
                }
            },
        },
        TypeDescriptor::Dictionary(_k, val) => match v {
            Value::Obj(fields) => {
                let n = fields.len();
                let mut out: Vec<(String, HostValue)> = Vec::new();
                let mut i: usize = 0;
                proof {
                    lemma_obj_model(fields@);
                }
                while i < n
                    invariant
                        0 <= i <= n,
                        out@.len() == i,
                        forall|j: int|
                            0 <= j < i ==> out@[j].0@ == fields@[j].0@ && decode_model(
                                **val,
                                value_model(fields@[j].1),
                            ) == Some(host_model(out@[j].1)),
                    decreases n - i,
                {
                    proof {
                        assert(decreases_to!(*v => *fields));
                        assert(decreases_to!(*fields => fields@[i as int]));
                        assert(decreases_to!(fields@[i as int] => fields@[i as int].1));
                    }
                    let key = fields[i].0.clone();
                    match decode_value(val, &fields[i].1) {
                        Some(h) => {
                            out.push((key, h));
                        },
                        None => {
                            proof {
                                lemma_decode_pairs_model(**val, obj_model(fields@));
                                assert(obj_model(fields@)[i as int].1 == value_model(
                                    fields@[i as int].1,
                                ));
                            }
                            return None;
                        },
                    }
                    i = i + 1;
                }
                let r = HostValue::Mapping(out);
                proof {
                    lemma_decode_pairs_model(**val, obj_model(fields@));
                    lemma_hpairs_model(out@);
                    let ps = decode_pairs_model(**val, obj_model(fields@))->0;
                    assert(ps =~= hpairs_model(out@));
                }
                Some(r)
            },
            _ => None,
        },
        TypeDescriptor::Fallible(inner) => decode_value(inner, v),
    }
}

/// True when the host value fits the descriptor's shape.
pub open spec fn conforms(t: TypeDescriptor, h: HostModel) -> bool
    decreases t, h, 1int,
{
    match t {
        TypeDescriptor::Leaf(l) => if l.name@ == "number"@ {
            h is Number
        } else if l.name@ == "string"@ {
            h is Text
        } else if l.name@ == "boolean"@ {
            h is Flag
        } else if l.name@ == "void"@ {
            h is Unit
        } else {
            h is Opaque
        },
        TypeDescriptor::List(inner) => h matches HostModel::Sequence(_) && conforms_seq(
            *inner,
            h->Sequence_0,
        ),
        TypeDescriptor::Optional(inner) => match h {
            HostModel::OptionalOf(o) => o matches Some(b) ==> conforms(*inner, *b),
            _ => false,
        },
        TypeDescriptor::Dictionary(_k, val) => h matches HostModel::Mapping(_) && conforms_pairs(
            *val,
            h->Mapping_0,
        ),
        TypeDescriptor::Fallible(inner) => conforms(*inner, h),
    }
}

/// True when every element fits the descriptor's shape.
pub open spec fn conforms_seq(t: TypeDescriptor, items: Seq<HostModel>) -> bool
    decreases t, items, 0int,
{
    if items.len() == 0 {
        true
    } else {
        conforms(t, items[0]) && conforms_seq(t, items.drop_first())
    }
}

/// True when every field value fits the descriptor's shape.
pub open spec fn conforms_pairs(t: TypeDescriptor, pairs: Seq<(Seq<char>, HostModel)>) -> bool
    decreases t, pairs, 0int,
{
    if pairs.len() == 0 {
        true
    } else {
        conforms(t, pairs[0].1) && conforms_pairs(t, pairs.drop_first())
    }
}

/// True when a conforming value of the shape never encodes to null, so that
/// null on the wire is unambiguous.
pub open spec fn never_null(t: TypeDescriptor) -> bool
    decreases t,
{
    match t {
        TypeDescriptor::Leaf(l) => l.name@ == "number"@ || l.name@ == "string"@ || l.name@
            == "boolean"@,
        TypeDescriptor::List(_) => true,
        TypeDescriptor::Optional(_) => false,
        TypeDescriptor::Dictionary(_, _) => true,
        TypeDescriptor::Fallible(inner) => never_null(*inner),
    }
}

/// True when every optional inside the shape has an inner shape whose
/// conforming values never encode to null, so that decoding can tell an
/// absent optional from a present one.
pub open spec fn rigid(t: TypeDescriptor) -> bool
    decreases t,
{
    match t {
        TypeDescriptor::Leaf(_) => true,
        TypeDescriptor::List(inner) => rigid(*inner),
        TypeDescriptor::Optional(inner) => rigid(*inner) && never_null(*inner),
        TypeDescriptor::Dictionary(k, v) => rigid(*k) && rigid(*v),
        TypeDescriptor::Fallible(inner) => rigid(*inner),
    }
}

/// A conforming value of a never-null shape encodes to something other than
/// null.
pub proof fn lemma_never_null(t: TypeDescriptor, h: HostModel)
    requires
        conforms(t, h),
        never_null(t),
    ensures
        !(encode_model(h) is Null),
    decreases t,
{
    match t {
        TypeDescriptor::Fallible(inner) => {
            lemma_never_null(*inner, h);
        },
        _ => {},
    }
}

/// Round trip: a host value that fits a rigid shape is reproduced exactly by
/// decoding its own encoding through the same shape.
pub proof fn lemma_codec_round_trip(t: TypeDescriptor, h: HostModel)
    requires
        conforms(t, h),
        rigid(t),
    ensures
        decode_model(t, encode_model(h)) == Some(h),
    decreases t, h, 1int,
{
    match t {
        TypeDescriptor::Leaf(_) => {},
        TypeDescriptor::List(inner) => {
            lemma_codec_round_trip_seq(*inner, h->Sequence_0);
        },
        TypeDescriptor::Optional(inner) => {
            let o = h->OptionalOf_0;
            if o is Some {
                lemma_never_null(*inner, *o->0);
                lemma_codec_round_trip(*inner, *o->0);
            }
        },
        TypeDescriptor::Dictionary(_k, val) => {
            lemma_codec_round_trip_pairs(*val, h->Mapping_0);
        },
        TypeDescriptor::Fallible(inner) => {
            lemma_codec_round_trip(*inner, h);
        },
    }
}

/// Round trip for every element of a sequence.
pub proof fn lemma_codec_round_trip_seq(t: TypeDescriptor, items: Seq<HostModel>)
    requires
        conforms_seq(t, items),
        rigid(t),
    ensures
        decode_seq_model(t, encode_seq(items)) == Some(items),
    decreases t, items, 0int,
{
    if items.len() == 0 {
        assert(encode_seq(items).len() == 0);
    } else {
        lemma_codec_round_trip(t, items[0]);
        lemma_codec_round_trip_seq(t, items.drop_first());
        assert(encode_seq(items).drop_first() =~= encode_seq(items.drop_first()));
        assert(seq![items[0]] + items.drop_first() =~= items);
    }
}

/// Round trip for every field of a mapping, names kept.
pub proof fn lemma_codec_round_trip_pairs(t: TypeDescriptor, pairs: Seq<(Seq<char>, HostModel)>)
    requires
        conforms_pairs(t, pairs),
        rigid(t),
    ensures
        decode_pairs_model(t, encode_pairs(pairs)) == Some(pairs),
    decreases t, pairs, 0int,
{
    if pairs.len() == 0 {
        assert(encode_pairs(pairs).len() == 0);
    } else {
        lemma_codec_round_trip(t, pairs[0].1);
        lemma_codec_round_trip_pairs(t, pairs.drop_first());
        assert(encode_pairs(pairs).drop_first() =~= encode_pairs(pairs.drop_first()));
        assert(seq![pairs[0]] + pairs.drop_first() =~= pairs);
    }
}

} // verus!
