//! Host values: the typed values that host operations consume and produce,
//! and their encoding into wire values.
//!
//! The encoding follows the surface's wire conventions: unit encodes as
//! null, an absent optional as null and a present one as its payload's own
//! encoding, sequences as arrays, string-keyed mappings as objects, and an
//! opaque structured value as the wire value it carries.

use vstd::prelude::*;

use crate::wire::{arr_model, lemma_arr_model, lemma_obj_model, obj_model, Value, ValueModel};

verus! {

/// The mathematical model of a host value.
#[verifier::ext_equal]
pub enum HostModel {
    Unit,
    Number(int),
    Text(Seq<char>),
    Flag(bool),
    Sequence(Seq<HostModel>),
    OptionalOf(Option<Box<HostModel>>),
    Mapping(Seq<(Seq<char>, HostModel)>),
    Opaque(ValueModel),
}

/// A typed host value: the unit value, a number, text, a boolean, an ordered
/// sequence, an optional value, a string-keyed mapping, or an opaque
/// structured value already in wire form.
pub enum HostValue {
    Unit,
    Number(i64),
    Text(String),
    Flag(bool),
    Sequence(Vec<HostValue>),
    OptionalOf(Option<Box<HostValue>>),
    Mapping(Vec<(String, HostValue)>),
    Opaque(Value),
}

/// The model of a host value.
pub open spec fn host_model(h: HostValue) -> HostModel
    decreases h, 1int,
{
    match h {
        HostValue::Unit => HostModel::Unit,
        HostValue::Number(n) => HostModel::Number(n as int),
        HostValue::Text(s) => HostModel::Text(s@),
        HostValue::Flag(b) => HostModel::Flag(b),
        HostValue::Sequence(_) => HostModel::Sequence(hseq_model(h->Sequence_0@)),
        HostValue::OptionalOf(o) => HostModel::OptionalOf(
            if o is Some {
                Some(Box::new(host_model(*o->0)))
            } else {
                None
            },
        ),
        HostValue::Mapping(_) => HostModel::Mapping(hpairs_model(h->Mapping_0@)),
        HostValue::Opaque(v) => HostModel::Opaque(v@),
    }
}

/// The models of a sequence of host values, in order.
pub open spec fn hseq_model(s: Seq<HostValue>) -> Seq<HostModel>
    decreases s, 0int,
{
    if s.len() == 0 {
        Seq::empty()
    } else {
        seq![host_model(s[0])] + hseq_model(s.drop_first())
    }
}

/// The models of a sequence of named host values, in order.
pub open spec fn hpairs_model(s: Seq<(String, HostValue)>) -> Seq<(Seq<char>, HostModel)>
    decreases s, 0int,
{
    if s.len() == 0 {
        Seq::empty()
    } else {
        seq![(s[0].0@, host_model(s[0].1))] + hpairs_model(s.drop_first())
    }
}

/// `hseq_model` maps the sequence elementwise.
pub proof fn lemma_hseq_model(s: Seq<HostValue>)
    ensures
        hseq_model(s).len() == s.len(),
        forall|i: int| 0 <= i < s.len() ==> hseq_model(s)[i] == host_model(s[i]),
    decreases s.len(),
{
    if s.len() > 0 {
        lemma_hseq_model(s.drop_first());
        assert forall|i: int| 0 <= i < s.len() implies hseq_model(s)[i] == host_model(s[i]) by {
            if i > 0 {
                assert(hseq_model(s)[i] == hseq_model(s.drop_first())[i - 1]);
                assert(s.drop_first()[i - 1] == s[i]);
            }
        }
    }
}

/// `hpairs_model` maps the sequence elementwise, keeping names.
pub proof fn lemma_hpairs_model(s: Seq<(String, HostValue)>)
    ensures
        hpairs_model(s).len() == s.len(),
        forall|i: int|
            0 <= i < s.len() ==> hpairs_model(s)[i] == (s[i].0@, host_model(s[i].1)),
    decreases s.len(),
{
    if s.len() > 0 {
        lemma_hpairs_model(s.drop_first());
        assert forall|i: int| 0 <= i < s.len() implies hpairs_model(s)[i] == (
            s[i].0@,
            host_model(s[i].1),
        ) by {
            if i > 0 {
                assert(hpairs_model(s)[i] == hpairs_model(s.drop_first())[i - 1]);
                assert(s.drop_first()[i - 1] == s[i]);
            }
        }
    }
}

impl View for HostValue {
    type V = HostModel;

    open spec fn view(&self) -> HostModel {
        host_model(*self)
    }
}

/// The wire encoding of a host value.
pub open spec fn encode_model(h: HostModel) -> ValueModel
    decreases h, 1int,
{
    match h {
        HostModel::Unit => ValueModel::Null,
        HostModel::Number(n) => ValueModel::Num(n),
        HostModel::Text(s) => ValueModel::Text(s),
        HostModel::Flag(b) => ValueModel::Flag(b),
        HostModel::Sequence(_) => ValueModel::Arr(encode_seq(h->Sequence_0)),
        HostModel::OptionalOf(o) => if o is Some {
            encode_model(*o->0)
        } else {
            ValueModel::Null
        },
        HostModel::Mapping(_) => ValueModel::Obj(encode_pairs(h->Mapping_0)),
        HostModel::Opaque(v) => v,
    }
}

/// The wire encodings of a sequence of host values, in order.
pub open spec fn encode_seq(s: Seq<HostModel>) -> Seq<ValueModel>
    decreases s, 0int,
{
    if s.len() == 0 {
        Seq::empty()
    } else {
        seq![encode_model(s[0])] + encode_seq(s.drop_first())
    }
}

/// The wire encodings of a sequence of named host values, in order.
pub open spec fn encode_pairs(s: Seq<(Seq<char>, HostModel)>) -> Seq<(Seq<char>, ValueModel)>
    decreases s, 0int,
{
    if s.len() == 0 {
        Seq::empty()
    } else {
        seq![(s[0].0, encode_model(s[0].1))] + encode_pairs(s.drop_first())
    }
}

/// `encode_seq` maps the sequence elementwise.
pub proof fn lemma_encode_seq(s: Seq<HostModel>)
    ensures
        encode_seq(s).len() == s.len(),
        forall|i: int| 0 <= i < s.len() ==> encode_seq(s)[i] == encode_model(s[i]),
    decreases s.len(),
{
    if s.len() > 0 {
        lemma_encode_seq(s.drop_first());
        assert forall|i: int| 0 <= i < s.len() implies encode_seq(s)[i] == encode_model(s[i]) by {
            if i > 0 {
                assert(encode_seq(s)[i] == encode_seq(s.drop_first())[i - 1]);
                assert(s.drop_first()[i - 1] == s[i]);
            }
        }
    }
}

/// `encode_pairs` maps the sequence elementwise, keeping names.
pub proof fn lemma_encode_pairs(s: Seq<(Seq<char>, HostModel)>)
    ensures
        encode_pairs(s).len() == s.len(),
        forall|i: int|
            0 <= i < s.len() ==> encode_pairs(s)[i] == (s[i].0, encode_model(s[i].1)),
    decreases s.len(),
{
    if s.len() > 0 {
        lemma_encode_pairs(s.drop_first());
        assert forall|i: int| 0 <= i < s.len() implies encode_pairs(s)[i] == (
            s[i].0,
            encode_model(s[i].1),
        ) by {
            if i > 0 {
                assert(encode_pairs(s)[i] == encode_pairs(s.drop_first())[i - 1]);
                assert(s.drop_first()[i - 1] == s[i]);
            }
        }
    }
}

impl HostValue {
    /// Encodes the host value into its wire value.
    #[verifier::loop_isolation(false)]
    pub fn into_json_value(&self) -> (r: Value)
        ensures
            r@ == encode_model(self@),
        decreases *self,
    {
        match self {
            HostValue::Unit => Value::Null,
            HostValue::Number(n) => Value::Num(*n),
            HostValue::Text(s) => Value::Text(s.clone()),
            HostValue::Flag(b) => Value::Flag(*b),
            HostValue::Sequence(items) => {
                let n = items.len();
                let mut out: Vec<Value> = Vec::new();
                let mut i: usize = 0;
                while i < n
                    invariant
                        0 <= i <= n,
                        out@.len() == i,
                        forall|j: int|
                            0 <= j < i ==> out@[j]@ == encode_model(host_model(items@[j])),
                    decreases n - i,
                {
                    proof {
                        assert(decreases_to!(*self => *items));
                        assert(decreases_to!(*items => items@[i as int]));
                    }
                    let d = items[i].into_json_value();
                    out.push(d);
                    i = i + 1;
                }
                let r = Value::Arr(out);
                proof {
                    lemma_arr_model(out@);
                    lemma_hseq_model(items@);
                    lemma_encode_seq(hseq_model(items@));
                    assert(arr_model(out@) =~= encode_seq(hseq_model(items@)));
                }
                r
            },
            HostValue::OptionalOf(o) => {
                match o {
                    None => Value::Null,
                    Some(b) => {
                        proof {
                            assert(decreases_to!(*self => *o));
                            assert(decreases_to!(*o => **b));
                        }
                        let inner = (**b).into_json_value();
                        inner
                    },
                }
            },
            HostValue::Mapping(pairs) => {
                let n = pairs.len();
                let mut out: Vec<(String, Value)> = Vec::new();
                let mut i: usize = 0;
                while i < n
                    invariant
                        0 <= i <= n,
                        out@.len() == i,
                        forall|j: int|
                            0 <= j < i ==> out@[j].0@ == pairs@[j].0@ && out@[j].1@
                                == encode_model(host_model(pairs@[j].1)),
                    decreases n - i,
                {
                    proof {
                        assert(decreases_to!(*self => *pairs));
                        assert(decreases_to!(*pairs => pairs@[i as int]));
                        assert(decreases_to!(pairs@[i as int] => pairs@[i as int].1));
                    }
                    let key = pairs[i].0.clone();
                    let val = pairs[i].1.into_json_value();
                    out.push((key, val));
                    i = i + 1;
                }
                let r = Value::Obj(out);
                proof {
                    lemma_obj_model(out@);
                    lemma_hpairs_model(pairs@);
                    lemma_encode_pairs(hpairs_model(pairs@));
                    assert(obj_model(out@) =~= encode_pairs(hpairs_model(pairs@)));
                }
                r
            },
            HostValue::Opaque(v) => v.duplicate(),
        }
    }
}

} // verus!
