//! Wire values: the structured payloads that request arguments and responses
//! are made of.
//!
//! `Value` is the executable representation; `ValueModel` is its mathematical
//! model, with sequences for arrays and ordered field lists for objects.
//! Numbers are integral: the surface exposes no floating-point values.

use vstd::prelude::*;

verus! {

/// The mathematical model of a wire value.
#[verifier::ext_equal]
pub enum ValueModel {
    Null,
    Flag(bool),
    Num(int),
    Text(Seq<char>),
    Arr(Seq<ValueModel>),
    Obj(Seq<(Seq<char>, ValueModel)>),
}

/// A structured wire value: null, boolean, integral number, text, array, or
/// an object of ordered named fields.
pub enum Value {
    Null,
    Flag(bool),
    Num(i64),
    Text(String),
    Arr(Vec<Value>),
    Obj(Vec<(String, Value)>),
}

/// The model of a wire value.
pub open spec fn value_model(v: Value) -> ValueModel
    decreases v, 1int,
{
    match v {
        Value::Null => ValueModel::Null,
        Value::Flag(b) => ValueModel::Flag(b),
        Value::Num(n) => ValueModel::Num(n as int),
        Value::Text(s) => ValueModel::Text(s@),
        Value::Arr(_) => ValueModel::Arr(arr_model(v->Arr_0@)),
        Value::Obj(_) => ValueModel::Obj(obj_model(v->Obj_0@)),
    }
}

/// The models of a sequence of wire values, in order.
pub open spec fn arr_model(s: Seq<Value>) -> Seq<ValueModel>
    decreases s, 0int,
{
    if s.len() == 0 {
        Seq::empty()
    } else {
        seq![value_model(s[0])] + arr_model(s.drop_first())
    }
}

/// The models of a sequence of named wire values, in order.
pub open spec fn obj_model(s: Seq<(String, Value)>) -> Seq<(Seq<char>, ValueModel)>
    decreases s, 0int,
{
    if s.len() == 0 {
        Seq::empty()
    } else {
        seq![(s[0].0@, value_model(s[0].1))] + obj_model(s.drop_first())
    }
}

/// `arr_model` maps the sequence elementwise.
pub proof fn lemma_arr_model(s: Seq<Value>)
    ensures
        arr_model(s).len() == s.len(),
        forall|i: int| 0 <= i < s.len() ==> arr_model(s)[i] == value_model(s[i]),
    decreases s.len(),
{
    if s.len() > 0 {
        lemma_arr_model(s.drop_first());
        assert forall|i: int| 0 <= i < s.len() implies arr_model(s)[i] == value_model(s[i]) by {
            if i > 0 {
                assert(arr_model(s)[i] == arr_model(s.drop_first())[i - 1]);
                assert(s.drop_first()[i - 1] == s[i]);
            }
        }
    }
}

/// `obj_model` maps the sequence elementwise, keeping names.
pub proof fn lemma_obj_model(s: Seq<(String, Value)>)
    ensures
        obj_model(s).len() == s.len(),
        forall|i: int|
            0 <= i < s.len() ==> obj_model(s)[i] == (s[i].0@, value_model(s[i].1)),
    decreases s.len(),
{
    if s.len() > 0 {
        lemma_obj_model(s.drop_first());
        assert forall|i: int| 0 <= i < s.len() implies obj_model(s)[i] == (
            s[i].0@,
            value_model(s[i].1),
        ) by {
            if i > 0 {
                assert(obj_model(s)[i] == obj_model(s.drop_first())[i - 1]);
                assert(s.drop_first()[i - 1] == s[i]);
            }
        }
    }
}

impl View for Value {
    type V = ValueModel;

    open spec fn view(&self) -> ValueModel {
        value_model(*self)
    }
}

impl Value {
    /// Builds a structurally identical copy of the value.
    #[verifier::loop_isolation(false)]
    pub fn duplicate(&self) -> (r: Value)
        ensures
            r@ == self@,
        decreases *self,
    {
        match self {
            Value::Null => Value::Null,
            Value::Flag(b) => Value::Flag(*b),
            Value::Num(n) => Value::Num(*n),
            Value::Text(s) => Value::Text(s.clone()),
            Value::Arr(items) => {
                let n = items.len();
                let mut out: Vec<Value> = Vec::new();
                let mut i: usize = 0;
                while i < n
                    invariant
                        0 <= i <= n,
                        out@.len() == i,
                        forall|j: int| 0 <= j < i ==> out@[j]@ == value_model(items@[j]),
                    decreases n - i,
                {
                    proof {
                        assert(decreases_to!(*self => *items));
                        assert(decreases_to!(*items => items@[i as int]));
                    }
                    let d = items[i].duplicate();
                    out.push(d);
                    i = i + 1;
                }
                let r = Value::Arr(out);
                proof {
                    lemma_arr_model(out@);
                    lemma_arr_model(items@);
                    assert(arr_model(out@) =~= arr_model(items@));
                }
                r
            },
            Value::Obj(fields) => {
                let n = fields.len();
                let mut out: Vec<(String, Value)> = Vec::new();
                let mut i: usize = 0;
                while i < n
                    invariant
                        0 <= i <= n,
                        out@.len() == i,
                        forall|j: int|
                            0 <= j < i ==> out@[j].0@ == fields@[j].0@ && out@[j].1@
                                == value_model(fields@[j].1),
                    decreases n - i,
                {
                    proof {
                        assert(decreases_to!(*self => *fields));
                        assert(decreases_to!(*fields => fields@[i as int]));
                        assert(decreases_to!(fields@[i as int] => fields@[i as int].1));
                    }
                    let key = fields[i].0.clone();
                    let val = fields[i].1.duplicate();
                    out.push((key, val));
                    i = i + 1;
                }
                let r = Value::Obj(out);
                proof {
                    lemma_obj_model(out@);
                    lemma_obj_model(fields@);
                    assert(obj_model(out@) =~= obj_model(fields@));
                }
                r
            },
        }
    }
}

} // verus!
