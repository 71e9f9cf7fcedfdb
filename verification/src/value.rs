//! The JSON-like value model: the tagged union stored for every setting and
//! for every metadata entry, together with its mathematical view.

use vstd::prelude::*;
use crate::strings::str_eq;

verus! {

/// Mathematical model of a [`Value`]: the same tagged union over `Seq`s.
pub enum ValueView {
    Null,
    Bool(bool),
    Number(i64),
    String(Seq<char>),
    Array(Seq<ValueView>),
    Object(Seq<(Seq<char>, ValueView)>),
}

/// A value held by the datastore: a JSON-like tagged union.  The built-in
/// migrations only ever interpret the `String` and `Array`-of-`String` shapes;
/// every other shape passes through operators untouched.
#[derive(Debug)]
pub enum Value {
    Null,
    Bool(bool),
    Number(i64),
    String(String),
    Array(Vec<Value>),
    Object(Vec<(String, Value)>),
}

/// The views of the values in `s`, in order.
pub open spec fn values_view(s: Seq<Value>) -> Seq<ValueView>
    decreases s,
{
    if s.len() == 0 {
        Seq::empty()
    } else {
        proof {
            assert(decreases_to!(s => s[s.len() - 1]));
            assert(decreases_to!(s => s.subrange(0, s.len() - 1)));
        }
        values_view(s.drop_last()).push(s.last().to_view())
    }
}

/// The views of the key/value pairs in `s`, in order.
pub open spec fn pairs_view(s: Seq<(String, Value)>) -> Seq<(Seq<char>, ValueView)>
    decreases s,
{
    if s.len() == 0 {
        Seq::empty()
    } else {
        proof {
            assert(decreases_to!(s => s[s.len() - 1]));
            assert(decreases_to!(s => s.subrange(0, s.len() - 1)));
        }
        pairs_view(s.drop_last()).push((s.last().0@, s.last().1.to_view()))
    }
}

/// `values_view` maps the sequence elementwise.
pub broadcast proof fn lemma_values_view(s: Seq<Value>)
    ensures
        #![trigger values_view(s)]
        values_view(s).len() == s.len(),
        forall|i: int| 0 <= i < s.len() ==> values_view(s)[i] == s[i].to_view(),
    decreases s.len(),
{
    if s.len() > 0 {
        lemma_values_view(s.drop_last());
    }
}

/// `pairs_view` maps the sequence elementwise.
pub broadcast proof fn lemma_pairs_view(s: Seq<(String, Value)>)
    ensures
        #![trigger pairs_view(s)]
        pairs_view(s).len() == s.len(),
        forall|i: int| 0 <= i < s.len() ==> pairs_view(s)[i] == (s[i].0@, s[i].1.to_view()),
    decreases s.len(),
{
    if s.len() > 0 {
        lemma_pairs_view(s.drop_last());
    }
}

impl Value {
    /// The mathematical value that this executable value models.
    pub open spec fn to_view(self) -> ValueView
        decreases self,
    {
        match self {
            Value::Null => ValueView::Null,
            Value::Bool(b) => ValueView::Bool(b),
            Value::Number(n) => ValueView::Number(n),
            Value::String(s) => ValueView::String(s@),
            Value::Array(a) => {
                proof {
                    assert(decreases_to!(a => a@));
                }
                ValueView::Array(values_view(a@))
            },
            Value::Object(o) => {
                proof {
                    assert(decreases_to!(o => o@));
                }
                ValueView::Object(pairs_view(o@))
            },
        }
    }
}

impl View for Value {
    type V = ValueView;

    open spec fn view(&self) -> ValueView {
        self.to_view()
    }
}

impl Value {
    /// Structural equality: the two values model the same `ValueView`.
    #[verifier::loop_isolation(false)]
    pub fn deep_eq(&self, other: &Value) -> (r: bool)
        ensures
            r == (self@ == other@),
        decreases self,
    {
        broadcast use {lemma_values_view, lemma_pairs_view};

        match (self, other) {
            (Value::Null, Value::Null) => true,
            (Value::Bool(a), Value::Bool(b)) => *a == *b,
            (Value::Number(a), Value::Number(b)) => *a == *b,
            (Value::String(a), Value::String(b)) => str_eq(a.as_str(), b.as_str()),
            (Value::Array(a), Value::Array(b)) => {
                if a.len() != b.len() {
                    proof {
                        assert(self@ == ValueView::Array(values_view(a@)));
                        assert(other@ == ValueView::Array(values_view(b@)));
                        assert(values_view(a@).len() != values_view(b@).len());
                    }
                    return false;
                }
                let mut i: usize = 0;
                while i < a.len()
                    invariant
                        a@.len() == b@.len(),
                        i <= a@.len(),
                        forall|j: int| 0 <= j < i ==> a@[j]@ == b@[j]@,
                    decreases a@.len() - i,
                {
                    if !a[i].deep_eq(&b[i]) {
                        proof {
                            assert(values_view(a@)[i as int] != values_view(b@)[i as int]);
                        }
                        return false;
                    }
                    i = i + 1;
                }
                proof {
                    assert(values_view(a@) =~= values_view(b@));
                }
                true
            },
            (Value::Object(a), Value::Object(b)) => {
                if a.len() != b.len() {
                    proof {
                        assert(self@ == ValueView::Object(pairs_view(a@)));
                        assert(other@ == ValueView::Object(pairs_view(b@)));
                        assert(pairs_view(a@).len() != pairs_view(b@).len());
                    }
                    return false;
                }
                let mut i: usize = 0;
                while i < a.len()
                    invariant
                        a@.len() == b@.len(),
                        i <= a@.len(),
                        forall|j: int| 0 <= j < i ==> a@[j].0@ == b@[j].0@ && a@[j].1@ == b@[j].1@,
                    decreases a@.len() - i,
                {
                    let ea = &a[i];
                    let eb = &b[i];
                    if !str_eq(ea.0.as_str(), eb.0.as_str()) || !ea.1.deep_eq(&eb.1) {
                        proof {
                            assert(pairs_view(a@)[i as int] != pairs_view(b@)[i as int]);
                        }
                        return false;
                    }
                    i = i + 1;
                }
                proof {
                    assert(pairs_view(a@) =~= pairs_view(b@));
                }
                true
            },
            _ => false,
        }
    }
}

impl Clone for Value {
    /// A clone models the same `ValueView` as the value it was cloned from.
    #[verifier::loop_isolation(false)]
    fn clone(&self) -> (r: Value)
        ensures
            r@ == self@,
        decreases self,
    {
        broadcast use {lemma_values_view, lemma_pairs_view};

        match self {
            Value::Null => Value::Null,
            Value::Bool(b) => Value::Bool(*b),
            Value::Number(n) => Value::Number(*n),
            Value::String(s) => Value::String(s.clone()),
            Value::Array(a) => {
                let mut out: Vec<Value> = Vec::new();
                let mut i: usize = 0;
                while i < a.len()
                    invariant
                        i <= a@.len(),
                        out@.len() == i,
                        forall|j: int| 0 <= j < i ==> out@[j]@ == a@[j]@,
                    decreases a@.len() - i,
                {
                    out.push(a[i].clone());
                    i = i + 1;
                }
                proof {
                    assert(values_view(out@) =~= values_view(a@));
                }
                Value::Array(out)
            },
            Value::Object(o) => {
                let mut out: Vec<(String, Value)> = Vec::new();
                let mut i: usize = 0;
                while i < o.len()
                    invariant
                        i <= o@.len(),
                        out@.len() == i,
                        forall|j: int| 0 <= j < i ==> out@[j].0@ == o@[j].0@ && out@[j].1@
                            == o@[j].1@,
                    decreases o@.len() - i,
                {
                    let e = &o[i];
                    out.push((e.0.clone(), e.1.clone()));
                    i = i + 1;
                }
                proof {
                    assert(pairs_view(out@) =~= pairs_view(o@));
                }
                Value::Object(out)
            },
        }
    }
}

} // verus!
