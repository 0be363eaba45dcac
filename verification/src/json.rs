//! JSON values, as they stand in the parameters of event commands.
//!
//! Numbers are kept the way JSON readers keep them: integers that fit an
//! `i64`, larger non-negative integers as `u64`, and other numbers as their
//! decimal text. Object entries keep the order in which they were given.
use vstd::prelude::*;

verus! {

/// A JSON value.
#[derive(Debug, PartialEq)]
pub enum JsonValue {
    Null,
    Bool(bool),
    /// An integer that fits an `i64`.
    Int(i64),
    /// A non-negative integer above `i64::MAX`.
    UInt(u64),
    /// Any other number, by its text.
    Float { text: String },
    String(String),
    Array(Vec<JsonValue>),
    Object(Vec<(String, JsonValue)>),
}

/// The abstract value of a JSON value.
pub enum JsonView {
    Null,
    Bool(bool),
    Int(i64),
    UInt(u64),
    Float(Seq<char>),
    Str(Seq<char>),
    Array(Seq<JsonView>),
    Object(Seq<(Seq<char>, JsonView)>),
}

/// The abstract value of a JSON value.
pub open spec fn json_view(v: JsonValue) -> JsonView
    decreases v,
{
    match v {
        JsonValue::Null => JsonView::Null,
        JsonValue::Bool(b) => JsonView::Bool(b),
        JsonValue::Int(i) => JsonView::Int(i),
        JsonValue::UInt(u) => JsonView::UInt(u),
        JsonValue::Float { text } => JsonView::Float(text@),
        JsonValue::String(s) => JsonView::Str(s@),
        JsonValue::Array(a) => JsonView::Array(json_views(a@)),
        JsonValue::Object(o) => JsonView::Object(entry_views(o@)),
    }
}

/// The abstract values of a sequence of JSON values.
pub open spec fn json_views(s: Seq<JsonValue>) -> Seq<JsonView>
    decreases s,
{
    if s.len() == 0 {
        seq![]
    } else {
        json_views(s.drop_last()).push(json_view(s.last()))
    }
}

/// The abstract values of a sequence of object entries.
pub open spec fn entry_views(s: Seq<(String, JsonValue)>) -> Seq<(Seq<char>, JsonView)>
    decreases s,
{
    if s.len() == 0 {
        seq![]
    } else {
        entry_views(s.drop_last()).push((s.last().0@, json_view(s.last().1)))
    }
}

impl View for JsonValue {
    type V = JsonView;

    open spec fn view(&self) -> JsonView {
        json_view(*self)
    }
}

/// The length and elements of [`json_views`].
pub proof fn lemma_json_views(s: Seq<JsonValue>)
    ensures
        json_views(s).len() == s.len(),
        forall|i: int| 0 <= i < s.len() ==> #[trigger] json_views(s)[i] == json_view(s[i]),
    decreases s.len(),
{
    if s.len() > 0 {
        lemma_json_views(s.drop_last());
    }
}

/// The length and elements of [`entry_views`].
pub proof fn lemma_entry_views(s: Seq<(String, JsonValue)>)
    ensures
        entry_views(s).len() == s.len(),
        forall|i: int|
            0 <= i < s.len() ==> #[trigger] entry_views(s)[i] == (s[i].0@, json_view(s[i].1)),
    decreases s.len(),
{
    if s.len() > 0 {
        lemma_entry_views(s.drop_last());
    }
}

/// What `as_i64` gives: the integer, where it fits an `i64`.
pub open spec fn view_as_i64(v: JsonView) -> Option<i64> {
    match v {
        JsonView::Int(i) => Some(i),
        JsonView::UInt(u) => if u <= i64::MAX {
            Some(u as i64)
        } else {
            None
        },
        _ => None,
    }
}

/// What `as_str` gives: the text of a string.
pub open spec fn view_as_str(v: JsonView) -> Option<Seq<char>> {
    match v {
        JsonView::Str(s) => Some(s),
        _ => None,
    }
}

/// What `as_bool` gives: the value of a boolean.
pub open spec fn view_as_bool(v: JsonView) -> Option<bool> {
    match v {
        JsonView::Bool(b) => Some(b),
        _ => None,
    }
}

impl JsonValue {
    /// The integer, where it fits an `i64`.
    pub fn as_i64(&self) -> (r: Option<i64>)
        ensures
            r == view_as_i64(self@),
    {
        match self {
            JsonValue::Int(i) => Some(*i),
            JsonValue::UInt(u) => if *u <= 9223372036854775807u64 {
                Some(*u as i64)
            } else {
                None
            },
            _ => None,
        }
    }

    /// The text of a string.
    pub fn as_str(&self) -> (r: Option<&String>)
        ensures
            match r {
                Some(s) => view_as_str(self@) == Some(s@),
                None => view_as_str(self@) is None,
            },
    {
        match self {
            JsonValue::String(s) => Some(s),
            _ => None,
        }
    }

    /// The value of a boolean.
    pub fn as_bool(&self) -> (r: Option<bool>)
        ensures
            r == view_as_bool(self@),
    {
        match self {
            JsonValue::Bool(b) => Some(*b),
            _ => None,
        }
    }
}

/// A deep copy of a JSON value.
#[verifier::loop_isolation(false)]
pub fn clone_json(v: &JsonValue) -> (r: JsonValue)
    ensures
        r@ == v@,
    decreases v,
{
    match v {
        JsonValue::Null => JsonValue::Null,
        JsonValue::Bool(b) => JsonValue::Bool(*b),
        JsonValue::Int(i) => JsonValue::Int(*i),
        JsonValue::UInt(u) => JsonValue::UInt(*u),
        JsonValue::Float { text } => JsonValue::Float { text: text.clone() },
        JsonValue::String(s) => JsonValue::String(s.clone()),
        JsonValue::Array(a) => {
            let mut out: Vec<JsonValue> = Vec::new();
            let mut i: usize = 0;
            while i < a.len()
                invariant
                    i <= a@.len(),
                    out@.len() == i,
                    forall|j: int| 0 <= j < i ==> json_view(#[trigger] out@[j]) == json_view(a@[j]),
                decreases a@.len() - i,
            {
                assert(decreases_to!(v => a));
                assert(decreases_to!(a => a@));
                assert(decreases_to!(a@ => a@[i as int]));
                let e = clone_json(&a[i]);
                out.push(e);
                i = i + 1;
            }
            proof {
                lemma_json_views(a@);
                lemma_json_views(out@);
                assert(json_views(out@) =~= json_views(a@));
            }
            JsonValue::Array(out)
        },
        JsonValue::Object(o) => {
            let mut out: Vec<(String, JsonValue)> = Vec::new();
            let mut i: usize = 0;
            while i < o.len()
                invariant
                    i <= o@.len(),
                    out@.len() == i,
                    forall|j: int|
                        0 <= j < i ==> (#[trigger] out@[j]).0@ == o@[j].0@ && json_view(out@[j].1)
                            == json_view(o@[j].1),
                decreases o@.len() - i,
            {
                assert(decreases_to!(v => o));
                assert(decreases_to!(o => o@));
                assert(decreases_to!(o@ => o@[i as int]));
                assert(decreases_to!(o@[i as int] => o@[i as int].1));
                let value = clone_json(&o[i].1);
                out.push((o[i].0.clone(), value));
                i = i + 1;
            }
            proof {
                lemma_entry_views(o@);
                lemma_entry_views(out@);
                assert(entry_views(out@) =~= entry_views(o@));
            }
            JsonValue::Object(out)
        },
    }
}

/// Whether two JSON values are equal.
#[verifier::loop_isolation(false)]
pub fn json_eq(a: &JsonValue, b: &JsonValue) -> (r: bool)
    ensures
        r == (a@ == b@),
    decreases a,
{
    match (a, b) {
        (JsonValue::Null, JsonValue::Null) => true,
        (JsonValue::Bool(x), JsonValue::Bool(y)) => *x == *y,
        (JsonValue::Int(x), JsonValue::Int(y)) => *x == *y,
        (JsonValue::UInt(x), JsonValue::UInt(y)) => *x == *y,
        (JsonValue::Float { text: x }, JsonValue::Float { text: y }) => *x == *y,
        (JsonValue::String(x), JsonValue::String(y)) => *x == *y,
        (JsonValue::Array(x), JsonValue::Array(y)) => {
            proof {
                lemma_json_views(x@);
                lemma_json_views(y@);
            }
            if x.len() != y.len() {
                return false;
            }
            let mut i: usize = 0;
            while i < x.len()
                invariant
                    i <= x@.len(),
                    x@.len() == y@.len(),
                    json_views(x@).len() == x@.len(),
                    json_views(y@).len() == y@.len(),
                    forall|j: int| 0 <= j < x@.len() ==> #[trigger] json_views(x@)[j] == json_view(x@[j]),
                    forall|j: int| 0 <= j < y@.len() ==> #[trigger] json_views(y@)[j] == json_view(y@[j]),
                    forall|j: int| 0 <= j < i ==> json_view(x@[j]) == json_view(y@[j]),
                decreases x@.len() - i,
            {
                assert(decreases_to!(a => x));
                assert(decreases_to!(x => x@));
                assert(decreases_to!(x@ => x@[i as int]));
                if !json_eq(&x[i], &y[i]) {
                    assert(json_views(x@)[i as int] != json_views(y@)[i as int]);
                    return false;
                }
                i = i + 1;
            }
            assert(json_views(x@) =~= json_views(y@));
            true
        },
        (JsonValue::Object(x), JsonValue::Object(y)) => {
            proof {
                lemma_entry_views(x@);
                lemma_entry_views(y@);
            }
            if x.len() != y.len() {
                return false;
            }
            let mut i: usize = 0;
            while i < x.len()
                invariant
                    i <= x@.len(),
                    x@.len() == y@.len(),
                    entry_views(x@).len() == x@.len(),
                    entry_views(y@).len() == y@.len(),
                    forall|j: int|
                        0 <= j < x@.len() ==> #[trigger] entry_views(x@)[j] == (
                            x@[j].0@,
                            json_view(x@[j].1),
                        ),
                    forall|j: int|
                        0 <= j < y@.len() ==> #[trigger] entry_views(y@)[j] == (
                            y@[j].0@,
                            json_view(y@[j].1),
                        ),
                    forall|j: int|
                        0 <= j < i ==> x@[j].0@ == y@[j].0@ && json_view(x@[j].1) == json_view(
                            y@[j].1,
                        ),
                decreases x@.len() - i,
            {
                if !(x[i].0 == y[i].0) {
                    assert(entry_views(x@)[i as int] != entry_views(y@)[i as int]);
                    return false;
                }
                assert(decreases_to!(a => x));
                assert(decreases_to!(x => x@));
                assert(decreases_to!(x@ => x@[i as int]));
                assert(decreases_to!(x@[i as int] => x@[i as int].1));
                if !json_eq(&x[i].1, &y[i].1) {
                    assert(entry_views(x@)[i as int] != entry_views(y@)[i as int]);
                    return false;
                }
                i = i + 1;
            }
            assert(entry_views(x@) =~= entry_views(y@));
            true
        },
        _ => false,
    }
}

} // verus!
