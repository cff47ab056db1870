//! JSON values by their contents, and their comparison.
//!
//! Values are compared by their contents. Values in canonical form (`json_canonical`: object
//! entries in strictly increasing key order, as a JSON map with sorted keys writes them, and
//! numbers by their shortest text) are equal as JSON exactly when their contents are.
use vstd::prelude::*;
use crate::catalog::Json;
use crate::text::str_eq;
use crate::references::text_lt;

verus! {

/// A JSON value by its contents.
pub enum JsonValue {
    /// `null`.
    Null,
    /// A boolean.
    Bool(bool),
    /// A number, by its text.
    Number(Seq<char>),
    /// A string.
    Str(Seq<char>),
    /// An array.
    Array(Seq<JsonValue>),
    /// An object, by its entries in order.
    Object(Seq<(Seq<char>, JsonValue)>),
}

/// The contents of a JSON value.
pub open spec fn json_value(j: Json) -> JsonValue
    decreases j, 0nat,
{
    match j {
        Json::Null => JsonValue::Null,
        Json::Bool(b) => JsonValue::Bool(b),
        Json::Number(n) => JsonValue::Number(n@),
        Json::Str(s) => JsonValue::Str(s@),
        Json::Array(items) => JsonValue::Array(json_values(items@, items@.len() as int)),
        Json::Object(entries) => JsonValue::Object(json_entries(entries@, entries@.len() as int)),
    }
}

/// The contents of the first `n` items.
pub open spec fn json_values(items: Seq<Json>, n: int) -> Seq<JsonValue>
    decreases items, n,
{
    if n <= 0 || n > items.len() {
        Seq::empty()
    } else {
        json_values(items, n - 1).push(json_value(items[n - 1]))
    }
}

/// The contents of the first `n` entries.
pub open spec fn json_entries(entries: Seq<(String, Json)>, n: int) -> Seq<(Seq<char>, JsonValue)>
    decreases entries, n,
{
    if n <= 0 || n > entries.len() {
        Seq::empty()
    } else {
        json_entries(entries, n - 1).push((entries[n - 1].0@, json_value(entries[n - 1].1)))
    }
}

/// Whether a value is in canonical form: the keys of every object strictly increase, in the
/// order of `String`.
pub open spec fn json_canonical(v: JsonValue) -> bool
    decreases v,
{
    match v {
        JsonValue::Array(items) => forall|i: int| 0 <= i < items.len() ==> json_canonical(#[trigger] items[i]),
        JsonValue::Object(entries) => {
            &&& forall|i: int, j: int|
                0 <= i < j < entries.len() ==> text_lt(#[trigger] entries[i].0, #[trigger] entries[j].0)
            &&& forall|i: int| 0 <= i < entries.len() ==> json_canonical(#[trigger] entries[i].1)
        },
        _ => true,
    }
}

/// The contents of the first `n` items, item by item.
pub proof fn lemma_json_values(items: Seq<Json>, n: int)
    requires
        0 <= n <= items.len(),
    ensures
        json_values(items, n).len() == n,
        forall|k: int| 0 <= k < n ==> #[trigger] json_values(items, n)[k] == json_value(items[k]),
    decreases n,
{
    if n > 0 {
        lemma_json_values(items, n - 1);
    }
}

/// The contents of the first `n` entries, entry by entry.
pub proof fn lemma_json_entries(entries: Seq<(String, Json)>, n: int)
    requires
        0 <= n <= entries.len(),
    ensures
        json_entries(entries, n).len() == n,
        forall|k: int|
            0 <= k < n ==> #[trigger] json_entries(entries, n)[k] == (entries[k].0@, json_value(entries[k].1)),
    decreases n,
{
    if n > 0 {
        lemma_json_entries(entries, n - 1);
    }
}

/// Whether two JSON values have the same contents.
pub fn json_equal(a: &Json, b: &Json) -> (r: bool)
    ensures
        r == (json_value(*a) == json_value(*b)),
    decreases a,
{
    match (a, b) {
        (Json::Null, Json::Null) => true,
        (Json::Bool(x), Json::Bool(y)) => *x == *y,
        (Json::Number(x), Json::Number(y)) => str_eq(x.as_str(), y.as_str()),
        (Json::Str(x), Json::Str(y)) => str_eq(x.as_str(), y.as_str()),
        (Json::Array(xs), Json::Array(ys)) => {
            proof {
                lemma_json_values(xs@, xs@.len() as int);
                lemma_json_values(ys@, ys@.len() as int);
            }
            if xs.len() != ys.len() {
                return false;
            }
            let n = xs.len();
            let mut i: usize = 0;
            while i < n
                invariant
                    *a == Json::Array(*xs),
                    *b == Json::Array(*ys),
                    n == xs@.len(),
                    n == ys@.len(),
                    i <= n,
                    forall|k: int| 0 <= k < i ==> json_value(#[trigger] xs@[k]) == json_value(ys@[k]),
                decreases n - i,
            {
                proof {
                        assert(decreases_to!(*a => *xs));
                        vstd::std_specs::vec::axiom_vec_index_decreases(*xs, i as int);
                }
                if !json_equal(&xs[i], &ys[i]) {
                    proof {
                        lemma_json_values(xs@, n as int);
                        lemma_json_values(ys@, n as int);
                    }
                    assert(json_values(xs@, n as int)[i as int] != json_values(ys@, n as int)[i as int]);
                    return false;
                }
                i += 1;
            }
            proof {
                lemma_json_values(xs@, n as int);
                lemma_json_values(ys@, n as int);
            }
            assert(json_values(xs@, n as int) =~= json_values(ys@, n as int));
            true
        },
        (Json::Object(xs), Json::Object(ys)) => {
            proof {
                lemma_json_entries(xs@, xs@.len() as int);
                lemma_json_entries(ys@, ys@.len() as int);
            }
            if xs.len() != ys.len() {
                return false;
            }
            let n = xs.len();
            let mut i: usize = 0;
            while i < n
                invariant
                    *a == Json::Object(*xs),
                    *b == Json::Object(*ys),
                    n == xs@.len(),
                    n == ys@.len(),
                    i <= n,
                    forall|k: int|
                        0 <= k < i ==> (#[trigger] xs@[k]).0@ == ys@[k].0@ && json_value(xs@[k].1) == json_value(
                            ys@[k].1,
                        ),
                decreases n - i,
            {
                proof {
                    assert(decreases_to!(*a => *xs));
                    vstd::std_specs::vec::axiom_vec_index_decreases(*xs, i as int);
                }
                let same_key = str_eq(xs[i].0.as_str(), ys[i].0.as_str());
                if !same_key || !json_equal(&xs[i].1, &ys[i].1) {
                    proof {
                        lemma_json_entries(xs@, n as int);
                        lemma_json_entries(ys@, n as int);
                    }
                    assert(json_entries(xs@, n as int)[i as int] != json_entries(ys@, n as int)[i as int]);
                    return false;
                }
                i += 1;
            }
            proof {
                lemma_json_entries(xs@, n as int);
                lemma_json_entries(ys@, n as int);
            }
            assert(json_entries(xs@, n as int) =~= json_entries(ys@, n as int));
            true
        },
        _ => false,
    }
}

} // verus!
