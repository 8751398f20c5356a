//! The JSON values that the command-line client prints: an executable tree
//! (`JsonValue`) and its mathematical model (`Json`).
//!
//! Numbers are carried as `serde_json` numbers, which the logic here never
//! reads; object members keep their order, as the output does.

use vstd::prelude::*;

verus! {

#[verifier::external_type_specification]
#[verifier::external_body]
pub struct ExNumber(serde_json::Number);

/// Calls `Clone::clone` of `serde_json::Number`, which is derived: the copy
/// holds the same number as the original.
#[verifier::external_body]
fn clone_number(n: &serde_json::Number) -> (r: serde_json::Number)
    ensures
        r == *n,
{
    n.clone()
}

/// The model of a JSON value. An object is its member names and member
/// values, index by index.
#[verifier::ext_equal]
pub enum Json {
    Null,
    Bool(bool),
    Number(serde_json::Number),
    Str(Seq<char>),
    Array(Seq<Json>),
    Object { keys: Seq<Seq<char>>, values: Seq<Json> },
}

/// A JSON value as the program holds it.
#[derive(Debug, PartialEq, Eq)]
pub enum JsonValue {
    Null,
    Bool(bool),
    /// A number (such as `42` or `-1.5`).
    Number(serde_json::Number),
    Str(String),
    Array(Vec<JsonValue>),
    /// An object, by its members in order.
    Object(Vec<(String, JsonValue)>),
}

/// The member names of an object's entries.
pub open spec fn entry_keys(entries: Seq<(String, JsonValue)>) -> Seq<Seq<char>> {
    Seq::new(entries.len(), |i: int| entries[i].0@)
}

impl View for JsonValue {
    type V = Json;

    open spec fn view(&self) -> Json
        decreases self,
    {
        match self {
            JsonValue::Null => Json::Null,
            JsonValue::Bool(b) => Json::Bool(*b),
            JsonValue::Number(n) => Json::Number(*n),
            JsonValue::Str(s) => Json::Str(s@),
            JsonValue::Array(items) => Json::Array(
                Seq::new(
                    items@.len(),
                    |i: int|
                        if 0 <= i < items@.len() {
                            proof {
                                broadcast use vstd::std_specs::vec::axiom_vec_decreases_to_view;

                                assert(decreases_to!(items => items@));
                            }
                            items@[i].view()
                        } else {
                            Json::Null
                        },
                ),
            ),
            JsonValue::Object(entries) => Json::Object {
                keys: entry_keys(entries@),
                values: Seq::new(
                    entries@.len(),
                    |i: int|
                        if 0 <= i < entries@.len() {
                            proof {
                                broadcast use vstd::std_specs::vec::axiom_vec_decreases_to_view;

                                assert(decreases_to!(entries => entries@));
                            }
                            entries@[i].1.view()
                        } else {
                            Json::Null
                        },
                ),
            },
        }
    }
}

/// The model of an array holds the models of its items.
pub proof fn lemma_view_array(v: JsonValue)
    requires
        v is Array,
    ensures
        v@ is Array,
        v@->Array_0.len() == v->Array_0@.len(),
        forall|j: int|
            0 <= j < v->Array_0@.len() ==> #[trigger] v@->Array_0[j] == v->Array_0@[j]@,
{
}

/// The model of an object holds the names and the models of the values of
/// its entries.
pub proof fn lemma_view_object(v: JsonValue)
    requires
        v is Object,
    ensures
        v@ is Object,
        v@->keys == entry_keys(v->Object_0@),
        v@->keys.len() == v->Object_0@.len(),
        v@->values.len() == v->Object_0@.len(),
        forall|j: int|
            0 <= j < v->Object_0@.len() ==> #[trigger] v@->values[j] == v->Object_0@[j].1@,
        forall|j: int|
            0 <= j < v->Object_0@.len() ==> #[trigger] v@->keys[j] == v->Object_0@[j].0@,
{
}

impl JsonValue {
    /// A copy of this value, equal to it in every member.
    #[verifier::loop_isolation(false)]
    pub fn deep_copy(&self) -> (r: JsonValue)
        ensures
            r@ == self@,
        decreases self,
    {
        broadcast use vstd::std_specs::vec::axiom_vec_decreases_to_view;

        match self {
            JsonValue::Null => JsonValue::Null,
            JsonValue::Bool(b) => JsonValue::Bool(*b),
            JsonValue::Number(n) => JsonValue::Number(clone_number(n)),
            JsonValue::Str(s) => JsonValue::Str(s.clone()),
            JsonValue::Array(items) => {
                let mut out: Vec<JsonValue> = Vec::new();
                let mut i: usize = 0;
                while i < items.len()
                    invariant
                        i <= items@.len(),
                        out@.len() == i,
                        forall|j: int| 0 <= j < i ==> #[trigger] out@[j]@ == items@[j]@,
                    decreases items@.len() - i,
                {
                    proof {
                        assert(decreases_to!(items => items@));
                    }
                    let c = items[i].deep_copy();
                    out.push(c);
                    i = i + 1;
                }
                let r = JsonValue::Array(out);
                proof {
                    lemma_view_array(r);
                    lemma_view_array(*self);
                }
                assert(r@->Array_0 =~= self@->Array_0);
                r
            },
            JsonValue::Object(entries) => {
                let mut out: Vec<(String, JsonValue)> = Vec::new();
                let mut i: usize = 0;
                while i < entries.len()
                    invariant
                        i <= entries@.len(),
                        out@.len() == i,
                        forall|j: int|
                            #![trigger out@[j]]
                            0 <= j < i ==> out@[j].0@ == entries@[j].0@ && out@[j].1@
                                == entries@[j].1@,
                    decreases entries@.len() - i,
                {
                    proof {
                        assert(decreases_to!(entries => entries@));
                    }
                    let k = entries[i].0.clone();
                    let c = entries[i].1.deep_copy();
                    out.push((k, c));
                    i = i + 1;
                }
                let r = JsonValue::Object(out);
                proof {
                    lemma_view_object(r);
                    lemma_view_object(*self);
                }
                assert(r@->keys =~= self@->keys);
                assert(r@->values =~= self@->values);
                r
            },
        }
    }
}

} // verus!
