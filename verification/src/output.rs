//! Output shaping: the `--fields` projection of JSON results, the JSON
//! envelope of errors, and their JSON text, compact by default and indented
//! with `--pretty`. Stdout always carries JSON, stderr the error envelope;
//! printing them is the caller's part.

use vstd::prelude::*;
use crate::errors::{ErrorModel, PostHogError};
use crate::json::{entry_keys, lemma_view_array, lemma_view_object, Json, JsonValue};
use crate::text::{opt_chars, chars_of, lemma_split_on_len, split_on, trim_range, trimmed};

verus! {

/// How results are printed: indented or compact, and which fields of an
/// object (or of each object of an array) are kept.
#[derive(Debug, Clone)]
pub struct OutputOptions {
    pub pretty: bool,
    /// Comma-separated list of fields to project from object/array-of-object outputs.
    pub fields: Option<String>,
}

impl Default for OutputOptions {
    fn default() -> (r: Self)
        ensures
            !r.pretty,
            r.fields is None,
    {
        OutputOptions { pretty: false, fields: None }
    }
}

/// The characters of each string of a list.
pub open spec fn views(v: Seq<String>) -> Seq<Seq<char>> {
    Seq::new(v.len(), |i: int| v[i]@)
}

/// The characters of an optional string slice.
pub open spec fn opt_str_chars(o: Option<&str>) -> Option<Seq<char>> {
    match o {
        Some(s) => Some(s@),
        None => None,
    }
}

/// The non-empty pieces among `pieces`, each without surrounding white space.
pub open spec fn trimmed_non_empty(pieces: Seq<Seq<char>>) -> Seq<Seq<char>>
    decreases pieces.len(),
{
    if pieces.len() == 0 {
        Seq::empty()
    } else {
        let rest = trimmed_non_empty(pieces.drop_last());
        let t = trimmed(pieces.last());
        if t.len() > 0 {
            rest.push(t)
        } else {
            rest
        }
    }
}

/// The field names of a `--fields` list: the comma-separated pieces, each
/// trimmed, the empty ones dropped.
pub open spec fn field_names(raw: Seq<char>) -> Seq<Seq<char>> {
    trimmed_non_empty(split_on(raw, ','))
}

/// Reads a `--fields` list such as `" a , c "` into its field names (`a`, `c`).
pub fn field_list(raw: &str) -> (r: Vec<String>)
    ensures
        views(r@) == field_names(raw@),
{
    let cs = chars_of(raw);
    let mut out: Vec<String> = Vec::new();
    let mut start: usize = 0;
    let mut i: usize = 0;
    proof {
        lemma_split_on_len(cs@.take(0), ',');
        assert(split_on(cs@.take(0), ',') =~= seq![Seq::<char>::empty()]);
        assert(views(out@) =~= trimmed_non_empty(split_on(cs@.take(0), ',').drop_last()));
    }
    while i < cs.len()
        invariant
            cs@ == raw@,
            start <= i <= cs@.len(),
            split_on(cs@.take(i as int), ',').len() >= 1,
            split_on(cs@.take(i as int), ',').last() == cs@.subrange(start as int, i as int),
            views(out@) == trimmed_non_empty(split_on(cs@.take(i as int), ',').drop_last()),
        decreases cs@.len() - i,
    {
        let ghost sp = split_on(cs@.take(i as int), ',');
        let ghost next = cs@.take(i + 1);
        assert(next.drop_last() =~= cs@.take(i as int));
        assert(next.last() == cs@[i as int]);
        if cs[i] == ',' {
            let t = trim_range(&cs, start, i);
            let ghost before = out@;
            if !t.as_str().is_empty() {
                out.push(t);
                assert(views(out@) =~= views(before).push(t@));
            }
            proof {
                assert(split_on(next, ',') == sp.push(Seq::empty()));
                assert(split_on(next, ',').drop_last() =~= sp);
                assert(sp.drop_last().push(sp.last()) =~= sp);
            }
            start = i + 1;
            proof {
                assert(cs@.subrange(start as int, (i + 1) as int) =~= Seq::<char>::empty());
            }
        } else {
            proof {
                let sp2 = split_on(next, ',');
                assert(sp2 == sp.update(sp.len() - 1, sp.last().push(cs@[i as int])));
                assert(sp2.drop_last() =~= sp.drop_last());
                assert(sp2.last() =~= cs@.subrange(start as int, (i + 1) as int));
            }
        }
        i = i + 1;
    }
    let ghost sp = split_on(cs@.take(i as int), ',');
    assert(cs@.take(i as int) =~= raw@);
    let t = trim_range(&cs, start, i);
    let ghost before = out@;
    if !t.as_str().is_empty() {
        out.push(t);
        assert(views(out@) =~= views(before).push(t@));
    }
    assert(sp.drop_last().push(sp.last()) =~= sp);
    out
}

/// The index of the first occurrence of `k` in `keys`, or -1.
pub open spec fn first_index_of(keys: Seq<Seq<char>>, k: Seq<char>) -> int
    decreases keys.len(),
{
    if keys.len() == 0 {
        -1
    } else if keys[0] == k {
        0
    } else {
        let r: int = first_index_of(keys.drop_first(), k);
        if r < 0 {
            -1
        } else {
            r + 1
        }
    }
}

pub proof fn lemma_first_index_of(keys: Seq<Seq<char>>, k: Seq<char>)
    ensures
        ({
            let r: int = first_index_of(keys, k);
            ||| (0 <= r < keys.len() && keys[r] == k && forall|j: int|
                0 <= j < r ==> #[trigger] keys[j] != k)
            ||| (r == -1 && forall|j: int| 0 <= j < keys.len() ==> #[trigger] keys[j] != k)
        }),
    decreases keys.len(),
{
    if keys.len() > 0 && keys[0] != k {
        lemma_first_index_of(keys.drop_first(), k);
        let r: int = first_index_of(keys.drop_first(), k);
        assert forall|j: int| 1 <= j < keys.len() implies keys[j] == keys.drop_first()[j - 1] by {}
        if r < 0 {
            assert forall|j: int| 0 <= j < keys.len() implies #[trigger] keys[j] != k by {
                if j > 0 {
                    assert(keys.drop_first()[j - 1] != k);
                }
            }
        } else {
            assert forall|j: int| 0 <= j < r + 1 implies #[trigger] keys[j] != k by {
                if j > 0 {
                    assert(keys.drop_first()[j - 1] != k);
                }
            }
        }
    }
}

/// The members of an object (names `keys`, values `values`) that a field
/// list selects: each listed field that the object has, once, in the order of
/// the list, with the value of its first occurrence in the object.
pub open spec fn project_entries(
    keys: Seq<Seq<char>>,
    values: Seq<Json>,
    fields: Seq<Seq<char>>,
) -> (Seq<Seq<char>>, Seq<Json>)
    decreases fields.len(),
{
    if fields.len() == 0 {
        (Seq::empty(), Seq::empty())
    } else {
        let prev = project_entries(keys, values, fields.drop_last());
        let f = fields.last();
        let i: int = first_index_of(keys, f);
        if i >= 0 && !prev.0.contains(f) {
            (prev.0.push(f), prev.1.push(values[i]))
        } else {
            prev
        }
    }
}

/// One value cut down to the listed fields: an object keeps only those of
/// its members; any other value is left as it is.
pub open spec fn project_one(v: Json, fields: Seq<Seq<char>>) -> Json {
    match v {
        Json::Object { keys, values } => {
            let p = project_entries(keys, values, fields);
            Json::Object { keys: p.0, values: p.1 }
        },
        _ => v,
    }
}

/// A result cut down to the listed fields: an array has each of its items
/// cut down, any other value is cut down itself.
pub open spec fn project_value(v: Json, fields: Seq<Seq<char>>) -> Json {
    match v {
        Json::Array(items) => Json::Array(items.map_values(|x: Json| project_one(x, fields))),
        _ => project_one(v, fields),
    }
}

/// What `--fields` does to a result: nothing without a field list or with
/// one that names no field, else the projection on the named fields.
pub open spec fn projected(v: Json, fields: Option<Seq<char>>) -> Json {
    match fields {
        None => v,
        Some(raw) => {
            let names = field_names(raw);
            if names.len() == 0 {
                v
            } else {
                project_value(v, names)
            }
        },
    }
}

/// What the projection of an object keeps: each member name once; exactly
/// the names that are both listed and present; and for each the value of its
/// first occurrence in the object.
pub proof fn lemma_project_entries(keys: Seq<Seq<char>>, values: Seq<Json>, fields: Seq<Seq<char>>)
    requires
        keys.len() == values.len(),
    ensures
        ({
            let p = project_entries(keys, values, fields);
            &&& p.0.len() == p.1.len()
            &&& p.0.no_duplicates()
            &&& forall|k: Seq<char>| #[trigger]
                p.0.contains(k) <==> (fields.contains(k) && keys.contains(k))
            &&& forall|j: int|
                0 <= j < p.0.len() ==> 0 <= first_index_of(keys, #[trigger] p.0[j]) < keys.len()
                    && p.1[j] == values[first_index_of(keys, p.0[j])]
        }),
    decreases fields.len(),
{
    if fields.len() > 0 {
        let rest = fields.drop_last();
        lemma_project_entries(keys, values, rest);
        let prev = project_entries(keys, values, rest);
        let f = fields.last();
        lemma_first_index_of(keys, f);
        let p = project_entries(keys, values, fields);
        assert forall|k: Seq<char>| #[trigger]
            p.0.contains(k) <==> (fields.contains(k) && keys.contains(k)) by {
            if fields.contains(k) && keys.contains(k) {
                let a = choose|a: int| 0 <= a < fields.len() && fields[a] == k;
                if a < rest.len() {
                    assert(rest[a] == k);
                    assert(prev.0.contains(k));
                    if p.0 != prev.0 {
                        assert(p.0 == prev.0.push(f));
                        let b = choose|b: int| 0 <= b < prev.0.len() && prev.0[b] == k;
                        assert(p.0[b] == k);
                    }
                } else {
                    assert(k == f);
                    let c = choose|c: int| 0 <= c < keys.len() && keys[c] == k;
                    assert(keys[c] == f);
                    if prev.0.contains(f) {
                    } else {
                        assert(p.0[p.0.len() - 1] == f);
                    }
                }
            }
            if p.0.contains(k) {
                let b = choose|b: int| 0 <= b < p.0.len() && p.0[b] == k;
                if b < prev.0.len() {
                    assert(prev.0[b] == k);
                    assert(prev.0.contains(k));
                    let a = choose|a: int| 0 <= a < rest.len() && rest[a] == k;
                    assert(fields[a] == k);
                } else {
                    assert(k == f);
                    assert(fields[fields.len() - 1] == k);
                    let r: int = first_index_of(keys, f);
                    assert(keys[r] == k);
                }
            }
        }
        if first_index_of(keys, f) >= 0 && !prev.0.contains(f) {
            assert forall|i: int, j: int|
                0 <= i < p.0.len() && 0 <= j < p.0.len() && i != j implies p.0[i] != p.0[j] by {
                if i == p.0.len() - 1 {
                    assert(prev.0[j] == p.0[j]);
                } else if j == p.0.len() - 1 {
                    assert(prev.0[i] == p.0[i]);
                }
            }
            assert forall|j: int| 0 <= j < p.0.len() implies 0 <= first_index_of(
                keys,
                #[trigger] p.0[j],
            ) < keys.len() && p.1[j] == values[first_index_of(keys, p.0[j])] by {
                if j < prev.0.len() {
                    assert(p.0[j] == prev.0[j]);
                    assert(p.1[j] == prev.1[j]);
                }
            }
        }
    }
}

/// Projecting the projection of an object again on the same fields changes
/// nothing.
proof fn lemma_project_entries_idempotent(
    keys: Seq<Seq<char>>,
    values: Seq<Json>,
    fields: Seq<Seq<char>>,
    t: int,
)
    requires
        keys.len() == values.len(),
        0 <= t <= fields.len(),
    ensures
        ({
            let p = project_entries(keys, values, fields);
            project_entries(p.0, p.1, fields.take(t)) == project_entries(
                keys,
                values,
                fields.take(t),
            )
        }),
    decreases t,
{
    let p = project_entries(keys, values, fields);
    if t > 0 {
        lemma_project_entries_idempotent(keys, values, fields, t - 1);
        lemma_project_entries(keys, values, fields);
        let g = fields.take(t);
        assert(g.drop_last() =~= fields.take(t - 1));
        let f = g.last();
        assert(fields.contains(f)) by {
            assert(fields[t - 1] == f);
        }
        lemma_first_index_of(keys, f);
        lemma_first_index_of(p.0, f);
        let ik: int = first_index_of(keys, f);
        let ip: int = first_index_of(p.0, f);
        if ik >= 0 {
            assert(keys.contains(f)) by {
                assert(keys[ik] == f);
            }
            assert(p.0.contains(f));
            assert(ip >= 0);
            assert(p.1[ip] == values[first_index_of(keys, p.0[ip])]);
        } else {
            if ip >= 0 {
                assert(p.0.contains(f)) by {
                    assert(p.0[ip] == f);
                }
                let c = choose|c: int| 0 <= c < keys.len() && keys[c] == f;
                assert(keys[c] == f);
            }
        }
    }
}

/// Projection is idempotent: cutting a result down to a field list a second
/// time gives back the same result.
pub proof fn lemma_projection_idempotent(v: JsonValue, fields: Option<Seq<char>>)
    ensures
        projected(projected(v@, fields), fields) == projected(v@, fields),
{
    match fields {
        None => {},
        Some(raw) => {
            let names = field_names(raw);
            if names.len() > 0 {
                match v {
                    JsonValue::Array(items) => {
                        lemma_view_array(v);
                        let f = |x: Json| project_one(x, names);
                        let once = v@->Array_0.map_values(f);
                        assert forall|j: int| 0 <= j < once.len() implies #[trigger] f(once[j])
                            == once[j] by {
                            lemma_project_one_idempotent(v->Array_0@[j], names);
                        }
                        assert(once.map_values(f) =~= once);
                    },
                    _ => {
                        lemma_project_one_idempotent(v, names);
                        if v is Object {
                            lemma_view_object(v);
                        }
                    },
                }
            }
        },
    }
}

proof fn lemma_project_one_idempotent(v: JsonValue, names: Seq<Seq<char>>)
    ensures
        project_one(project_one(v@, names), names) == project_one(v@, names),
{
    if v is Object {
        lemma_view_object(v);
        let keys = v@->keys;
        let values = v@->values;
        lemma_project_entries_idempotent(keys, values, names, names.len() as int);
        assert(names.take(names.len() as int) =~= names);
    }
}

/// The first entry of `entries` named `k`, if any.
fn find_entry(entries: &Vec<(String, JsonValue)>, k: &String) -> (r: Option<usize>)
    ensures
        match r {
            Some(i) => i == first_index_of(entry_keys(entries@), k@) && i < entries@.len(),
            None => first_index_of(entry_keys(entries@), k@) == -1,
        },
{
    let ghost ks = entry_keys(entries@);
    proof {
        lemma_first_index_of(ks, k@);
    }
    let mut i: usize = 0;
    while i < entries.len()
        invariant
            ks == entry_keys(entries@),
            i <= entries@.len(),
            forall|j: int| 0 <= j < i ==> ks[j] != k@,
            ({
                let r: int = first_index_of(ks, k@);
                ||| (0 <= r < ks.len() && ks[r] == k@ && forall|j: int|
                    0 <= j < r ==> #[trigger] ks[j] != k@)
                ||| (r == -1 && forall|j: int| 0 <= j < ks.len() ==> #[trigger] ks[j] != k@)
            }),
        decreases entries@.len() - i,
    {
        if entries[i].0 == *k {
            assert(ks[i as int] == k@);
            return Some(i);
        }
        assert(ks[i as int] != k@);
        i = i + 1;
    }
    None
}

/// `project_one` on an executable value.
fn project_one_value(v: &JsonValue, fields: &Vec<String>) -> (r: JsonValue)
    ensures
        r@ == project_one(v@, views(fields@)),
{
    match v {
        JsonValue::Object(entries) => {
            let ghost keys = v@->keys;
            let ghost values = v@->values;
            let ghost names = views(fields@);
            proof {
                lemma_view_object(*v);
            }
            let mut out: Vec<(String, JsonValue)> = Vec::new();
            let mut t: usize = 0;
            proof {
                assert(names.take(0) =~= Seq::<Seq<char>>::empty());
                assert(entry_keys(out@) =~= Seq::<Seq<char>>::empty());
            }
            while t < fields.len()
                invariant
                    t <= fields@.len(),
                    names == views(fields@),
                    keys == entry_keys(entries@),
                    keys.len() == entries@.len(),
                    values.len() == entries@.len(),
                    forall|j: int| 0 <= j < entries@.len() ==> #[trigger] values[j] == entries@[j].1@,
                    entry_keys(out@) == project_entries(keys, values, names.take(t as int)).0,
                    out@.len() == project_entries(keys, values, names.take(t as int)).1.len(),
                    forall|j: int|
                        0 <= j < out@.len() ==> #[trigger] out@[j].1@ == project_entries(
                            keys,
                            values,
                            names.take(t as int),
                        ).1[j],
                decreases fields@.len() - t,
            {
                let ghost prev = project_entries(keys, values, names.take(t as int));
                let ghost out_before = out@;
                assert(names.take(t + 1).drop_last() =~= names.take(t as int));
                assert(names.take(t + 1).last() == fields@[t as int]@);
                let f = &fields[t];
                let found = find_entry(entries, f);
                let dup = find_entry(&out, f);
                proof {
                    lemma_first_index_of(entry_keys(out_before), f@);
                    if dup is None {
                        assert(!prev.0.contains(f@));
                    } else {
                        let d = dup->0;
                        assert(prev.0[d as int] == f@);
                        assert(prev.0.contains(f@));
                    }
                }
                match found {
                    Some(i) => {
                        if dup.is_none() {
                            let key = f.clone();
                            let value = entries[i].1.deep_copy();
                            out.push((key, value));
                            proof {
                                assert(entry_keys(out@) =~= prev.0.push(f@));
                                assert(values[i as int] == entries@[i as int].1@);
                            }
                        }
                    },
                    None => {},
                }
                t = t + 1;
            }
            assert(names.take(fields@.len() as int) =~= names);
            let r = JsonValue::Object(out);
            proof {
                lemma_view_object(r);
                let p = project_entries(keys, values, names);
                assert(r@->values =~= p.1);
            }
            r
        },
        _ => v.deep_copy(),
    }
}

/// `project_value` on an executable value.
fn project_value_of(v: &JsonValue, fields: &Vec<String>) -> (r: JsonValue)
    ensures
        r@ == project_value(v@, views(fields@)),
{
    match v {
        JsonValue::Array(items) => {
            let mut out: Vec<JsonValue> = Vec::new();
            let mut i: usize = 0;
            while i < items.len()
                invariant
                    i <= items@.len(),
                    out@.len() == i,
                    forall|j: int|
                        0 <= j < i ==> #[trigger] out@[j]@ == project_one(
                            items@[j]@,
                            views(fields@),
                        ),
                decreases items@.len() - i,
            {
                out.push(project_one_value(&items[i], fields));
                i = i + 1;
            }
            let r = JsonValue::Array(out);
            proof {
                lemma_view_array(r);
                lemma_view_array(*v);
                let f = |x: Json| project_one(x, views(fields@));
                assert(r@->Array_0 =~= v@->Array_0.map_values(f));
            }
            r
        },
        _ => project_one_value(v, fields),
    }
}

/// Project an object (or array of objects) down to only the listed fields.
/// Non-object values pass through unchanged. Missing fields are silently
/// omitted, and a list that names no field leaves the value as it is.
pub fn project_fields(data: JsonValue, fields: Option<&str>) -> (r: JsonValue)
    ensures
        r@ == projected(data@, opt_str_chars(fields)),
{
    match fields {
        None => data,
        Some(raw) => {
            let names = field_list(raw);
            if names.len() == 0 {
                data
            } else {
                project_value_of(&data, &names)
            }
        },
    }
}

/// The members of the inner object of the error envelope: the message and
/// the code, then the hint and the documentation link when there are.
pub open spec fn error_members(e: ErrorModel) -> (Seq<Seq<char>>, Seq<Json>) {
    let base = (
        seq!["message"@, "code"@],
        seq![Json::Str(e.message), Json::Str(e.code.code_name())],
    );
    let with_hint = match e.hint {
        Some(h) => (base.0.push("hint"@), base.1.push(Json::Str(h))),
        None => base,
    };
    match e.docs_url {
        Some(d) => (with_hint.0.push("docs_url"@), with_hint.1.push(Json::Str(d))),
        None => with_hint,
    }
}

/// The JSON envelope of an error: `{"error":{"message","code","hint"?,"docs_url"?}}`.
pub open spec fn error_envelope_model(e: ErrorModel) -> Json {
    let m = error_members(e);
    Json::Object {
        keys: seq!["error"@],
        values: seq![Json::Object { keys: m.0, values: m.1 }],
    }
}

/// The structured JSON envelope that stands for `err` on stderr. The HTTP
/// status is not part of it.
pub fn error_envelope(err: &PostHogError) -> (r: JsonValue)
    ensures
        r@ == error_envelope_model(err@),
{
    let mut inner: Vec<(String, JsonValue)> = Vec::new();
    inner.push(("message".to_owned(), JsonValue::Str(err.message.clone())));
    inner.push(("code".to_owned(), JsonValue::Str(err.code.as_str().to_owned())));
    match &err.hint {
        Some(h) => inner.push(("hint".to_owned(), JsonValue::Str(h.clone()))),
        None => {},
    }
    match &err.docs_url {
        Some(d) => inner.push(("docs_url".to_owned(), JsonValue::Str(d.clone()))),
        None => {},
    }
    let inner_value = JsonValue::Object(inner);
    let mut outer: Vec<(String, JsonValue)> = Vec::new();
    outer.push(("error".to_owned(), inner_value));
    let r = JsonValue::Object(outer);
    proof {
        let m = error_members(err@);
        lemma_view_object(inner_value);
        lemma_view_object(r);
        assert(inner_value@->keys =~= m.0);
        assert(inner_value@->values =~= m.1);
        assert(r@->keys =~= seq!["error"@]);
        assert(r@->values =~= seq![Json::Object { keys: m.0, values: m.1 }]);
    }
    r
}

#[verifier::external_type_specification]
#[verifier::external_body]
pub struct ExValue(serde_json::Value);

/// The same value as a `serde_json::Value`: each member converted to its
/// `serde_json` counterpart, objects keeping the order of their members.
/// This only converts; nothing is claimed of the result here, the text
/// functions below name what comes of it.
#[verifier::external_body]
fn to_serde_value(v: &JsonValue) -> serde_json::Value {
    match v {
        JsonValue::Null => serde_json::Value::Null,
        JsonValue::Bool(b) => serde_json::Value::Bool(*b),
        JsonValue::Number(n) => serde_json::Value::Number(n.clone()),
        JsonValue::Str(t) => serde_json::Value::String(t.clone()),
        JsonValue::Array(items) => serde_json::Value::Array(items.iter().map(to_serde_value).collect()),
        JsonValue::Object(entries) => serde_json::Value::Object(
            entries.iter().map(|(k, x)| (k.clone(), to_serde_value(x))).collect(),
        ),
    }
}

/// The compact JSON text of a value, as `serde_json::to_string` writes it.
pub uninterp spec fn compact_json(v: Json) -> Seq<char>;

/// The indented JSON text of a value, as `serde_json::to_string_pretty`
/// writes it.
pub uninterp spec fn pretty_json(v: Json) -> Seq<char>;

/// Calls `serde_json::to_string` on the value. Its text is named
/// (`compact_json`), a function of the value alone. Writing a
/// `serde_json::Value` cannot fail (its keys are strings), so the call does
/// not panic.
#[verifier::external_body]
fn to_compact_json(v: &JsonValue) -> (r: String)
    ensures
        r@ == compact_json(v@),
{
    serde_json::to_string(&to_serde_value(v)).unwrap()
}

/// Calls `serde_json::to_string_pretty` on the value. Its text is named
/// (`pretty_json`), a function of the value alone. Writing a
/// `serde_json::Value` cannot fail (its keys are strings), so the call does
/// not panic.
#[verifier::external_body]
fn to_pretty_json(v: &JsonValue) -> (r: String)
    ensures
        r@ == pretty_json(v@),
{
    serde_json::to_string_pretty(&to_serde_value(v)).unwrap()
}

/// The JSON text that stdout carries for a result: cut down to `--fields`,
/// then indented with `--pretty`, compact otherwise.
pub fn render_json(data: JsonValue, opts: &OutputOptions) -> (r: String)
    ensures
        r@ == (if opts.pretty {
            pretty_json(projected(data@, opt_chars(opts.fields)))
        } else {
            compact_json(projected(data@, opt_chars(opts.fields)))
        }),
{
    let fields: Option<&str> = match &opts.fields {
        Some(f) => Some(f.as_str()),
        None => None,
    };
    let projected_value = project_fields(data, fields);
    if opts.pretty {
        to_pretty_json(&projected_value)
    } else {
        to_compact_json(&projected_value)
    }
}

/// The text of the structured error envelope that stderr carries.
pub fn render_error(err: &PostHogError) -> (r: String)
    ensures
        r@ == compact_json(error_envelope_model(err@)),
{
    to_compact_json(&error_envelope(err))
}

} // verus!
