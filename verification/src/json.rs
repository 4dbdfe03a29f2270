//! A plain JSON tree and the trusted bridge that produces one from raw text.
//!
//! The tree holds only values the verifier can reason about; numbers that do
//! not fit in `i64` keep their textual form. Parsing raw text is delegated to
//! `serde_json`, behind a single trusted wrapper whose result is named by the
//! uninterpreted function `json_of`.

use vstd::prelude::*;

verus! {

/// A JSON value as a plain tree. Object entries keep the order in which the
/// parser handed them over; keys coming from `serde_json` are unique.
pub enum Json {
    Null,
    Bool(bool),
    Int(i64),
    /// A number that does not fit in `i64`, kept as its decimal text.
    NumText(String),
    Str(String),
    Arr(Vec<Json>),
    Obj(Vec<(String, Json)>),
}

/// The JSON tree that `serde_json` produces for a given input text, or `None`
/// where the text is not valid JSON. The result depends on the characters
/// alone, so it is given a name rather than a definition.
pub uninterp spec fn json_of(s: Seq<char>) -> Option<Json>;

/// Declares `serde_json::Value` so that the trusted conversion below may name
/// it; the value itself stays opaque to the verifier.
#[verifier::external_type_specification]
#[verifier::external_body]
pub struct ExValue(serde_json::Value);

/// First value bound to `key` in an entry list, scanning in order.
pub open spec fn obj_lookup(entries: Seq<(String, Json)>, key: Seq<char>) -> Option<Json>
    decreases entries.len(),
{
    if entries.len() == 0 {
        None
    } else if entries[0].0@ == key {
        Some(entries[0].1)
    } else {
        obj_lookup(entries.drop_first(), key)
    }
}

/// Relies on `serde_json::from_str::<serde_json::Value>`: deserialization of
/// text into a generic JSON value, a pure function of the input text (the
/// default map representation is ordered, so entry order is reproducible).
#[verifier::external_body]
pub(crate) fn parse_json(s: &str) -> (r: Option<Json>)
    ensures
        r == json_of(s@),
{
    serde_json::from_str::<serde_json::Value>(s).ok().map(|v| json_from_value(&v))
}

/// Relies on `serde_json::Value`: rebuilds the parsed value as a plain tree,
/// one arm per variant, keeping non-`i64` numbers as their decimal text.
#[verifier::external_body]
fn json_from_value(v: &serde_json::Value) -> Json {
    match v {
        serde_json::Value::Null => Json::Null,
        serde_json::Value::Bool(b) => Json::Bool(*b),
        serde_json::Value::Number(n) => match n.as_i64() {
            Some(i) => Json::Int(i),
            None => Json::NumText(n.to_string()),
        },
        serde_json::Value::String(s) => Json::Str(s.clone()),
        serde_json::Value::Array(a) => Json::Arr(a.iter().map(json_from_value).collect()),
        serde_json::Value::Object(o) => Json::Obj(
            o.iter().map(|(k, x)| (k.clone(), json_from_value(x))).collect(),
        ),
    }
}

/// Relies on `str`'s `PartialEq`: two string slices are equal exactly when
/// their characters are.
#[verifier::external_body]
pub(crate) fn str_eq(a: &str, b: &str) -> (r: bool)
    ensures
        r == (a@ == b@),
{
    a == b
}

/// Appending an entry at the back leaves an earlier binding in force and
/// otherwise makes the new entry the match.
proof fn lemma_obj_lookup_push(s: Seq<(String, Json)>, e: (String, Json), key: Seq<char>)
    ensures
        obj_lookup(s.push(e), key) == (match obj_lookup(s, key) {
            Some(v) => Some(v),
            None => if e.0@ == key {
                Some(e.1)
            } else {
                None
            },
        }),
    decreases s.len(),
{
    if s.len() == 0 {
        assert(s.push(e)[0] == e);
        assert(s.push(e).drop_first() =~= Seq::<(String, Json)>::empty());
        assert(obj_lookup(s, key) is None);
        assert(obj_lookup(s.push(e).drop_first(), key) is None);
        assert(obj_lookup(s.push(e), key) == (if e.0@ == key {
            Some(e.1)
        } else {
            None
        }));
    } else {
        assert(s.push(e)[0] == s[0]);
        assert(s.push(e).drop_first() =~= s.drop_first().push(e));
        lemma_obj_lookup_push(s.drop_first(), e, key);
        assert(obj_lookup(s.push(e), key) == (if s[0].0@ == key {
            Some(s[0].1)
        } else {
            obj_lookup(s.drop_first().push(e), key)
        }));
    }
}

/// Keys are pairwise different.
pub open spec fn distinct_keys(keys: Seq<&str>) -> bool {
    forall|i: int, j: int| 0 <= i < j < keys.len() ==> keys[i]@ != keys[j]@
}

/// Moves each listed field out of an entry list in one pass: slot `j` of the
/// result receives the value that `obj_lookup` finds for `keys[j]`.
pub fn take_fields(entries: Vec<(String, Json)>, keys: &Vec<&str>) -> (r: Vec<Option<Json>>)
    requires
        distinct_keys(keys@),
    ensures
        r@.len() == keys@.len(),
        forall|j: int| 0 <= j < keys@.len() ==> #[trigger] r@[j] == obj_lookup(
            entries@,
            keys@[j]@,
        ),
{
    let mut slots: Vec<Option<Json>> = Vec::new();
    let mut i: usize = 0;
    while i < keys.len()
        invariant
            i <= keys@.len(),
            slots@.len() == i,
            forall|j: int| 0 <= j < i as int ==> #[trigger] slots@[j] is None,
        decreases keys@.len() - i,
    {
        slots.push(None);
        i = i + 1;
    }
    let ghost all = entries@;
    let mut rest = entries;
    while rest.len() > 0
        invariant
            distinct_keys(keys@),
            slots@.len() == keys@.len(),
            rest@.len() <= all.len(),
            rest@ =~= all.subrange(0, rest@.len() as int),
            forall|j: int| 0 <= j < keys@.len() ==> obj_lookup(all, #[trigger] keys@[j]@) == (
            match obj_lookup(rest@, keys@[j]@) {
                Some(v) => Some(v),
                None => slots@[j],
            }),
        decreases rest@.len(),
    {
        let ghost prev = rest@;
        let ghost e = prev.last();
        let popped = rest.pop();
        let (k, v) = popped.unwrap();
        proof {
            assert(prev =~= rest@.push(e));
            assert forall|j: int| 0 <= j < keys@.len() implies obj_lookup(
                prev,
                #[trigger] keys@[j]@,
            ) == (match obj_lookup(rest@, keys@[j]@) {
                Some(v2) => Some(v2),
                None => if e.0@ == keys@[j]@ {
                    Some(e.1)
                } else {
                    None
                },
            }) by {
                lemma_obj_lookup_push(rest@, e, keys@[j]@);
            }
            assert(rest@ =~= all.subrange(0, rest@.len() as int));
        }
        let mut found: Option<usize> = None;
        let mut j: usize = 0;
        while j < keys.len()
            invariant
                j <= keys@.len(),
                match found {
                    Some(f) => f < j && keys@[f as int]@ == k@,
                    None => forall|m: int| 0 <= m < j as int ==> #[trigger] keys@[m]@ != k@,
                },
            decreases keys@.len() - j,
        {
            if found.is_none() && str_eq(k.as_str(), keys[j]) {
                found = Some(j);
            }
            j = j + 1;
        }
        match found {
            Some(f) => {
                slots[f] = Some(v);
            },
            None => {},
        }
    }
    slots
}

/// A required string field: the slot must hold a JSON string.
pub open spec fn spec_req_str(slot: Option<Json>) -> Option<Seq<char>> {
    match slot {
        Some(Json::Str(s)) => Some(s@),
        _ => None,
    }
}

/// Extracts a required string field; see `spec_req_str`.
pub fn req_str(slot: Option<Json>) -> (r: Option<String>)
    ensures
        r.deep_view() == spec_req_str(slot),
{
    match slot {
        Some(Json::Str(s)) => Some(s),
        _ => None,
    }
}

/// An optional string field: absent or null is accepted as nothing; a present
/// value must be a JSON string. The outer `None` means a shape mismatch.
pub open spec fn spec_opt_str(slot: Option<Json>) -> Option<Option<Seq<char>>> {
    match slot {
        None => Some(None),
        Some(Json::Null) => Some(None),
        Some(Json::Str(s)) => Some(Some(s@)),
        _ => None,
    }
}

/// Extracts an optional string field; see `spec_opt_str`.
pub fn opt_str(slot: Option<Json>) -> (r: Option<Option<String>>)
    ensures
        r.deep_view() == spec_opt_str(slot),
{
    match slot {
        None => Some(None),
        Some(Json::Null) => Some(None),
        Some(Json::Str(s)) => Some(Some(s)),
        _ => None,
    }
}

/// An optional boolean field, with the same reading as `spec_opt_str`.
pub open spec fn spec_opt_bool(slot: Option<Json>) -> Option<Option<bool>> {
    match slot {
        None => Some(None),
        Some(Json::Null) => Some(None),
        Some(Json::Bool(b)) => Some(Some(b)),
        _ => None,
    }
}

/// Extracts an optional boolean field; see `spec_opt_bool`.
pub fn opt_bool(slot: Option<Json>) -> (r: Option<Option<bool>>)
    ensures
        r == spec_opt_bool(slot),
{
    match slot {
        None => Some(None),
        Some(Json::Null) => Some(None),
        Some(Json::Bool(b)) => Some(Some(b)),
        _ => None,
    }
}

/// An optional non-negative integer field, with the same reading as
/// `spec_opt_str`; the value must fit in `u64`.
pub open spec fn spec_opt_u64(slot: Option<Json>) -> Option<Option<u64>> {
    match slot {
        None => Some(None),
        Some(Json::Null) => Some(None),
        Some(Json::Int(i)) => if i >= 0 {
            Some(Some(i as u64))
        } else {
            None
        },
        _ => None,
    }
}

/// Extracts an optional non-negative integer field; see `spec_opt_u64`.
pub fn opt_u64(slot: Option<Json>) -> (r: Option<Option<u64>>)
    ensures
        r == spec_opt_u64(slot),
{
    match slot {
        None => Some(None),
        Some(Json::Null) => Some(None),
        Some(Json::Int(i)) => if i >= 0 {
            Some(Some(i as u64))
        } else {
            None
        },
        _ => None,
    }
}

/// A required boolean field: the slot must hold a JSON boolean.
pub open spec fn spec_req_bool(slot: Option<Json>) -> Option<bool> {
    match slot {
        Some(Json::Bool(b)) => Some(b),
        _ => None,
    }
}

/// Extracts a required boolean field; see `spec_req_bool`.
pub fn req_bool(slot: Option<Json>) -> (r: Option<bool>)
    ensures
        r == spec_req_bool(slot),
{
    match slot {
        Some(Json::Bool(b)) => Some(b),
        _ => None,
    }
}

/// A required counter field: the slot must hold an integer that fits in
/// `i32`.
pub open spec fn spec_req_i32(slot: Option<Json>) -> Option<i32> {
    match slot {
        Some(Json::Int(i)) => if i32::MIN <= i <= i32::MAX {
            Some(i as i32)
        } else {
            None
        },
        _ => None,
    }
}

/// Extracts a required counter field; see `spec_req_i32`.
pub fn req_i32(slot: Option<Json>) -> (r: Option<i32>)
    ensures
        r == spec_req_i32(slot),
{
    match slot {
        Some(Json::Int(i)) => if i32::MIN as i64 <= i && i <= i32::MAX as i64 {
            Some(i as i32)
        } else {
            None
        },
        _ => None,
    }
}

} // verus!
