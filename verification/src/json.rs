//! A plain-value model of a parsed JSON document: what the pagination logic
//! reads of a remote answer. Numbers outside the unsigned 64-bit range and
//! fractions carry no meaning here and arrive as `Null`.
use vstd::prelude::*;

use crate::order::str_eq;

verus! {

/// One parsed JSON value.
pub enum JsonValue {
    /// `null`, or a number the logic cannot read.
    Null,
    /// `true` or `false`.
    Bool(bool),
    /// A non-negative integer within unsigned 64-bit range.
    UInt(u64),
    /// A string.
    Str(String),
    /// An array.
    Arr(Vec<JsonValue>),
    /// An object: key/value pairs, keys unique, in document order.
    Obj(Vec<(String, JsonValue)>),
}

/// The first value stored under `key`, scanning the pairs in order.
pub open spec fn spec_fields_get(fields: Seq<(String, JsonValue)>, key: Seq<char>) -> Option<JsonValue>
    decreases fields.len(),
{
    if fields.len() == 0 {
        None
    } else if fields[0].0@ == key {
        Some(fields[0].1)
    } else {
        spec_fields_get(fields.drop_first(), key)
    }
}

/// The value an object holds under `key`; `None` on any other value.
pub open spec fn json_get(v: JsonValue, key: Seq<char>) -> Option<JsonValue> {
    match v {
        JsonValue::Obj(fields) => spec_fields_get(fields@, key),
        _ => None,
    }
}

/// Looks `key` up in `v`, as field navigation does on a parsed document.
pub fn obj_get<'a>(v: &'a JsonValue, key: &str) -> (r: Option<&'a JsonValue>)
    ensures
        match r {
            Some(x) => json_get(*v, key@) == Some(*x),
            None => json_get(*v, key@) is None,
        },
{
    match v {
        JsonValue::Obj(fields) => {
            let mut i: usize = 0;
            proof {
                assert(fields@.skip(0) =~= fields@);
            }
            while i < fields.len()
                invariant
                    0 <= i <= fields@.len(),
                    json_get(*v, key@) == spec_fields_get(fields@, key@),
                    spec_fields_get(fields@, key@) == spec_fields_get(fields@.skip(i as int), key@),
                decreases fields@.len() - i,
            {
                proof {
                    assert(fields@.skip(i as int).drop_first() =~= fields@.skip(i + 1));
                    assert(fields@.skip(i as int)[0] == fields@[i as int]);
                }
                if str_eq(fields[i].0.as_str(), key) {
                    proof {
                        assert(fields@.skip(i as int)[0].0@ == key@);
                        assert(spec_fields_get(fields@.skip(i as int), key@) == Some(fields@[i as int].1));
                        assert(json_get(*v, key@) == Some(fields@[i as int].1));
                    }
                    return Some(&fields[i].1);
                }
                i = i + 1;
            }
            None
        },
        _ => None,
    }
}

} // verus!
