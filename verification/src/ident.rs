use vstd::prelude::*;

use crate::json::Json;
use crate::json::JsonV;
use crate::json::str_eq;
use crate::num::dec_int;
use crate::num::i64_to_string;

verus! {

/// Whether a stored identifier matches a query string: an integer matches
/// exactly its canonical decimal rendering, a carried decimal rendering or a
/// string matches exactly itself, and nothing else ever matches.
pub open spec fn id_matches(v: JsonV, q: Seq<char>) -> bool {
    match v {
        JsonV::Int(i) => q == dec_int(i),
        JsonV::Num(s) => q == s,
        JsonV::Str(s) => q == s,
        _ => false,
    }
}

/// Match a stored identifier value against a query string.
pub fn json_id_matches(value: &Json, target: &str) -> (r: bool)
    ensures
        r == id_matches(value@, target@),
{
    match value {
        Json::Int(i) => {
            let s = i64_to_string(*i);
            str_eq(s.as_str(), target)
        },
        Json::Num(s) => str_eq(s.as_str(), target),
        Json::Str(s) => str_eq(s.as_str(), target),
        _ => false,
    }
}

} // verus!
