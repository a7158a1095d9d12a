//! The query parameters of a request.

use vstd::prelude::*;
use crate::strmap::StrMap;
use crate::text::{trim, trimmed};

verus! {

/// `query.get(key).map(|s| s.trim()).unwrap_or("")`: the trimmed value of
/// the parameter, or nothing where it is absent.
pub open spec fn param(q: Map<Seq<char>, Seq<char>>, key: Seq<char>) -> Seq<char> {
    if q.contains_key(key) {
        trimmed(q[key])
    } else {
        Seq::empty()
    }
}

/// The trimmed value of the parameter `key`, or the empty text where the
/// request has no such parameter.
pub fn param_or_empty(q: &StrMap, key: &str) -> (r: String)
    ensures
        r@ == param(q@, key@),
{
    match q.get(key) {
        Some(v) => trim(v.as_str()),
        None => String::new(),
    }
}

/// The trimmed value of the parameter `key`, if the request has it.
pub fn trimmed_param(q: &StrMap, key: &str) -> (r: Option<String>)
    ensures
        match r {
            Some(v) => q@.contains_key(key@) && v@ == trimmed(q@[key@]),
            None => !q@.contains_key(key@),
        },
{
    match q.get(key) {
        Some(v) => Some(trim(v.as_str())),
        None => None,
    }
}

} // verus!
