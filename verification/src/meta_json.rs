//! The JSON text of a trash index: a JSON object of string members, read
//! and written with serde_json.

use vstd::prelude::*;
use crate::strmap::{entries_view, keys_distinct, map_of};

verus! {

/// What `serde_json::from_str` reads from `text` as a map of strings to
/// strings, or `None` where `text` is not such a JSON object.
pub uninterp spec fn json_string_map(text: Seq<char>) -> Option<Map<Seq<char>, Seq<char>>>;

/// The text that `m` is written as exists, and reads back as `m`.
pub open spec fn written_reads_back(m: Map<Seq<char>, Seq<char>>) -> bool {
    &&& pretty_json_of(m) is Some
    &&& json_string_map(pretty_json_of(m)->0) == Some(m)
}

/// What `serde_json::to_string_pretty` writes for the map `m` held in a
/// `BTreeMap` (members in key order), or `None` where it fails.
pub uninterp spec fn pretty_json_of(m: Map<Seq<char>, Seq<char>>) -> Option<Seq<char>>;

/// `serde_json::from_str::<BTreeMap<String, String>>(text)`, as a list of
/// entries. A map holds each key once, so the keys of the list are distinct;
/// the map itself is left to the name `json_string_map`.
#[verifier::external_body]
pub fn parse_string_map(text: &str) -> (r: Option<Vec<(String, String)>>)
    ensures
        match r {
            Some(v) => keys_distinct(entries_view(v@)) && json_string_map(text@) == Some(
                map_of(entries_view(v@)),
            ),
            None => json_string_map(text@) is None,
        },
{
    match serde_json::from_str::<std::collections::BTreeMap<String, String>>(text) {
        Ok(m) => Some(m.into_iter().collect()),
        Err(_) => None,
    }
}

/// `serde_json::to_string_pretty` of the entries collected into a
/// `BTreeMap` (where a key repeats, the later entry wins, as in `map_of`).
/// A map with string keys and string values always serializes (serde_json
/// fails only for a `Serialize` impl that fails or a map with non-string
/// keys, and writes into a `Vec` that cannot fail), and serde_json escapes
/// each string so that `from_str` reads the same string back; so the text
/// exists and reads back as the same map. The text itself is left to the
/// name `pretty_json_of`.
#[verifier::external_body]
pub fn render_string_map(entries: &Vec<(String, String)>) -> (r: Option<String>)
    ensures
        r is Some,
        match r {
            Some(t) => pretty_json_of(map_of(entries_view(entries@))) == Some(t@)
                && json_string_map(t@) == Some(map_of(entries_view(entries@))),
            None => pretty_json_of(map_of(entries_view(entries@))) is None,
        },
{
    let m: std::collections::BTreeMap<&str, &str> = entries.iter().map(
        |e| (e.0.as_str(), e.1.as_str()),
    ).collect();
    serde_json::to_string_pretty(&m).ok()
}

} // verus!
