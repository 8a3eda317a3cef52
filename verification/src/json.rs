//! Reading small JSON values stored in text columns: a list of strings, and an
//! object whose values are strings. Parsing is serde_json's; what it gives
//! back is named here, and the callers' contracts speak of those names.
use vstd::prelude::*;

use crate::text::{pair_views, views};

verus! {

/// The strings of `raw` read as a JSON array of strings, `None` when `raw` is
/// not one.
pub uninterp spec fn json_string_list(raw: Seq<char>) -> Option<Seq<Seq<char>>>;

/// The entries of `raw` read as a JSON object whose values are strings, by
/// increasing key, each key once; `None` when `raw` is not one.
pub uninterp spec fn json_string_map(raw: Seq<char>) -> Option<Seq<(Seq<char>, Seq<char>)>>;

/// `serde_json::from_str::<Vec<String>>`: the array's strings in order, or
/// `None` on any parse error. The contract ties the result to `raw` through
/// `json_string_list` and says nothing more of it.
#[verifier::external_body]
pub(crate) fn parse_string_list(raw: &str) -> (r: Option<Vec<String>>)
    ensures
        json_string_list(raw@) == match r {
            Some(v) => Some(views(v@)),
            None => None::<Seq<Seq<char>>>,
        },
{
    serde_json::from_str::<Vec<String>>(raw).ok()
}

/// `serde_json::from_str::<BTreeMap<String, String>>`, its entries in key
/// order, or `None` on any parse error. The contract ties the result to `raw`
/// through `json_string_map` and says nothing more of it.
#[verifier::external_body]
pub(crate) fn parse_string_map(raw: &str) -> (r: Option<Vec<(String, String)>>)
    ensures
        json_string_map(raw@) == match r {
            Some(v) => Some(pair_views(v@)),
            None => None::<Seq<(Seq<char>, Seq<char>)>>,
        },
{
    match serde_json::from_str::<std::collections::BTreeMap<String, String>>(raw) {
        Ok(m) => Some(m.into_iter().collect()),
        Err(_) => None,
    }
}

} // verus!
