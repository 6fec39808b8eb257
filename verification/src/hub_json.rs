//! The two calls into serde_json that the library trusts. Their results are
//! named by uninterpreted spec functions: both depend on the input bytes
//! alone, and what they hold in full would take pages to state.

use vstd::prelude::*;
use crate::doc::pairs_view;
use crate::doc::unique_keys;

verus! {

/// What serde_json yields for `body`: `None` when the text is not valid
/// JSON; `Some(None)` for a JSON value that is not an object; otherwise the
/// object's top-level fields, each as its key and its value's compact text,
/// in serde_json's map order.
pub uninterp spec fn json_top_entries(body: Seq<u8>) -> Option<Option<Seq<(Seq<u8>, Seq<u8>)>>>;

/// What serde_json yields for `t` when read as one string: `Some` exactly
/// when `t` is the JSON text of a string, holding the decoded content.
pub uninterp spec fn json_string_value(t: Seq<u8>) -> Option<Seq<u8>>;

/// A parsed top-level value: not JSON at all, JSON but not an object, or an
/// object's fields as (key, compact value text) pairs.
pub enum TopParse {
    Invalid,
    NonObject,
    Object(Vec<(Vec<u8>, Vec<u8>)>),
}

impl View for TopParse {
    type V = Option<Option<Seq<(Seq<u8>, Seq<u8>)>>>;

    open spec fn view(&self) -> Option<Option<Seq<(Seq<u8>, Seq<u8>)>>> {
        match self {
            TopParse::Invalid => None,
            TopParse::NonObject => Some(None),
            TopParse::Object(entries) => Some(Some(pairs_view(entries@))),
        }
    }
}

/// Relies on serde_json::from_slice::<Value>, Value::as_object and
/// Value::to_string: whether the bytes parse as JSON, whether the value is
/// an object, and each top-level field as its key and its value's compact
/// text. serde_json's map is a BTreeMap, so the keys are unique.
#[verifier::external_body]
pub fn parse_top(body: &[u8]) -> (r: TopParse)
    ensures
        r@ == json_top_entries(body@),
        r@ matches Some(Some(es)) ==> unique_keys(es),
{
    match serde_json::from_slice::<serde_json::Value>(body) {
        Err(_) => TopParse::Invalid,
        Ok(v) => match v.as_object() {
            None => TopParse::NonObject,
            Some(m) => TopParse::Object(
                m.iter().map(|(k, f)| (k.as_bytes().to_vec(), f.to_string().into_bytes())).collect(),
            ),
        },
    }
}

/// Relies on serde_json::from_slice::<Value>: the bytes parse as a JSON
/// string exactly when the result is `Some`, which then holds the string's
/// decoded content.
#[verifier::external_body]
pub fn parse_string(t: &[u8]) -> (r: Option<Vec<u8>>)
    ensures
        (r is Some) == (json_string_value(t@) is Some),
        r matches Some(v) ==> v@ == json_string_value(t@)->Some_0,
{
    match serde_json::from_slice::<serde_json::Value>(t) {
        Ok(serde_json::Value::String(s)) => Some(s.into_bytes()),
        Ok(_) => None,
        Err(_) => None,
    }
}

} // verus!
