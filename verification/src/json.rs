//! Tag lists as JSON text, written and read by serde_json.
use vstd::prelude::*;
use crate::text::{owned, texts};

verus! {

/// The JSON text serde_json writes for a list of strings.
pub uninterp spec fn json_of_texts(items: Seq<Seq<char>>) -> Seq<char>;

/// The list of strings serde_json reads from a JSON text; None when the
/// text is not such a list.
pub uninterp spec fn texts_of_json(text: Seq<char>) -> Option<Seq<Seq<char>>>;

/// `serde_json::to_string` on a list of strings: the named JSON of the
/// list. Its documentation says serialization fails only where the value's
/// `Serialize` impl fails or a map has non-string keys; neither can happen
/// for a list of strings written to memory, so the call succeeds.
#[verifier::external_body]
pub(crate) fn texts_to_json(items: &Vec<String>) -> (r: Result<String, String>)
    ensures
        r is Ok,
        r matches Ok(s) ==> s@ == json_of_texts(texts(items@)),
{
    serde_json::to_string(items).map_err(|e| e.to_string())
}

/// `serde_json::from_str::<Vec<String>>`, its error dropped: the list the
/// text holds, as named.
#[verifier::external_body]
pub(crate) fn texts_from_json(text: &str) -> (r: Option<Vec<String>>)
    ensures
        r matches Some(v) ==> texts_of_json(text@) == Some(texts(v@)),
        r is None ==> texts_of_json(text@) is None,
{
    serde_json::from_str::<Vec<String>>(text).ok()
}

/// The JSON text of a tag list; writing it always succeeds.
pub fn tags_json(tags: &Vec<String>) -> (r: Result<String, String>)
    ensures
        r matches Ok(s) && s@ == json_of_texts(texts(tags@)),
{
    texts_to_json(tags)
}

/// The tags a stored JSON text holds, or no tags when it holds none.
pub open spec fn tags_in_json(text: Seq<char>) -> Seq<Seq<char>> {
    match texts_of_json(text) {
        Some(v) => v,
        None => Seq::empty(),
    }
}

/// Reads a stored tag list; text that is not a JSON list of strings gives
/// no tags.
pub fn tags_from_json(text: &str) -> (r: Vec<String>)
    ensures
        texts(r@) == tags_in_json(text@),
{
    match texts_from_json(text) {
        Some(v) => v,
        None => {
            let v: Vec<String> = Vec::new();
            assert(texts(v@) =~= Seq::<Seq<char>>::empty());
            v
        },
    }
}

/// Whether serde_json reads a text as a JSON value.
pub uninterp spec fn is_json_value(text: Seq<char>) -> bool;

/// `serde_json::from_str::<serde_json::Value>` succeeds on the text; the
/// answer is named.
#[verifier::external_body]
pub(crate) fn parses_as_json(text: &str) -> (r: bool)
    ensures
        r == is_json_value(text@),
{
    serde_json::from_str::<serde_json::Value>(text).is_ok()
}

/// The tags of a stored card as the API shows them: the stored JSON text
/// when it reads as JSON, else an empty list.
pub open spec fn shown_tags(stored: Seq<char>) -> Seq<char> {
    if is_json_value(stored) {
        stored
    } else {
        "[]"@
    }
}

/// The JSON text of a stored card's tags as the API shows them.
pub fn tags_field_text(stored: &str) -> (r: String)
    ensures
        r@ == shown_tags(stored@),
{
    if parses_as_json(stored) {
        owned(stored)
    } else {
        owned("[]")
    }
}

} // verus!
