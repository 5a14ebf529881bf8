//! The JSON documents that the library reads and rewrites are
//! `serde_json::Value`s. Nothing in this file is proved: it says what the
//! library takes for granted of `serde_json`, in terms of the strings that a
//! document holds and of the keys of its objects. Everything else in the
//! library is proved from what is written here.

use vstd::prelude::*;

verus! {

#[verifier::external_type_specification]
#[verifier::external_body]
pub struct ExJsonValue(serde_json::Value);

#[verifier::external_type_specification]
#[verifier::external_body]
pub struct ExJsonError(serde_json::Error);

/// The strings that a document holds, each under its path: the object keys
/// that lead to it from the top. Where the document is itself a string, that
/// string stands under the empty path. A path that leaves the objects, or
/// that ends at anything but a string, is not in the map.
pub uninterp spec fn json_strings(doc: serde_json::Value) -> Map<Seq<Seq<char>>, Seq<char>>;

/// The keys of the object that stands under `key` at the top of a document,
/// in the order in which the object is walked; empty where there is no such
/// member or it is no object.
pub uninterp spec fn json_keys(doc: serde_json::Value, key: Seq<char>) -> Seq<Seq<char>>;

/// What `serde_json::from_str` reads from a text: the strings of the
/// document that the text spells, or `None` where it spells none.
pub uninterp spec fn json_text_strings(text: Seq<char>) -> Option<Map<Seq<Seq<char>>, Seq<char>>>;

/// What `serde_json::to_string_pretty` writes for a document, or `None`
/// where it fails.
pub uninterp spec fn json_rendering(doc: serde_json::Value) -> Option<Seq<char>>;

/// The path of a member of the top object.
pub open spec fn top_path(key: Seq<char>) -> Seq<Seq<char>> {
    seq![key]
}

/// The path of a member of an object that is itself a member of the top
/// object.
pub open spec fn member_path(outer: Seq<char>, inner: Seq<char>) -> Seq<Seq<char>> {
    seq![outer, inner]
}

/// Calls `serde_json::from_str` to read a `Value`. The claim is that the
/// outcome depends on the text alone: `json_text_strings` names the strings
/// of the document that comes back, and is `None` for a text that is
/// refused.
#[verifier::external_body]
pub(crate) fn parse_json(text: &str) -> (r: Result<serde_json::Value, serde_json::Error>)
    ensures
        r matches Ok(doc) ==> json_text_strings(text@) == Some(json_strings(doc)),
        r is Err ==> json_text_strings(text@) is None,
{
    serde_json::from_str(text)
}

/// Calls `serde_json::to_string_pretty`. The claim is that the outcome
/// depends on the document alone: `json_rendering` names the text that
/// comes back.
#[verifier::external_body]
pub(crate) fn render_json(doc: &serde_json::Value) -> (r: Result<String, serde_json::Error>)
    ensures
        r matches Ok(text) ==> json_rendering(*doc) == Some(text@),
        r is Err ==> json_rendering(*doc) is None,
{
    serde_json::to_string_pretty(doc)
}

/// Writes out a `serde_json::Error` as its `Display` does. Nothing is
/// claimed of the text.
#[verifier::external_body]
pub(crate) fn json_error_text(error: &serde_json::Error) -> String {
    format!("{}", error)
}

/// Indexes a `Value` by a string and calls `Value::as_str` on what is found.
/// Indexing gives the member of that name where the value is an object that
/// has one, and null in every other case; `as_str` gives the text of a
/// string and `None` for anything else. So the result is the string that
/// stands under `key` at the top of the document, if there is one.
#[verifier::external_body]
pub(crate) fn string_at(doc: &serde_json::Value, key: &str) -> (r: Option<String>)
    ensures
        r matches Some(text) ==> json_strings(*doc).contains_key(top_path(key@)) && text@
            == json_strings(*doc)[top_path(key@)],
        r is None ==> !json_strings(*doc).contains_key(top_path(key@)),
{
    doc[key].as_str().map(|text| text.to_string())
}

/// As `string_at`, with the index taken twice: the result is the string
/// that stands under `inner` in the object under `outer`, if there is one.
#[verifier::external_body]
pub(crate) fn string_in(doc: &serde_json::Value, outer: &str, inner: &str) -> (r: Option<String>)
    ensures
        r matches Some(text) ==> json_strings(*doc).contains_key(member_path(outer@, inner@))
            && text@ == json_strings(*doc)[member_path(outer@, inner@)],
        r is None ==> !json_strings(*doc).contains_key(member_path(outer@, inner@)),
{
    doc[outer][inner].as_str().map(|text| text.to_string())
}

/// Indexes a `Value` by a string, calls `Value::as_object` on what is found
/// and hands out the keys of the map as `Map::keys` walks them; no keys
/// where there is no map. A map holds each key once, and every member that
/// `string_in` finds under `outer` is a member of that map.
#[verifier::external_body]
pub(crate) fn keys_in(doc: &serde_json::Value, outer: &str) -> (r: Vec<String>)
    ensures
        r.deep_view() == json_keys(*doc, outer@),
        r.deep_view().no_duplicates(),
        forall|inner: Seq<char>| #[trigger]
            json_strings(*doc).contains_key(member_path(outer@, inner)) ==> r.deep_view().contains(
                inner,
            ),
{
    doc[outer].as_object().map(|members| members.keys().cloned().collect()).unwrap_or_default()
}

/// Assigns a string to `doc[outer][inner]`, for a document that holds a
/// string there already. Indexing for assignment finds the members that
/// exist, so nothing is inserted and nothing but that one string changes.
/// (On a document without these members the assignment would insert them,
/// or panic where `doc` or `doc[outer]` is neither null nor an object; the
/// library does not call it there.)
#[verifier::external_body]
pub(crate) fn put_string_in(doc: &mut serde_json::Value, outer: &str, inner: &str, text: &str)
    requires
        json_strings(*old(doc)).contains_key(member_path(outer@, inner@)),
    ensures
        json_strings(*final(doc)) == json_strings(*old(doc)).insert(
            member_path(outer@, inner@),
            text@,
        ),
{
    doc[outer][inner] = serde_json::Value::String(text.to_string());
}

} // verus!
