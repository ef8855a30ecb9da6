//! The JSON Web Key Set document, held as a `serde_json::Value` and seen
//! through a model: the members of the top-level object, and the entries of
//! its `keys` array. An entry is `None` when it is not a JSON object, else the
//! map from its member names to the member's value, given by the string it
//! holds (`None` when it is not a string) and by its compact JSON text.

use vstd::prelude::*;

verus! {

#[verifier::external_type_specification]
#[verifier::external_body]
pub struct ExJsonValue(serde_json::Value);

/// A member's value: the string it holds, if it is one, and its JSON text as
/// `serde_json::to_vec` writes it.
pub type MemberValue = (Option<Seq<char>>, Seq<u8>);

/// The members of a JSON object.
pub type Members = Map<Seq<char>, MemberValue>;

/// One entry of the `keys` array as the model sees it.
pub type JwkEntry = Option<Members>;

/// A document: its top-level members (`None` when it is not an object) and
/// its `keys` array (`None` when there is no `keys` member that is an array).
pub type DocumentModel = (Option<Members>, Option<Seq<JwkEntry>>);

/// What a document holds, seen through the model.
pub uninterp spec fn document_model(document: serde_json::Value) -> DocumentModel;

/// The bytes `serde_json::to_vec` writes for a document.
pub uninterp spec fn serialized_document(document: serde_json::Value) -> Seq<u8>;

/// What `serde_json::from_slice::<serde_json::Value>` gives for `text`, seen
/// through the model: `None` when `text` is not JSON.
pub uninterp spec fn json_text_model(text: Seq<u8>) -> Option<DocumentModel>;

pub open spec fn document_keys(document: serde_json::Value) -> Option<Seq<JwkEntry>> {
    document_model(document).1
}

/// The top-level members other than `keys`.
pub open spec fn members_besides_keys(members: Option<Members>) -> Option<Members> {
    match members {
        Some(m) => Some(m.remove("keys"@)),
        None => None,
    }
}

/// Whether an entry is an object with a member called `name`.
pub open spec fn has_member(entry: JwkEntry, name: Seq<char>) -> bool {
    entry matches Some(members) && members.contains_key(name)
}

/// The string value of the member `name` of an entry, if it has one.
pub open spec fn member_text(entry: JwkEntry, name: Seq<char>) -> Option<Seq<char>> {
    match entry {
        Some(members) => if members.contains_key(name) {
            members[name].0
        } else {
            None
        },
        None => None,
    }
}

/// Text that JSON writes between quotes as it is: printable ASCII without
/// `"` and `\`.
pub open spec fn plain_json_text(text: Seq<char>) -> bool {
    forall|i: int|
        0 <= i < text.len() ==> ' ' <= #[trigger] text[i] <= '~' && text[i] != '"' && text[i]
            != '\\'
}

/// The compact JSON text of an array holding the one string `text`, for
/// text that needs no escaping.
pub open spec fn single_string_array_json(text: Seq<char>) -> Seq<u8> {
    seq!['[' as u8, '"' as u8] + text.map_values(|c: char| c as u8) + seq!['"' as u8, ']' as u8]
}

/// Parses `body` with `serde_json::from_slice` into a `serde_json::Value`;
/// a failure is reported by its text. Trusted: it succeeds exactly when the
/// named outcome for `body` is a document, and the document is the named one.
/// Parsing what `serde_json::to_vec` writes for the document gives it back:
/// with the `float_roundtrip` feature numbers are read exactly as written,
/// and the text nests no deeper than `body` did.
#[verifier::external_body]
pub(crate) fn parse_document(body: &[u8]) -> (r: Result<serde_json::Value, String>)
    ensures
        r is Ok <==> json_text_model(body@) is Some,
        r matches Ok(document) ==> json_text_model(body@) == Some(document_model(document)),
        r matches Ok(document) ==> json_text_model(serialized_document(document)) == Some(
            document_model(document),
        ),
{
    match serde_json::from_slice(body) {
        Ok(document) => Ok(document),
        Err(error) => Err(error.to_string()),
    }
}

/// The length of the `keys` array, read with `serde_json::Value::get` and
/// `serde_json::Value::as_array`. Trusted: `None` exactly when the model has
/// no `keys` array, else that array's length.
#[verifier::external_body]
pub(crate) fn key_count(document: &serde_json::Value) -> (r: Option<usize>)
    ensures
        match document_keys(*document) {
            Some(keys) => r matches Some(n) && n == keys.len(),
            None => r is None,
        },
{
    match document.get("keys") {
        Some(keys) => keys.as_array().map(Vec::len),
        None => None,
    }
}

/// Whether entry `index` of the `keys` array has a member `name`, read with
/// `serde_json::Value::get`. Trusted: as the model says.
#[verifier::external_body]
pub(crate) fn key_has_member(document: &serde_json::Value, index: usize, name: &str) -> (r: bool)
    requires
        document_keys(*document) matches Some(keys) && index < keys.len(),
    ensures
        r == has_member(document_keys(*document).unwrap()[index as int], name@),
{
    match document.get("keys") {
        Some(keys) => match keys.get(index) {
            Some(entry) => entry.get(name).is_some(),
            None => false,
        },
        None => false,
    }
}

/// The string value of member `name` of entry `index` of the `keys` array,
/// read with `serde_json::Value::get` and `serde_json::Value::as_str`.
/// Trusted: as the model says.
#[verifier::external_body]
pub(crate) fn key_member_text(document: &serde_json::Value, index: usize, name: &str) -> (r:
    Option<String>)
    requires
        document_keys(*document) matches Some(keys) && index < keys.len(),
    ensures
        match r {
            Some(text) => member_text(document_keys(*document).unwrap()[index as int], name@)
                == Some(text@),
            None => member_text(document_keys(*document).unwrap()[index as int], name@) is None,
        },
{
    match document.get("keys") {
        Some(keys) => match keys.get(index) {
            Some(entry) => entry.get(name).and_then(serde_json::Value::as_str).map(String::from),
            None => None,
        },
        None => None,
    }
}

/// Sets member `x5c` of entry `index` of the `keys` array to a one-element
/// array holding `certificate`, through `serde_json::Value::as_object_mut`
/// and `serde_json::Map::insert`. Trusted: it does so exactly when the entry
/// is an object; the new member is that array, whose JSON text is
/// `["certificate"]` since the text needs no escaping; no other entry and no
/// top-level member besides `keys` changes. A document whose serialization
/// parses back to it still does: the new array sits only one level below an
/// object that was already there.
#[verifier::external_body]
pub(crate) fn attach_certificate(
    document: &mut serde_json::Value,
    index: usize,
    certificate: String,
) -> (r: bool)
    requires
        document_keys(*old(document)) matches Some(keys) && index < keys.len(),
        plain_json_text(certificate@),
    ensures
        r == document_keys(*old(document)).unwrap()[index as int] is Some,
        r ==> document_keys(*final(document)) == Some(
            document_keys(*old(document)).unwrap().update(
                index as int,
                Some(
                    document_keys(*old(document)).unwrap()[index as int].unwrap().insert(
                        "x5c"@,
                        (None, single_string_array_json(certificate@)),
                    ),
                ),
            ),
        ),
        r ==> members_besides_keys(document_model(*final(document)).0) == members_besides_keys(
            document_model(*old(document)).0,
        ),
        !r ==> *final(document) == *old(document),
        json_text_model(serialized_document(*old(document))) == Some(document_model(*old(document)))
            ==> json_text_model(serialized_document(*final(document))) == Some(
            document_model(*final(document)),
        ),
{
    let entry = match document.get_mut("keys") {
        Some(keys) => keys.get_mut(index),
        None => None,
    };
    match entry.and_then(serde_json::Value::as_object_mut) {
        Some(members) => {
            let chain = vec![serde_json::Value::String(certificate)];
            members.insert("x5c".to_string(), serde_json::Value::Array(chain));
            true
        },
        None => false,
    }
}

/// Writes `document` with `serde_json::to_vec`; a failure is reported by its
/// text. Trusted: writing a `Value` does not fail (its object keys are
/// strings and its numbers finite), and the bytes are the named
/// serialization of the document.
#[verifier::external_body]
pub(crate) fn serialize_document(document: &serde_json::Value) -> (r: Result<Vec<u8>, String>)
    ensures
        r is Ok,
        r matches Ok(bytes) ==> bytes@ == serialized_document(*document),
{
    match serde_json::to_vec(document) {
        Ok(bytes) => Ok(bytes),
        Err(error) => Err(error.to_string()),
    }
}

} // verus!
