//! The JSON metadata record stored between the container signature and the
//! payload.  serde_json writes and reads the JSON text; which members go in
//! and what is made of the members read back is decided here.

use vstd::prelude::*;

verus! {

#[verifier::external_type_specification]
#[verifier::external_body]
pub struct ExJsonError(serde_json::Error);

/// The bytes that serde_json writes for the JSON object built from the given
/// string members and then the given integer members.
pub uninterp spec fn json_object_bytes(
    text_members: Seq<(Seq<char>, Seq<char>)>,
    number_members: Seq<(Seq<char>, u64)>,
) -> Seq<u8>;

/// The string held by member `key` of the JSON object in `json`; `None` when
/// the text is not JSON, is not an object, lacks the member, or the member is
/// not a string.
pub uninterp spec fn json_text_member(json: Seq<u8>, key: Seq<char>) -> Option<Seq<char>>;

/// The boolean held by member `key` of the JSON object in `json`; `None` when
/// the text is not JSON, is not an object, lacks the member, or the member is
/// not a boolean.
pub uninterp spec fn json_bool_member(json: Seq<u8>, key: Seq<char>) -> Option<bool>;

/// The value of the last member named `key` in a member list.
pub open spec fn last_member<V>(members: Seq<(Seq<char>, V)>, key: Seq<char>) -> Option<V>
    decreases members.len(),
{
    if members.len() == 0 {
        None
    } else if members.last().0 == key {
        Some(members.last().1)
    } else {
        last_member(members.drop_last(), key)
    }
}

/// Reading `bytes` back as a JSON object finds no boolean member, and finds
/// as string member `key` the last string given under that key unless an
/// integer was given under it too (integers are inserted last and replace
/// strings of the same key).
pub open spec fn object_reads_back(
    bytes: Seq<u8>,
    text_members: Seq<(Seq<char>, Seq<char>)>,
    number_members: Seq<(Seq<char>, u64)>,
) -> bool {
    &&& forall|key: Seq<char>| #[trigger] json_bool_member(bytes, key) is None
    &&& forall|key: Seq<char>|
        #[trigger] json_text_member(bytes, key) == (if last_member(number_members, key) is Some {
            None
        } else {
            last_member(text_members, key)
        })
}

/// serde_json `Map::insert`, `Value::String`, `Value::from(u64)` and `to_vec`:
/// encodes the object made of the given members (a later insert under the
/// same key replaces the earlier value).  On success the bytes are those
/// named by `json_object_bytes` for the same members, and reading them back
/// with `from_slice::<Value>` gives the same object: string members come back
/// as the strings inserted last under their key, and no member is a boolean.
/// The encoding succeeds: serde_json documents `to_vec` as failing only when a
/// `Serialize` impl fails or a map has non-string keys, and a `Value` object
/// of strings and integers written into a `Vec` does neither.
#[verifier::external_body]
fn encode_json_object(
    text_members: &Vec<(String, String)>,
    number_members: &Vec<(String, u64)>,
) -> (r: Result<Vec<u8>, serde_json::Error>)
    ensures
        r is Ok,
        r matches Ok(bytes) ==> bytes@ == json_object_bytes(
            text_members.deep_view(),
            number_members.deep_view(),
        ),
        r matches Ok(bytes) ==> object_reads_back(
            bytes@,
            text_members.deep_view(),
            number_members.deep_view(),
        ),
{
    let mut map = serde_json::Map::new();
    for (key, value) in text_members {
        map.insert(key.clone(), serde_json::Value::String(value.clone()));
    }
    for (key, value) in number_members {
        map.insert(key.clone(), serde_json::Value::from(*value));
    }
    serde_json::to_vec(&serde_json::Value::Object(map))
}

/// The text of a serde_json error (its `Display`); nothing is claimed of it.
#[verifier::external_body]
fn json_error_text(e: &serde_json::Error) -> String {
    e.to_string()
}

/// serde_json `from_slice::<Value>`, `Value::get` and `Value::as_str`: the
/// string member `key` of the object in `json`, as named by `json_text_member`.
#[verifier::external_body]
fn text_member(json: &[u8], key: &str) -> (r: Option<String>)
    ensures
        r.deep_view() == json_text_member(json@, key@),
{
    match serde_json::from_slice::<serde_json::Value>(json) {
        Ok(value) => value.get(key).and_then(serde_json::Value::as_str).map(String::from),
        Err(_) => None,
    }
}

/// serde_json `from_slice::<Value>`, `Value::get` and `Value::as_bool`: the
/// boolean member `key` of the object in `json`, as named by `json_bool_member`.
#[verifier::external_body]
fn bool_member(json: &[u8], key: &str) -> (r: Option<bool>)
    ensures
        r == json_bool_member(json@, key@),
{
    match serde_json::from_slice::<serde_json::Value>(json) {
        Ok(value) => value.get(key).and_then(serde_json::Value::as_bool),
        Err(_) => None,
    }
}

/// Encodes a JSON object made of string members and then integer members;
/// the encoding always succeeds.
pub fn encode_object(
    text_members: &Vec<(String, String)>,
    number_members: &Vec<(String, u64)>,
) -> (r: Result<Vec<u8>, String>)
    ensures
        r is Ok,
        r matches Ok(bytes) ==> bytes@ == json_object_bytes(
            text_members.deep_view(),
            number_members.deep_view(),
        ),
        r matches Ok(bytes) ==> object_reads_back(
            bytes@,
            text_members.deep_view(),
            number_members.deep_view(),
        ),
{
    match encode_json_object(text_members, number_members) {
        Ok(bytes) => Ok(bytes),
        Err(e) => Err(json_error_text(&e)),
    }
}

/// What the extractor takes from the metadata record.
#[derive(Debug, Clone)]
pub struct ImageInfo {
    pub app_name: String,
    pub encrypted: bool,
}

pub const APP_NAME_KEY: &'static str = "app_name";
pub const ENCRYPTED_KEY: &'static str = "encrypted";
pub const UNKNOWN_APP: &'static str = "Unknown";

/// The application name, or `Unknown` when the record has none.
pub open spec fn app_name_of(member: Option<Seq<char>>) -> Seq<char> {
    match member {
        Some(name) => name,
        None => UNKNOWN_APP@,
    }
}

/// The encryption flag, false when the record has none.
pub open spec fn encrypted_of(member: Option<bool>) -> bool {
    match member {
        Some(flag) => flag,
        None => false,
    }
}

/// The record's view from the members found in it.
pub fn image_info_from_members(app_name: Option<String>, encrypted: Option<bool>) -> (info: ImageInfo)
    ensures
        info.app_name@ == app_name_of(app_name.deep_view()),
        info.encrypted == encrypted_of(encrypted),
{
    ImageInfo {
        app_name: match app_name {
            Some(name) => name,
            None => String::from_str(UNKNOWN_APP),
        },
        encrypted: match encrypted {
            Some(flag) => flag,
            None => false,
        },
    }
}

/// Reads the metadata record: the `app_name` string member (default
/// `Unknown`) and the `encrypted` boolean member (default false).  A record
/// that is not a JSON object yields the defaults.
pub fn read_image_info(meta: &[u8]) -> (info: ImageInfo)
    ensures
        info.app_name@ == app_name_of(json_text_member(meta@, APP_NAME_KEY@)),
        info.encrypted == encrypted_of(json_bool_member(meta@, ENCRYPTED_KEY@)),
{
    let name = text_member(meta, APP_NAME_KEY);
    let flag = bool_member(meta, ENCRYPTED_KEY);
    image_info_from_members(name, flag)
}

} // verus!
