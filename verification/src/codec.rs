//! What the library has from bincode and serde_json, each call behind a
//! function whose contract is taken on trust.

use vstd::prelude::*;
use vstd::bytes::spec_u32_from_le_bytes;
use vstd::bytes::spec_u32_to_le_bytes;
use vstd::bytes::spec_u64_from_le_bytes;
use vstd::bytes::spec_u64_to_le_bytes;
use crate::model::TagsView;
use crate::tags::strings_view;

verus! {

/// What went wrong in bincode.
#[verifier::external_type_specification]
#[verifier::external_body]
pub struct ExBincodeErrorKind(bincode::ErrorKind);

/// What went wrong in serde_json.
#[verifier::external_type_specification]
#[verifier::external_body]
pub struct ExJsonError(serde_json::Error);

/// The record of an image on disk: format, byte order, width and height as
/// four bytes each, the number of pixel bytes as eight, all with the least
/// significant byte first, and then the pixel bytes.
pub open spec fn image_record(format: u32, order: u32, width: u32, height: u32, data: Seq<u8>) -> Seq<
    u8,
> {
    spec_u32_to_le_bytes(format) + spec_u32_to_le_bytes(order) + spec_u32_to_le_bytes(width)
        + spec_u32_to_le_bytes(height) + spec_u64_to_le_bytes(data.len() as u64) + data
}

/// How many pixel bytes `bytes` announces, where it is long enough to say.
pub open spec fn record_data_len(bytes: Seq<u8>) -> u64 {
    spec_u64_from_le_bytes(bytes.subrange(16, 24))
}

/// Whether `bytes` starts with the record of an image: the five numbers,
/// and as many pixel bytes as the fifth announces. More bytes may follow.
pub open spec fn starts_with_image_record(bytes: Seq<u8>) -> bool {
    bytes.len() >= 24 && record_data_len(bytes) <= bytes.len() - 24
}

/// Writes the record of an image.
///
/// Calls `bincode::serialize` on the tuple of the five fields. bincode writes
/// a tuple as its fields one after the other, a `u32` as four bytes and a
/// length as eight, least significant byte first, and a byte vector as its
/// length and its bytes. It returns `Ok`: it writes into a vector, sets no
/// limit on the size, and knows the length of the byte vector.
#[verifier::external_body]
pub(crate) fn bincode_image_record(
    format: u32,
    order: u32,
    width: u32,
    height: u32,
    data: &Vec<u8>,
) -> (r: Result<Vec<u8>, bincode::Error>)
    ensures
        r is Ok,
        r matches Ok(bytes) ==> bytes@ == image_record(format, order, width, height, data@),
{
    bincode::serialize(&(format, order, width, height, data))
}

/// Reads the record of an image from the start of `bytes`.
///
/// Calls `bincode::deserialize` for the tuple of the five fields. bincode
/// reads the four numbers and the length, then as many bytes as the length
/// says; it fails where `bytes` ends before that, and it accepts bytes that
/// follow the record.
#[verifier::external_body]
pub(crate) fn bincode_image_fields(bytes: &Vec<u8>) -> (r: Result<
    (u32, u32, u32, u32, Vec<u8>),
    bincode::Error,
>)
    ensures
        match r {
            Ok(fields) => {
                &&& starts_with_image_record(bytes@)
                &&& fields.0 == spec_u32_from_le_bytes(bytes@.subrange(0, 4))
                &&& fields.1 == spec_u32_from_le_bytes(bytes@.subrange(4, 8))
                &&& fields.2 == spec_u32_from_le_bytes(bytes@.subrange(8, 12))
                &&& fields.3 == spec_u32_from_le_bytes(bytes@.subrange(12, 16))
                &&& fields.4@ == bytes@.subrange(24, 24 + record_data_len(bytes@))
            },
            Err(_) => !starts_with_image_record(bytes@),
        },
{
    bincode::deserialize::<(u32, u32, u32, u32, Vec<u8>)>(bytes.as_slice())
}

/// A key with a list of strings: one member of a JSON object.
#[derive(Debug)]
pub struct TagList {
    pub key: String,
    pub tags: Vec<String>,
}

impl View for TagList {
    type V = TagsView;

    open spec fn view(&self) -> TagsView {
        TagsView { key: self.key@, tags: strings_view(self.tags@) }
    }
}

/// The members of `v` as plain values.
pub open spec fn tag_lists_view(v: Seq<TagList>) -> Seq<TagsView> {
    v.map_values(|t: TagList| t@)
}

/// The keys of `v`, in order.
pub open spec fn tag_keys(v: Seq<TagsView>) -> Seq<Seq<char>> {
    v.map_values(|t: TagsView| t.key)
}

/// Lists of strings by key.
pub type TagMap = Map<Seq<char>, Seq<Seq<char>>>;

/// The list of each key of `v`.
pub open spec fn tag_map(v: Seq<TagsView>) -> TagMap {
    Map::new(
        |k: Seq<char>| tag_keys(v).contains(k),
        |k: Seq<char>| v[tag_keys(v).index_of(k)].tags,
    )
}

/// The JSON text that serde_json writes for an object whose members are the
/// keys of `members`, in the order of the keys, each with its list of
/// strings.
pub uninterp spec fn json_object_bytes(members: TagMap) -> Seq<u8>;

/// What serde_json reads from `bytes` as an object of lists of strings;
/// `None` where it reads no such object.
pub uninterp spec fn json_object_parsed(bytes: Seq<u8>) -> Option<TagMap>;

/// Writes a JSON object of lists of strings.
///
/// Calls `serde_json::to_vec` on the members as a `BTreeMap`, which
/// serde_json writes as an object in the order of the keys. It returns `Ok`:
/// serde_json fails only where a value refuses to be written or a key is no
/// string, and here the keys are strings and the values lists of strings.
#[verifier::external_body]
pub(crate) fn json_object_to_vec(members: &Vec<TagList>) -> (r: Result<Vec<u8>, serde_json::Error>)
    requires
        tag_keys(tag_lists_view(members@)).no_duplicates(),
    ensures
        r is Ok,
        r matches Ok(bytes) ==> bytes@ == json_object_bytes(tag_map(tag_lists_view(members@))),
{
    let map: std::collections::BTreeMap<&String, &Vec<String>> = members.iter().map(
        |m| (&m.key, &m.tags),
    ).collect();
    serde_json::to_vec(&map)
}

/// Reads a JSON object of lists of strings.
///
/// Calls `serde_json::from_slice` for a `BTreeMap`, and hands its members
/// out in the order of the keys. Of its result this claims, beside the name:
/// no key comes twice; and the text that serde_json writes for an object is
/// read back as that object.
#[verifier::external_body]
pub(crate) fn json_object_from_slice(bytes: &Vec<u8>) -> (r: Result<Vec<TagList>, serde_json::Error>)
    ensures
        match r {
            Ok(members) => {
                &&& tag_keys(tag_lists_view(members@)).no_duplicates()
                &&& json_object_parsed(bytes@) == Some(tag_map(tag_lists_view(members@)))
            },
            Err(_) => json_object_parsed(bytes@) is None,
        },
        r is Err ==> forall|m: TagMap|
            m.dom().finite() ==> bytes@ != #[trigger] json_object_bytes(m),
        r matches Ok(members) ==> forall|m: TagMap|
            m.dom().finite() && bytes@ == #[trigger] json_object_bytes(m) ==> tag_map(
                tag_lists_view(members@),
            ) == m,
{
    let map: std::collections::BTreeMap<String, Vec<String>> = serde_json::from_slice(
        bytes.as_slice(),
    )?;
    Ok(map.into_iter().map(|(key, tags)| TagList { key, tags }).collect())
}

/// A JSON document as serde_json holds it.
#[verifier::external_type_specification]
#[verifier::external_body]
pub struct ExJsonValue(serde_json::Value);

/// The document that serde_json reads from the text `text`; `None` where it
/// reads none.
pub uninterp spec fn json_document(text: Seq<char>) -> Option<serde_json::Value>;

/// The member of `doc` under `key`; `null` where `doc` has no such member.
pub uninterp spec fn json_member(doc: serde_json::Value, key: Seq<char>) -> serde_json::Value;

/// The JSON text of `value`, as serde_json writes it without blanks.
pub uninterp spec fn json_text(value: serde_json::Value) -> Seq<char>;

/// The number that `value` is, where it is a number that a `u64` holds.
pub uninterp spec fn json_u64(value: serde_json::Value) -> Option<u64>;

/// The flag that `value` is, where it is `true` or `false`.
pub uninterp spec fn json_bool(value: serde_json::Value) -> Option<bool>;

/// Reads a JSON document. Calls `serde_json::from_str`.
#[verifier::external_body]
pub(crate) fn json_from_str(text: &str) -> (r: Result<serde_json::Value, serde_json::Error>)
    ensures
        match r {
            Ok(doc) => json_document(text@) == Some(doc),
            Err(_) => json_document(text@) is None,
        },
{
    serde_json::from_str::<serde_json::Value>(text)
}

/// The member `key` of `doc`. Indexes `doc` with `key`, which gives `null`
/// where `doc` is no object or has no such member.
#[verifier::external_body]
pub(crate) fn json_index<'a>(doc: &'a serde_json::Value, key: &str) -> (r: &'a serde_json::Value)
    ensures
        *r == json_member(*doc, key@),
{
    &doc[key]
}

/// The JSON text of `value`. Calls `to_string` on it.
#[verifier::external_body]
pub(crate) fn json_to_string(value: &serde_json::Value) -> (r: String)
    ensures
        r@ == json_text(*value),
{
    value.to_string()
}

/// `value` as a `u64`. Calls `Value::as_u64`, which gives `None` for what is
/// no number and for a number that is negative or has a fraction.
#[verifier::external_body]
pub(crate) fn json_as_u64(value: &serde_json::Value) -> (r: Option<u64>)
    ensures
        r == json_u64(*value),
{
    value.as_u64()
}

/// `value` as a `bool`. Calls `Value::as_bool`, which gives `None` for what
/// is neither `true` nor `false`.
#[verifier::external_body]
pub(crate) fn json_as_bool(value: &serde_json::Value) -> (r: Option<bool>)
    ensures
        r == json_bool(*value),
{
    value.as_bool()
}

} // verus!
