//! Names and attributes of tags, computed by the crate quick_xml. The
//! three private functions of this module are taken on trust: their
//! contracts restate what the source of quick_xml shows and are not proved
//! here.

use quick_xml::events::BytesEnd;
use quick_xml::events::BytesStart;
use vstd::prelude::*;

verus! {

/// The byte `:`.
pub const COLON: u8 = 0x3a;

/// The byte of a space.
pub const SPACE: u8 = 0x20;

/// The byte `=`.
pub const EQUALS: u8 = 0x3d;

/// The byte `"`.
pub const QUOTE: u8 = 0x22;

/// The local part of an element name: what follows its first colon, or the
/// whole name where it has none.
pub open spec fn local_part(name: Seq<u8>) -> Seq<u8> {
    match name.index_of_first(COLON) {
        Some(i) => name.skip(i + 1),
        None => name,
    }
}

/// What one attribute adds to the content of an opening tag: a space, the
/// key, `="`, the value as it is, and `"`.
pub open spec fn attribute_bytes(key: Seq<u8>, value: Seq<u8>) -> Seq<u8> {
    seq![SPACE] + key + seq![EQUALS, QUOTE] + value + seq![QUOTE]
}

/// Calls `BytesStart::local_name` of quick_xml on an opening tag made of
/// `content` with a name of `name_len` bytes. By its source the method cuts
/// the name at its first colon, found with `memchr`, and keeps what follows;
/// without a colon it keeps the name.
#[verifier::external_body]
pub(crate) fn start_local_name(content: &[u8], name_len: usize) -> (local: Vec<u8>)
    requires
        name_len <= content@.len(),
    ensures
        local@ == local_part(content@.take(name_len as int)),
{
    BytesStart::borrowed(content, name_len).local_name().to_vec()
}

/// Calls `BytesEnd::local_name` of quick_xml on a closing tag of the given
/// name. By its source the method looks for the position of the first colon
/// and keeps what follows it; without a colon it keeps the name.
#[verifier::external_body]
pub(crate) fn end_local_name(name: &[u8]) -> (local: Vec<u8>)
    ensures
        local@ == local_part(name@),
{
    BytesEnd::borrowed(name).local_name().to_vec()
}

/// Calls `BytesStart::push_attribute` of quick_xml with a pair of byte
/// strings. By its source the pair becomes an attribute with no change to key
/// or value, and the method appends a space, the key, `="`, the value and `"`
/// to the tag's content; the length of the name plays no part.
#[verifier::external_body]
pub(crate) fn push_attribute(content: Vec<u8>, name_len: usize, key: &[u8], value: &[u8]) -> (out:
    Vec<u8>)
    ensures
        out@ == content@ + attribute_bytes(key@, value@),
{
    let mut start = BytesStart::owned(content, name_len);
    start.push_attribute((key, value));
    start.to_vec()
}

} // verus!
