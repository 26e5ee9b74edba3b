//! The identifiers of a document.

use crate::arrays::guid_array;
use crate::arrays::guid_bytes;
use crate::arrays::guid_slice;
use crate::bytes::bytes_eq;
use crate::error::Error;
use crate::error::ErrorView;
use arrayvec::ArrayVec;
use crate::text::utf8_string;
use vstd::pervasive::unreached;
use vstd::prelude::*;
use vstd::slice::slice_to_vec;
use vstd::std_specs::cmp::PartialEqSpecImpl;
use vstd::utf8::decode_utf8;
use vstd::utf8::valid_utf8;

verus! {

/// The greatest length of an identifier, in bytes.
pub const GUID_LEN: usize = 36;

/// An identifier of the document: an opaque key of at most 36 bytes, as in
/// `8bff0fc0-0ad4-40a4-a4c7-c6a5c1df96b7`. Two identifiers are the same where
/// their bytes are.
#[derive(Debug, Hash)]
pub struct Guid(ArrayVec<u8, 36>);

impl View for Guid {
    type V = Seq<u8>;

    closed spec fn view(&self) -> Seq<u8> {
        guid_bytes(self.0)
    }
}

impl DeepView for Guid {
    type V = Seq<u8>;

    open spec fn deep_view(&self) -> Seq<u8> {
        self@
    }
}

impl PartialEqSpecImpl for Guid {
    open spec fn obeys_eq_spec() -> bool {
        true
    }

    open spec fn eq_spec(&self, other: &Guid) -> bool {
        self@ == other@
    }
}

impl PartialEq for Guid {
    fn eq(&self, other: &Guid) -> (same: bool) {
        bytes_eq(guid_slice(&self.0), guid_slice(&other.0))
    }
}

impl Eq for Guid {

}

impl Default for Guid {
    fn default() -> (guid: Self)
        ensures
            guid@ == Seq::<u8>::empty(),
    {
        let nothing: Vec<u8> = Vec::new();
        match guid_array(nothing.as_slice()) {
            Ok(array) => Guid(array),
            Err(_) => unreached(),
        }
    }
}

impl Clone for Guid {
    fn clone(&self) -> (copy: Self)
        ensures
            copy@ == self@,
    {
        match guid_array(guid_slice(&self.0)) {
            Ok(array) => Guid(array),
            Err(_) => unreached(),
        }
    }
}

impl Guid {
    /// The identifier made of the given bytes, if they are not too many.
    pub fn try_from(bytes: &[u8]) -> (res: Result<Guid, Error>)
        ensures
            match res {
                Ok(guid) => bytes@.len() <= GUID_LEN && guid@ == bytes@,
                Err(error) => bytes@.len() > GUID_LEN && error@ == (ErrorView::IdentifierTooLong {
                    text: bytes@,
                }),
            },
    {
        match guid_array(bytes) {
            Ok(array) => Ok(Guid(array)),
            Err(_) => Err(Error::IdentifierTooLong { text: slice_to_vec(bytes) }),
        }
    }

    /// The identifier's bytes.
    pub fn as_ref(&self) -> (bytes: &[u8])
        ensures
            bytes@ == self@,
            bytes@.len() <= GUID_LEN,
    {
        guid_slice(&self.0)
    }

    /// The identifier as text, for an identifier that is valid UTF-8.
    pub fn to_string(&self) -> (text: String)
        requires
            valid_utf8(self@),
        ensures
            text@ == decode_utf8(self@),
    {
        match utf8_string(guid_slice(&self.0)) {
            Some(text) => text,
            None => unreached(),
        }
    }

    /// The identifier's bytes.
    pub fn borrow(&self) -> (bytes: &[u8])
        ensures
            bytes@ == self@,
            bytes@.len() <= GUID_LEN,
    {
        guid_slice(&self.0)
    }
}

} // verus!
