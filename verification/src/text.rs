//! Joining of texts and reading of bytes as text. The two private
//! functions `join` and `utf8_str` are taken on trust: they call itertools
//! and the standard library and their contracts are not proved here.

use itertools::Itertools;
use vstd::prelude::*;
use vstd::string::*;
use vstd::utf8::*;

verus! {

/// The parts written one behind the other with the separator between each
/// two of them; the empty text where there is no part.
pub open spec fn joined<T>(parts: Seq<Seq<T>>, sep: Seq<T>) -> Seq<T>
    decreases parts.len(),
{
    if parts.len() == 0 {
        Seq::empty()
    } else if parts.len() == 1 {
        parts[0]
    } else {
        joined(parts.drop_last(), sep) + sep + parts.last()
    }
}

/// Joining one more part: the part alone where it is the first, else what
/// was joined, the separator and the part.
pub proof fn lemma_joined_push<T>(parts: Seq<Seq<T>>, part: Seq<T>, sep: Seq<T>)
    ensures
        joined(parts.push(part), sep) == (if parts.len() == 0 {
            part
        } else {
            joined(parts, sep) + sep + part
        }),
{
    assert(parts.push(part).drop_last() =~= parts);
    if parts.len() == 0 {
        assert(joined(parts.push(part), sep) == part);
    } else {
        assert(joined(parts.push(part), sep) == joined(parts, sep) + sep + part);
    }
}

/// Calls `Itertools::join` of itertools on the parts. By its source the
/// result is empty where there is no part; else it is the first part as
/// `Display` writes it, and for each further part the separator and then that
/// part. `Display` writes a string slice as it is.
#[verifier::external_body]
pub(crate) fn join(parts: &Vec<&str>, sep: &str) -> (text: String)
    ensures
        text@ == joined(parts.deep_view(), sep@),
{
    parts.iter().join(sep)
}

/// Calls `std::str::from_utf8`: the bytes read as a string slice where they
/// are valid UTF-8, and nothing where they are not.
#[verifier::external_body]
pub(crate) fn utf8_str(bytes: &[u8]) -> (text: Option<&str>)
    ensures
        text is Some <==> valid_utf8(bytes@),
        text matches Some(s) ==> s.spec_bytes() == bytes@,
{
    match std::str::from_utf8(bytes) {
        Ok(text) => Some(text),
        Err(_) => None,
    }
}

/// The text that the bytes spell, if they are valid UTF-8.
pub fn utf8_string(bytes: &[u8]) -> (text: Option<String>)
    ensures
        match text {
            Some(s) => valid_utf8(bytes@) && s@ == decode_utf8(bytes@),
            None => !valid_utf8(bytes@),
        },
{
    match utf8_str(bytes) {
        Some(s) => {
            proof {
                encode_utf8_decode_utf8(s@);
            }
            Some(s.to_owned())
        },
        None => None,
    }
}

} // verus!
