use vstd::prelude::*;
use vstd::string::StringSliceAdditionalSpecFns;
use vstd::utf8::valid_utf8;

verus! {

/// Where `std::str::from_utf8` finds `bytes` ill-formed: the length of the
/// well-formed prefix (`Utf8Error::valid_up_to`) and the length of the
/// ill-formed sequence after it, or `None` when the bytes end inside a
/// sequence (`Utf8Error::error_len`).
pub uninterp spec fn utf8_error_of(bytes: Seq<u8>) -> (usize, Option<usize>);

/// Calls `std::str::from_utf8`: it accepts exactly the well-formed UTF-8
/// byte strings, and the string it gives back is made of those very bytes.
/// On other bytes it gives the two numbers of its `Utf8Error`, named by
/// `utf8_error_of`. As std documents them, the first is the longest prefix
/// that is well-formed, and the second the length (at least one byte) of the
/// ill-formed sequence that starts there; which sequence std counts as
/// ill-formed, and when it reports `None`, is not stated here.
#[verifier::external_body]
pub(crate) fn str_from_utf8(bytes: &[u8]) -> (r: Result<&str, (usize, Option<usize>)>)
    ensures
        r is Ok <==> valid_utf8(bytes@),
        r matches Ok(s) ==> s.spec_bytes() == bytes@,
        r matches Err(e) ==> e == utf8_error_of(bytes@),
        r matches Err(e) ==> e.0 < bytes@.len() && valid_utf8(bytes@.subrange(0, e.0 as int)),
        r matches Err(e) ==> forall|k: int|
            e.0 < k <= bytes@.len() ==> !valid_utf8(#[trigger] bytes@.subrange(0, k)),
        r matches Err(e) ==> (e.1 matches Some(n) ==> 1 <= n && e.0 + n <= bytes@.len()),
{
    match std::str::from_utf8(bytes) {
        Ok(s) => Ok(s),
        Err(e) => Err((e.valid_up_to(), e.error_len())),
    }
}

/// Calls `char::try_from` on a `u32`: it succeeds exactly on the Unicode
/// scalar values (at most `0x10FFFF`, outside the surrogates
/// `0xD800..=0xDFFF`), and the character it gives has that code.
#[verifier::external_body]
pub(crate) fn char_from_u32(u: u32) -> (r: Option<char>)
    ensures
        r is Some <==> (u <= 0x10FFFF && !(0xD800 <= u <= 0xDFFF)),
        r matches Some(c) ==> c as u32 == u,
{
    char::try_from(u).ok()
}

/// Calls `String::push`, which appends one character at the end.
#[verifier::external_body]
pub(crate) fn string_push(s: &mut String, c: char)
    ensures
        final(s)@ == old(s)@.push(c),
{
    s.push(c)
}

} // verus!
