use vstd::prelude::*;

verus! {

/// The integer that the Lua runtime reads from a string value when it wants
/// an integer (`Constant::to_integer` of `piccolo` on a string), if it reads
/// one: a hexadecimal or decimal integer, or else a float that holds an
/// integer exactly.
pub uninterp spec fn lua_text_integer(bytes: Seq<u8>) -> Option<i64>;

/// The bytes that follow a leading `-` or `+` sign, if there is one.
pub open spec fn unsigned_part(bytes: Seq<u8>) -> Seq<u8> {
    if bytes.len() > 0 && (bytes[0] == 0x2du8 || bytes[0] == 0x2bu8) {
        bytes.drop_first()
    } else {
        bytes
    }
}

/// Whether reading an integer from `bytes` makes the Lua runtime panic: its
/// probe for a `0x` prefix indexes past the end when nothing, or only a
/// single `0`, follows the sign.
pub open spec fn integer_read_panics(bytes: Seq<u8>) -> bool {
    let digits = unsigned_part(bytes);
    digits.len() == 0 || (digits.len() == 1 && digits[0] == 0x30u8)
}

/// Whether the Lua runtime reads a number from a string value when it wants
/// one (`Constant::to_number` of `piccolo` on a string gives `Some`): a
/// hexadecimal or decimal numeral.
pub uninterp spec fn lua_text_is_number(bytes: Seq<u8>) -> bool;

/// Whether a string is longer than `u32::MAX` bytes. The Lua runtime's float
/// reader counts leading zero digits in a `u32`, which can overflow, and so
/// panic, only on such strings; they are left out.
pub open spec fn text_too_long(bytes: Seq<u8>) -> bool {
    bytes.len() > u32::MAX
}

/// Calls `piccolo::Constant::to_number` on a string constant and tells
/// whether it gives a number. The answer is named by `lua_text_is_number`;
/// how Lua numerals are read is not stated here.
#[verifier::external_body]
pub(crate) fn text_reads_as_number(bytes: &[u8]) -> (r: bool)
    requires
        !text_too_long(bytes@),
    ensures
        r == lua_text_is_number(bytes@),
{
    piccolo::Constant::String(bytes).to_number().is_some()
}

/// Tells whether a string is too long to be read as a number.
pub fn text_is_too_long(bytes: &[u8]) -> (r: bool)
    ensures
        r == text_too_long(bytes@),
{
    bytes.len() > 0xFFFF_FFFF
}

/// Calls `piccolo::Constant::to_integer` on a string constant. The result is
/// named by `lua_text_integer`; how Lua numerals are read is not stated here.
#[verifier::external_body]
pub(crate) fn text_to_integer(bytes: &[u8]) -> (r: Option<i64>)
    requires
        !integer_read_panics(bytes@),
        !text_too_long(bytes@),
    ensures
        r == lua_text_integer(bytes@),
{
    piccolo::Constant::String(bytes).to_integer()
}

/// Tells whether reading an integer from `bytes` would make the Lua runtime
/// panic.
pub fn integer_read_would_panic(bytes: &[u8]) -> (r: bool)
    ensures
        r == integer_read_panics(bytes@),
{
    let n = bytes.len();
    let start: usize = if n > 0 && (bytes[0] == 0x2du8 || bytes[0] == 0x2bu8) { 1 } else { 0 };
    proof {
        if start == 1 {
            assert(unsigned_part(bytes@) =~= bytes@.subrange(1, n as int));
        } else {
            assert(unsigned_part(bytes@) =~= bytes@);
        }
    }
    n == start || (n == start + 1 && bytes[start] == 0x30u8)
}

} // verus!
