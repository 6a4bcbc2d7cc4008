use vstd::prelude::*;
use vstd::string::StringSliceAdditionalSpecFns;
use vstd::utf8::{decode_utf8, valid_utf8};
use crate::lua_text::{
    integer_read_panics, lua_text_integer, lua_text_is_number, text_reads_as_number, text_to_integer,
    text_too_long,
};
use crate::label::{decimal, push_decimal};
use vstd::string::StringExecFns;
use crate::std_calls::{str_from_utf8, utf8_error_of};

verus! {

/// What the component calls read of a Lua float: the float truncated toward
/// zero and converted to `i64` with saturation (`trunc() as i64`), and the
/// integer that the float holds exactly, if it holds one.
#[derive(Clone, Copy, Debug, PartialEq, Eq, Structural)]
pub struct Number {
    pub truncated: i64,
    pub integral: Option<i64>,
}

impl Number {
    /// The two readings agree: a float that holds an integer exactly
    /// truncates to that integer.
    pub open spec fn wf(self) -> bool {
        self.integral matches Some(k) ==> self.truncated == k
    }

}

/// A Lua value passed to or returned from a component call.
#[derive(Clone, Debug, PartialEq, Eq)]
pub enum Value {
    Nil,
    Boolean(bool),
    Integer(i64),
    Number(Number),
    String(Vec<u8>),
}

/// Why a component call failed.
#[derive(Clone, Copy, Debug, PartialEq, Eq, Structural)]
pub enum InvokeError {
    /// `gpu.set` got other than four arguments.
    ArgCount,
    /// The call got other than the given number of arguments.
    ArgCountExpected(usize),
    ExpectedInteger,
    ExpectedBoolean,
    ExpectedString,
    /// A string argument is not well-formed UTF-8: it is up to byte
    /// `valid_up_to`, and then holds an ill-formed sequence of `error_len`
    /// bytes, or ends inside a sequence when that is `None`.
    InvalidUtf8 { valid_up_to: usize, error_len: Option<usize> },
    /// A value could not be read as an integer.
    IntConversion,
    /// An integer does not fit the type it is converted to.
    OutOfRange,
    /// An integer is not the code of a Unicode scalar value.
    InvalidChar,
    /// A value could not be read as a number.
    NumberConversion,
    /// No component answers to the address and method.
    UnknownComponent,
}

impl InvokeError {
    /// The text that the Lua program sees for this error.
    pub open spec fn spec_message(self) -> Seq<char> {
        match self {
            InvokeError::ArgCount => "wrong number of arguments passed"@,
            InvokeError::ArgCountExpected(n) => if n == 0 {
                "wrong number of arguments passed: 0 expected"@
            } else if n == 1 {
                "wrong number of arguments passed: 1 expected"@
            } else {
                "wrong number of arguments passed"@
            },
            InvokeError::ExpectedInteger => "expected integer/number value"@,
            InvokeError::ExpectedBoolean => "expected boolean value"@,
            InvokeError::ExpectedString => "expected string value"@,
            InvokeError::InvalidUtf8 { valid_up_to, error_len } => match error_len {
                Some(n) => "invalid utf-8 sequence of "@ + decimal(n as nat) + " bytes from index "@ + decimal(
                    valid_up_to as nat,
                ),
                None => "incomplete utf-8 byte sequence from index "@ + decimal(valid_up_to as nat),
            },
            InvokeError::IntConversion => "int conversion failed"@,
            InvokeError::OutOfRange => "out of range integral type conversion attempted"@,
            InvokeError::InvalidChar => "converted integer out of range for `char`"@,
            InvokeError::NumberConversion => "number conversion failed"@,
            InvokeError::UnknownComponent => "bad invocation"@,
        }
    }

    /// The text that the Lua program sees for this error.
    pub fn message(&self) -> (m: String)
        ensures
            m@ == self.spec_message(),
    {
        match self {
            InvokeError::ArgCount => "wrong number of arguments passed".to_owned(),
            InvokeError::ArgCountExpected(n) => if *n == 0 {
                "wrong number of arguments passed: 0 expected".to_owned()
            } else if *n == 1 {
                "wrong number of arguments passed: 1 expected".to_owned()
            } else {
                "wrong number of arguments passed".to_owned()
            },
            InvokeError::ExpectedInteger => "expected integer/number value".to_owned(),
            InvokeError::ExpectedBoolean => "expected boolean value".to_owned(),
            InvokeError::ExpectedString => "expected string value".to_owned(),
            InvokeError::InvalidUtf8 { valid_up_to, error_len } => match error_len {
                Some(n) => {
                    let mut m = "invalid utf-8 sequence of ".to_owned();
                    push_decimal(&mut m, *n as u64);
                    m.append(" bytes from index ");
                    push_decimal(&mut m, *valid_up_to as u64);
                    m
                },
                None => {
                    let mut m = "incomplete utf-8 byte sequence from index ".to_owned();
                    push_decimal(&mut m, *valid_up_to as u64);
                    m
                },
            },
            InvokeError::IntConversion => "int conversion failed".to_owned(),
            InvokeError::OutOfRange => "out of range integral type conversion attempted".to_owned(),
            InvokeError::InvalidChar => "converted integer out of range for `char`".to_owned(),
            InvokeError::NumberConversion => "number conversion failed".to_owned(),
            InvokeError::UnknownComponent => "bad invocation".to_owned(),
        }
    }
}

/// The integer an argument stands for when an integer is required: an
/// integer itself, or a float truncated toward zero.
pub open spec fn spec_ld_int(v: Value) -> Result<i64, InvokeError> {
    match v {
        Value::Integer(n) => Ok(n),
        Value::Number(x) => Ok(x.truncated),
        _ => Err(InvokeError::ExpectedInteger),
    }
}

/// The boolean an argument stands for when a boolean is required.
pub open spec fn spec_ld_bool(v: Value) -> Result<bool, InvokeError> {
    match v {
        Value::Boolean(b) => Ok(b),
        _ => Err(InvokeError::ExpectedBoolean),
    }
}

/// The characters an argument stands for when a string is required: the
/// UTF-8 decoding of a string value.
pub open spec fn spec_ld_str(v: Value) -> Result<Seq<char>, InvokeError> {
    match v {
        Value::String(b) => if valid_utf8(b@) {
            Ok(decode_utf8(b@))
        } else {
            Err(
                InvokeError::InvalidUtf8 {
                    valid_up_to: utf8_error_of(b@).0,
                    error_len: utf8_error_of(b@).1,
                },
            )
        },
        _ => Err(InvokeError::ExpectedString),
    }
}

/// The integer the Lua runtime reads from a value, if any: an integer, a
/// float that holds an integer exactly, or a string that reads as one.
pub open spec fn spec_to_integer(v: Value) -> Option<i64> {
    match v {
        Value::Integer(n) => Some(n),
        Value::Number(x) => x.integral,
        Value::String(b) => lua_text_integer(b@),
        _ => None,
    }
}

/// Whether reading an integer from `v` may make the Lua runtime panic: it
/// does on a string with nothing, or only `0`, after an optional sign, and
/// strings longer than `u32::MAX` bytes are left out too.
pub open spec fn to_integer_may_panic(v: Value) -> bool {
    match v {
        Value::String(b) => integer_read_panics(b@) || text_too_long(b@),
        _ => false,
    }
}

/// Whether the Lua runtime reads a number from `v`: an integer or a float
/// always, a string when it holds a numeral.
pub open spec fn spec_reads_as_number(v: Value) -> bool {
    match v {
        Value::Integer(_) => true,
        Value::Number(_) => true,
        Value::String(b) => lua_text_is_number(b@),
        _ => false,
    }
}

/// Whether reading a number from `v` may make the Lua runtime panic: strings
/// longer than `u32::MAX` bytes are left out.
pub open spec fn to_number_may_panic(v: Value) -> bool {
    match v {
        Value::String(b) => text_too_long(b@),
        _ => false,
    }
}

/// A float that holds an integer exactly is read as that integer both when
/// an integer is required and when the runtime converts it to one.
pub proof fn lemma_number_readings_agree(x: Number)
    requires
        x.wf(),
    ensures
        spec_to_integer(Value::Number(x)) matches Some(k) ==> spec_ld_int(Value::Number(x)) == Ok::<i64, InvokeError>(k),
{
}

/// Reads an argument as an integer: an integer as it is, a float truncated.
pub fn ld_int(v: &Value) -> (r: Result<i64, InvokeError>)
    ensures
        r == spec_ld_int(*v),
{
    match v {
        Value::Integer(n) => Ok(*n),
        Value::Number(x) => Ok(x.truncated),
        _ => Err(InvokeError::ExpectedInteger),
    }
}

/// Reads an argument as a boolean.
pub fn ld_bool(v: &Value) -> (r: Result<bool, InvokeError>)
    ensures
        r == spec_ld_bool(*v),
{
    match v {
        Value::Boolean(b) => Ok(*b),
        _ => Err(InvokeError::ExpectedBoolean),
    }
}

/// Reads an argument as a string, which must be well-formed UTF-8.
pub fn ld_str(v: &Value) -> (r: Result<&str, InvokeError>)
    ensures
        match spec_ld_str(*v) {
            Ok(chars) => r matches Ok(s) && s@ == chars,
            Err(e) => r == Err::<&str, InvokeError>(e),
        },
{
    match v {
        Value::String(b) => match str_from_utf8(b.as_slice()) {
            Ok(s) => {
                proof {
                    vstd::utf8::encode_utf8_decode_utf8(s@);
                }
                Ok(s)
            },
            Err((valid_up_to, error_len)) => Err(InvokeError::InvalidUtf8 { valid_up_to, error_len }),
        },
        _ => Err(InvokeError::ExpectedString),
    }
}

/// Reads a value as an integer the way the Lua runtime does.
pub fn to_integer(v: &Value) -> (r: Option<i64>)
    requires
        !to_integer_may_panic(*v),
    ensures
        r == spec_to_integer(*v),
{
    match v {
        Value::Integer(n) => Some(*n),
        Value::Number(x) => x.integral,
        Value::String(b) => text_to_integer(b.as_slice()),
        _ => None,
    }
}

/// Tells whether the Lua runtime reads a number from `v`.
pub fn reads_as_number(v: &Value) -> (r: bool)
    requires
        !to_number_may_panic(*v),
    ensures
        r == spec_reads_as_number(*v),
{
    match v {
        Value::Integer(_) => true,
        Value::Number(_) => true,
        Value::String(b) => text_reads_as_number(b.as_slice()),
        _ => false,
    }
}

} // verus!
