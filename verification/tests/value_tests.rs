use gpu_screen::color::Rgb;
use gpu_screen::lua_text::integer_read_would_panic;
use gpu_screen::value::{ld_bool, ld_int, ld_str, reads_as_number, to_integer, InvokeError, Number, Value};

fn text(s: &str) -> Value {
    Value::String(s.as_bytes().to_vec())
}

#[test]
fn ld_int_reads_integers_and_truncated_floats() {
    assert_eq!(ld_int(&Value::Integer(-7)), Ok(-7));
    assert_eq!(ld_int(&Value::Number(Number { truncated: 3, integral: None })), Ok(3));
    assert_eq!(ld_int(&text("5")), Err(InvokeError::ExpectedInteger));
    assert_eq!(ld_int(&Value::Nil), Err(InvokeError::ExpectedInteger));
    assert_eq!(ld_int(&Value::Boolean(true)), Err(InvokeError::ExpectedInteger));
}

#[test]
fn ld_bool_reads_only_booleans() {
    assert_eq!(ld_bool(&Value::Boolean(false)), Ok(false));
    assert_eq!(ld_bool(&Value::Nil), Err(InvokeError::ExpectedBoolean));
    assert_eq!(ld_bool(&Value::Integer(1)), Err(InvokeError::ExpectedBoolean));
}

#[test]
fn ld_str_decodes_utf8() {
    assert_eq!(ld_str(&text("gpu ✓")), Ok("gpu ✓"));
    assert_eq!(
        ld_str(&Value::String(vec![0xff, 0x41])),
        Err(InvokeError::InvalidUtf8 { valid_up_to: 0, error_len: Some(1) })
    );
    assert_eq!(
        ld_str(&Value::String(vec![0x41, 0xed, 0xa0, 0x80])),
        Err(InvokeError::InvalidUtf8 { valid_up_to: 1, error_len: Some(1) })
    );
    assert_eq!(
        ld_str(&Value::String(vec![0x41, 0x42, 0xe2, 0x9c])),
        Err(InvokeError::InvalidUtf8 { valid_up_to: 2, error_len: None })
    );
    assert_eq!(ld_str(&Value::Integer(3)), Err(InvokeError::ExpectedString));
}

#[test]
fn to_integer_reads_like_lua() {
    assert_eq!(to_integer(&Value::Integer(9)), Some(9));
    assert_eq!(to_integer(&Value::Number(Number { truncated: 2, integral: Some(2) })), Some(2));
    assert_eq!(to_integer(&Value::Number(Number { truncated: 2, integral: None })), None);
    assert_eq!(to_integer(&text("42")), Some(42));
    assert_eq!(to_integer(&text("-42")), Some(-42));
    assert_eq!(to_integer(&text("0xff00")), Some(0xff00));
    assert_eq!(to_integer(&text("10")), Some(10));
    assert_eq!(to_integer(&text("1.0")), Some(1));
    assert_eq!(to_integer(&text("1.5")), None);
    assert_eq!(to_integer(&text("abc")), None);
    assert_eq!(to_integer(&Value::Nil), None);
    assert_eq!(to_integer(&Value::Boolean(true)), None);
}

#[test]
fn integer_read_panic_cases() {
    assert!(integer_read_would_panic(b""));
    assert!(integer_read_would_panic(b"-"));
    assert!(integer_read_would_panic(b"+"));
    assert!(integer_read_would_panic(b"0"));
    assert!(integer_read_would_panic(b"-0"));
    assert!(!integer_read_would_panic(b"00"));
    assert!(!integer_read_would_panic(b"1"));
    assert!(!integer_read_would_panic(b"0x1"));
    assert!(!integer_read_would_panic(b"x"));
}

#[test]
fn colour_unpacking() {
    assert_eq!(Rgb::from_packed(0x123456), Some(Rgb { r: 0x12, g: 0x34, b: 0x56 }));
    assert_eq!(Rgb::from_packed(0), Some(Rgb { r: 0, g: 0, b: 0 }));
    assert_eq!(Rgb::from_packed(0xFFFFFF), Some(Rgb { r: 255, g: 255, b: 255 }));
    assert_eq!(Rgb::from_packed(0x1000000), None);
    assert_eq!(Rgb::from_packed(-1), None);
    assert_eq!(Rgb::from_packed(-256), None);
    assert_eq!(Rgb::from_packed(i64::MIN), None);
}

#[test]
fn colour_round_trip() {
    for v in [0i64, 1, 0x24_24_24, 0xFF_FF_00, 0x80_00_80, 0xFF_FF_FF] {
        let c = Rgb::from_packed(v).unwrap();
        assert_eq!((c.r as i64) * 65536 + (c.g as i64) * 256 + c.b as i64, v);
    }
}

#[test]
fn utf8_error_messages_match_std() {
    for bytes in [vec![0xffu8, 0x41], vec![0x41, 0xc3], vec![0x41, 0x42, 0xe2, 0x9c], vec![0x30; 12].into_iter().chain([0xf8]).collect()] {
        let std_text = std::str::from_utf8(&bytes).unwrap_err().to_string();
        let err = ld_str(&Value::String(bytes.clone())).unwrap_err();
        assert_eq!(err.message(), std_text);
    }
    assert_eq!(
        InvokeError::InvalidUtf8 { valid_up_to: 1, error_len: Some(1) }.message(),
        "invalid utf-8 sequence of 1 bytes from index 1"
    );
    assert_eq!(
        InvokeError::InvalidUtf8 { valid_up_to: 120, error_len: None }.message(),
        "incomplete utf-8 byte sequence from index 120"
    );
}

#[test]
fn error_messages() {
    assert_eq!(InvokeError::ArgCount.message(), "wrong number of arguments passed");
    assert_eq!(InvokeError::ArgCountExpected(0).message(), "wrong number of arguments passed: 0 expected");
    assert_eq!(InvokeError::ArgCountExpected(1).message(), "wrong number of arguments passed: 1 expected");
    assert_eq!(InvokeError::ExpectedInteger.message(), "expected integer/number value");
    assert_eq!(InvokeError::ExpectedBoolean.message(), "expected boolean value");
    assert_eq!(InvokeError::ExpectedString.message(), "expected string value");
    assert_eq!(InvokeError::IntConversion.message(), "int conversion failed");
    assert_eq!(InvokeError::NumberConversion.message(), "number conversion failed");
    assert_eq!(InvokeError::UnknownComponent.message(), "bad invocation");
    assert_eq!(InvokeError::OutOfRange.message(), "out of range integral type conversion attempted");
    assert_eq!(InvokeError::InvalidChar.message(), "converted integer out of range for `char`");
}

#[test]
fn numbers_read_like_lua() {
    assert!(reads_as_number(&Value::Integer(3)));
    assert!(reads_as_number(&Value::Number(Number { truncated: 0, integral: None })));
    assert!(reads_as_number(&text("2.5")));
    assert!(reads_as_number(&text("0x10")));
    assert!(reads_as_number(&text("-7")));
    assert!(!reads_as_number(&text("")));
    assert!(!reads_as_number(&text("seven")));
    assert!(!reads_as_number(&Value::Nil));
    assert!(!reads_as_number(&Value::Boolean(false)));
}
