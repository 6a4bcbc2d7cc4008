use gpu_screen::color::Rgb;
use gpu_screen::component::{call_may_panic, Component, Peripherals, Reply};
use gpu_screen::label::invocation_label;
use gpu_screen::screen::Cell;
use gpu_screen::value::{InvokeError, Number, Value};

fn text(s: &str) -> Value {
    Value::String(s.as_bytes().to_vec())
}

fn integer(n: i64) -> Value {
    Value::Integer(n)
}

fn cell(p: &Peripherals, x: usize, y: usize) -> Cell {
    let cells = p.screen.draw_cells();
    let (cx, cy, c) = cells[y * 90 + (89 - x)];
    assert_eq!((cx, cy), (x, y));
    c
}

fn blank() -> Cell {
    Cell { ch: 'i', fg: Rgb::white(), bg: Rgb::dark_blue() }
}

#[test]
fn lookup_finds_the_five_methods() {
    assert_eq!(Component::lookup("$gpu", "gpu.set"), Some(Component::GpuSet));
    assert_eq!(Component::lookup("$gpu", "gpu.getResolution"), Some(Component::GpuGetResolution));
    assert_eq!(Component::lookup("$gpu", "gpu.setForeground"), Some(Component::GpuSetForeground));
    assert_eq!(Component::lookup("$gpu", "gpu.setBackground"), Some(Component::GpuSetBackground));
    assert_eq!(Component::lookup("$os", "os.sleep"), Some(Component::OsSleep));
    assert_eq!(Component::lookup("$os", "gpu.set"), None);
    assert_eq!(Component::lookup("$gpu", "gpu.sets"), None);
    assert_eq!(Component::lookup("", ""), None);
}

#[test]
fn unknown_component_is_a_bad_invocation() {
    let mut p = Peripherals::new();
    assert_eq!(p.call("$net", "net.open", &vec![]), Err(InvokeError::UnknownComponent));
    assert_eq!(InvokeError::UnknownComponent.message(), "bad invocation");
}

#[test]
fn gpu_set_one_based_char_code() {
    let mut p = Peripherals::new();
    let r = p.call("$gpu", "gpu.set", &vec![integer(1), integer(1), integer(0x41), Value::Boolean(false)]);
    assert_eq!(r, Ok(Reply::Values(vec![])));
    assert_eq!(cell(&p, 0, 0), Cell { ch: 'A', fg: Rgb::white(), bg: Rgb::dark_blue() });
    assert_eq!(cell(&p, 1, 0), blank());
}

#[test]
fn gpu_set_string_runs() {
    let mut p = Peripherals::new();
    let r = p.call("$gpu", "gpu.set", &vec![integer(25), integer(1), text("GPU"), Value::Boolean(false)]);
    assert_eq!(r, Ok(Reply::Values(vec![])));
    assert_eq!(cell(&p, 24, 0).ch, 'G');
    assert_eq!(cell(&p, 25, 0).ch, 'P');
    assert_eq!(cell(&p, 26, 0).ch, 'U');
    let r = p.call("$gpu", "gpu.set", &vec![integer(3), integer(2), text("|||"), Value::Boolean(true)]);
    assert!(r.is_ok());
    assert_eq!(cell(&p, 2, 1).ch, '|');
    assert_eq!(cell(&p, 2, 3).ch, '|');
    assert_eq!(cell(&p, 2, 4), blank());
}

#[test]
fn gpu_set_clips_at_the_edge() {
    let mut p = Peripherals::new();
    let r = p.call("$gpu", "gpu.set", &vec![integer(89), integer(35), text("abcd"), Value::Boolean(false)]);
    assert!(r.is_ok());
    assert_eq!(cell(&p, 88, 34).ch, 'a');
    assert_eq!(cell(&p, 89, 34).ch, 'b');
    assert_eq!(cell(&p, 0, 34), blank());
    let r = p.call("$gpu", "gpu.set", &vec![integer(i64::MIN), integer(0), text("x"), Value::Boolean(false)]);
    assert!(r.is_ok());
}

#[test]
fn gpu_set_number_coordinates_truncate() {
    let mut p = Peripherals::new();
    let x = Value::Number(Number { truncated: 2, integral: None });
    let r = p.call("$gpu", "gpu.set", &vec![x, integer(1), text("k"), Value::Boolean(false)]);
    assert!(r.is_ok());
    assert_eq!(cell(&p, 1, 0).ch, 'k');
}

#[test]
fn gpu_set_errors_leave_screen() {
    let mut p = Peripherals::new();
    let before = p.screen.draw_cells();
    let cases: Vec<(Vec<Value>, InvokeError)> = vec![
        (vec![integer(1), integer(1), text("a")], InvokeError::ArgCount),
        (vec![text("1"), integer(1), text("a"), Value::Boolean(false)], InvokeError::ExpectedInteger),
        (vec![integer(1), Value::Nil, text("a"), Value::Boolean(false)], InvokeError::ExpectedInteger),
        (vec![integer(1), integer(1), text("a"), Value::Nil], InvokeError::ExpectedBoolean),
        (vec![integer(1), integer(1), Value::Nil, Value::Boolean(false)], InvokeError::ExpectedString),
        (vec![integer(1), integer(1), Value::String(vec![0xc3]), Value::Boolean(false)], InvokeError::InvalidUtf8 { valid_up_to: 0, error_len: None }),
        (vec![integer(1), integer(1), integer(-1), Value::Boolean(false)], InvokeError::OutOfRange),
        (vec![integer(1), integer(1), integer(1 << 40), Value::Boolean(false)], InvokeError::OutOfRange),
        (vec![integer(1), integer(1), integer(0xD800), Value::Boolean(false)], InvokeError::InvalidChar),
        (vec![integer(1), integer(1), integer(0x110000), Value::Boolean(false)], InvokeError::InvalidChar),
    ];
    for (args, err) in cases {
        assert_eq!(p.call("$gpu", "gpu.set", &args), Err(err));
    }
    assert_eq!(p.screen.draw_cells(), before);
}

#[test]
fn resolution() {
    let mut p = Peripherals::new();
    assert_eq!(p.call("$gpu", "gpu.getResolution", &vec![]), Ok(Reply::Values(vec![integer(90), integer(35)])));
    assert_eq!(p.gpu_get_resolution(&vec![integer(1)]), Err(InvokeError::ArgCountExpected(0)));
}

#[test]
fn colours() {
    let mut p = Peripherals::new();
    assert_eq!(p.gpu, (Rgb::white(), Rgb::dark_blue()));
    assert_eq!(p.call("$gpu", "gpu.setForeground", &vec![integer(0xFF0080)]), Ok(Reply::Values(vec![])));
    assert_eq!(p.gpu, (Rgb { r: 255, g: 0, b: 0x80 }, Rgb::dark_blue()));
    assert_eq!(p.call("$gpu", "gpu.setBackground", &vec![text("0x102030")]), Ok(Reply::Values(vec![])));
    assert_eq!(p.gpu, (Rgb { r: 255, g: 0, b: 0x80 }, Rgb { r: 0x10, g: 0x20, b: 0x30 }));
    let n = Value::Number(Number { truncated: 256, integral: Some(256) });
    assert!(p.call("$gpu", "gpu.setBackground", &vec![n]).is_ok());
    assert_eq!(p.gpu.1, Rgb { r: 0, g: 1, b: 0 });
    let before = p.gpu;
    assert_eq!(p.call("$gpu", "gpu.setForeground", &vec![]), Err(InvokeError::ArgCountExpected(1)));
    assert_eq!(p.call("$gpu", "gpu.setForeground", &vec![integer(0x1000000)]), Err(InvokeError::OutOfRange));
    assert_eq!(p.call("$gpu", "gpu.setForeground", &vec![integer(-1)]), Err(InvokeError::OutOfRange));
    assert_eq!(p.call("$gpu", "gpu.setForeground", &vec![Value::Nil]), Err(InvokeError::IntConversion));
    assert_eq!(p.call("$gpu", "gpu.setForeground", &vec![text("red")]), Err(InvokeError::IntConversion));
    let half = Value::Number(Number { truncated: 0, integral: None });
    assert_eq!(p.call("$gpu", "gpu.setBackground", &vec![half]), Err(InvokeError::IntConversion));
    assert_eq!(p.gpu, before);
}

#[test]
fn colours_then_write() {
    let mut p = Peripherals::new();
    assert!(p.call("$gpu", "gpu.setForeground", &vec![integer(0x242424)]).is_ok());
    assert!(p.call("$gpu", "gpu.setBackground", &vec![integer(0)]).is_ok());
    assert!(p.call("$gpu", "gpu.set", &vec![integer(5), integer(7), integer('█' as i64), Value::Boolean(false)]).is_ok());
    assert_eq!(
        cell(&p, 4, 6),
        Cell { ch: '█', fg: Rgb { r: 0x24, g: 0x24, b: 0x24 }, bg: Rgb { r: 0, g: 0, b: 0 } }
    );
}

#[test]
fn sleep_is_handed_back() {
    let mut p = Peripherals::new();
    let n = Value::Number(Number { truncated: 0, integral: None });
    assert_eq!(p.call("$os", "os.sleep", &vec![n]), Ok(Reply::Sleep));
    assert_eq!(p.call("$os", "os.sleep", &vec![]), Err(InvokeError::ArgCountExpected(1)));
    assert_eq!(p.call("$os", "os.sleep", &vec![integer(2)]), Ok(Reply::Sleep));
    assert_eq!(p.call("$os", "os.sleep", &vec![text("0.5")]), Ok(Reply::Sleep));
    assert_eq!(p.call("$os", "os.sleep", &vec![text("0x1p-3")]), Ok(Reply::Sleep));
    assert_eq!(p.call("$os", "os.sleep", &vec![text("soon")]), Err(InvokeError::NumberConversion));
    assert_eq!(p.call("$os", "os.sleep", &vec![Value::Nil]), Err(InvokeError::NumberConversion));
    assert_eq!(p.call("$os", "os.sleep", &vec![Value::Boolean(true)]), Err(InvokeError::NumberConversion));
    assert!(!call_may_panic("$os", "os.sleep", &vec![text("")]));
}

#[test]
fn panicking_colour_strings_are_detected() {
    assert!(call_may_panic("$gpu", "gpu.setForeground", &vec![text("0")]));
    assert!(call_may_panic("$gpu", "gpu.setBackground", &vec![text("")]));
    assert!(!call_may_panic("$gpu", "gpu.setBackground", &vec![text("7")]));
    assert!(!call_may_panic("$gpu", "gpu.set", &vec![text("0")]));
    assert!(!call_may_panic("$gpu", "gpu.setForeground", &vec![text("0"), integer(1)]));
}

#[test]
fn labels() {
    assert_eq!(invocation_label(0), "component.invoke(): ___");
    assert_eq!(invocation_label(7), "component.invoke(): 7");
    assert_eq!(invocation_label(42), "component.invoke(): 42");
    assert_eq!(invocation_label(1000), "component.invoke(): 1000");
    assert_eq!(invocation_label(u64::MAX), format!("component.invoke(): {}", u64::MAX));
}
