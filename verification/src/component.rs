use vstd::prelude::*;
use vstd::string::StringSliceAdditionalSpecFns;
use crate::color::{unpacked, Rgb};
use crate::screen::{blank_cell, sat_add, Cell, Screen};
use crate::value::{
    ld_bool, ld_int, ld_str, spec_ld_bool, spec_ld_int, spec_ld_str, spec_to_integer, to_integer,
    to_integer_may_panic, to_number_may_panic, reads_as_number, spec_reads_as_number, InvokeError, Value,
};

verus! {

/// Columns of the screen the GPU draws on.
pub const COLUMNS: usize = 90;

/// Rows of the screen the GPU draws on.
pub const ROWS: usize = 35;

/// The component methods a Lua program can call.
#[derive(Clone, Copy, Debug, PartialEq, Eq, Structural)]
pub enum Component {
    /// `$gpu` `gpu.set(x, y, text_or_code, vertical)`
    GpuSet,
    /// `$gpu` `gpu.getResolution()`
    GpuGetResolution,
    /// `$gpu` `gpu.setForeground(0xRRGGBB)`
    GpuSetForeground,
    /// `$gpu` `gpu.setBackground(0xRRGGBB)`
    GpuSetBackground,
    /// `$os` `os.sleep(seconds)`
    OsSleep,
}

/// The component that answers to `address` and `method`, if any.
pub open spec fn spec_lookup(address: Seq<char>, method: Seq<char>) -> Option<Component> {
    if address == "$gpu"@ && method == "gpu.set"@ {
        Some(Component::GpuSet)
    } else if address == "$gpu"@ && method == "gpu.getResolution"@ {
        Some(Component::GpuGetResolution)
    } else if address == "$gpu"@ && method == "gpu.setForeground"@ {
        Some(Component::GpuSetForeground)
    } else if address == "$gpu"@ && method == "gpu.setBackground"@ {
        Some(Component::GpuSetBackground)
    } else if address == "$os"@ && method == "os.sleep"@ {
        Some(Component::OsSleep)
    } else {
        None
    }
}

fn str_eq(a: &str, b: &str) -> (r: bool)
    ensures
        r == (a@ == b@),
{
    let x = a.as_bytes();
    let y = b.as_bytes();
    proof {
        vstd::utf8::encode_utf8_decode_utf8(a@);
        vstd::utf8::encode_utf8_decode_utf8(b@);
    }
    if x.len() != y.len() {
        return false;
    }
    let n = x.len();
    let mut i: usize = 0;
    while i < n
        invariant
            n == x@.len(),
            n == y@.len(),
            x@ == a.spec_bytes(),
            y@ == b.spec_bytes(),
            i <= n,
            forall|k: int| 0 <= k < i ==> x@[k] == y@[k],
        decreases n - i,
    {
        if x[i] != y[i] {
            assert(x@[i as int] != y@[i as int]);
            return false;
        }
        i = i + 1;
    }
    proof {
        assert(x@ =~= y@);
    }
    true
}

impl Component {
    /// The component that answers to `address` and `method`, if any.
    pub fn lookup(address: &str, method: &str) -> (r: Option<Component>)
        ensures
            r == spec_lookup(address@, method@),
    {
        if str_eq(address, "$gpu") && str_eq(method, "gpu.set") {
            Some(Component::GpuSet)
        } else if str_eq(address, "$gpu") && str_eq(method, "gpu.getResolution") {
            Some(Component::GpuGetResolution)
        } else if str_eq(address, "$gpu") && str_eq(method, "gpu.setForeground") {
            Some(Component::GpuSetForeground)
        } else if str_eq(address, "$gpu") && str_eq(method, "gpu.setBackground") {
            Some(Component::GpuSetBackground)
        } else if str_eq(address, "$os") && str_eq(method, "os.sleep") {
            Some(Component::OsSleep)
        } else {
            None
        }
    }
}

/// What a successful component call hands back to the Lua program.
#[derive(Clone, Debug, PartialEq, Eq)]
pub enum Reply {
    /// Return these values.
    Values(Vec<Value>),
    /// Sleep for the time its single argument gives, which reads as a
    /// number, then return nothing.
    Sleep,
}

/// The character with the code `code`, as `gpu.set` reads it.
pub open spec fn spec_char_of(code: i64) -> Result<char, InvokeError> {
    if code < 0 || code > u32::MAX {
        Err(InvokeError::OutOfRange)
    } else if code <= 0x10FFFF && !(0xD800 <= code <= 0xDFFF) {
        Ok((code as u32) as char)
    } else {
        Err(InvokeError::InvalidChar)
    }
}

/// The cells after `gpu.set(x, y, what, vertical)`: `what` is either the code
/// of one character or a string, written from column `x`, row `y` (counted
/// from 1) in the colours `colors`, to the right or downwards.
pub open spec fn spec_gpu_set(cells: Seq<Cell>, colors: (Rgb, Rgb), args: Seq<Value>) -> Result<Seq<Cell>, InvokeError> {
    if args.len() != 4 {
        Err(InvokeError::ArgCount)
    } else {
        match spec_ld_int(args[0]) {
            Err(e) => Err(e),
            Ok(cx) => match spec_ld_int(args[1]) {
                Err(e) => Err(e),
                Ok(cy) => match spec_ld_bool(args[3]) {
                    Err(e) => Err(e),
                    Ok(vertical) => {
                        let pos = (sat_add(cx, -1), sat_add(cy, -1));
                        match spec_ld_int(args[2]) {
                            Ok(code) => match spec_char_of(code) {
                                Err(e) => Err(e),
                                Ok(c) => Ok(Screen::<COLUMNS, ROWS>::placed(cells, c, colors, pos)),
                            },
                            Err(_) => match spec_ld_str(args[2]) {
                                Err(e) => Err(e),
                                Ok(text) => Ok(Screen::<COLUMNS, ROWS>::placed_all(cells, text, colors, pos, vertical).0),
                            },
                        }
                    },
                },
            },
        }
    }
}

/// The colour that `gpu.setForeground` and `gpu.setBackground` read from their
/// arguments: one integer `0xRRGGBB`.
pub open spec fn spec_color_arg(args: Seq<Value>) -> Result<Rgb, InvokeError> {
    if args.len() != 1 {
        Err(InvokeError::ArgCountExpected(1))
    } else {
        match spec_to_integer(args[0]) {
            None => Err(InvokeError::IntConversion),
            Some(n) => match unpacked(n as int) {
                None => Err(InvokeError::OutOfRange),
                Some(c) => Ok(c),
            },
        }
    }
}

/// Whether a call of `component` with `args` may make the Lua runtime panic
/// while reading its argument: a colour given as a string with nothing, or
/// only `0`, after an optional sign, or a colour or sleep time given as a
/// string longer than `u32::MAX` bytes.
pub open spec fn spec_invoke_may_panic(component: Component, args: Seq<Value>) -> bool {
    args.len() == 1 && ({
        ||| (component == Component::GpuSetForeground || component == Component::GpuSetBackground)
            && to_integer_may_panic(args[0])
        ||| component == Component::OsSleep && to_number_may_panic(args[0])
    })
}

/// What a call of `component` with `args` does to the cells and colours
/// `cells` and `gpu`: the new cells, the new colours, and the values handed
/// back, or `None` when the program is to sleep.
pub open spec fn spec_invoke(component: Component, cells: Seq<Cell>, gpu: (Rgb, Rgb), args: Seq<Value>) -> Result<
    (Seq<Cell>, (Rgb, Rgb), Option<Seq<Value>>),
    InvokeError,
> {
    match component {
        Component::GpuSet => match spec_gpu_set(cells, gpu, args) {
            Ok(after) => Ok((after, gpu, Some(Seq::empty()))),
            Err(e) => Err(e),
        },
        Component::GpuGetResolution => if args.len() == 0 {
            Ok((cells, gpu, Some(seq![Value::Integer(90), Value::Integer(35)])))
        } else {
            Err(InvokeError::ArgCountExpected(0))
        },
        Component::GpuSetForeground => match spec_color_arg(args) {
            Ok(c) => Ok((cells, (c, gpu.1), Some(Seq::empty()))),
            Err(e) => Err(e),
        },
        Component::GpuSetBackground => match spec_color_arg(args) {
            Ok(c) => Ok((cells, (gpu.0, c), Some(Seq::empty()))),
            Err(e) => Err(e),
        },
        Component::OsSleep => if args.len() != 1 {
            Err(InvokeError::ArgCountExpected(1))
        } else if !spec_reads_as_number(args[0]) {
            Err(InvokeError::NumberConversion)
        } else {
            Ok((cells, gpu, None))
        },
    }
}

/// What the call of `method` at `address` with `args` does; an address and
/// method that no component answers to fail with `UnknownComponent`.
pub open spec fn spec_call(address: Seq<char>, method: Seq<char>, cells: Seq<Cell>, gpu: (Rgb, Rgb), args: Seq<Value>) -> Result<
    (Seq<Cell>, (Rgb, Rgb), Option<Seq<Value>>),
    InvokeError,
> {
    match spec_lookup(address, method) {
        None => Err(InvokeError::UnknownComponent),
        Some(component) => spec_invoke(component, cells, gpu, args),
    }
}

/// Whether the call of `method` at `address` with `args` may make the Lua
/// runtime panic.
pub open spec fn spec_call_may_panic(address: Seq<char>, method: Seq<char>, args: Seq<Value>) -> bool {
    spec_lookup(address, method) matches Some(component) && spec_invoke_may_panic(component, args)
}

/// Tells whether serving the call of `method` at `address` with `args` may
/// make the Lua runtime panic, as it does when a colour is given as an empty
/// string, a lone sign, or `0` with or without a sign; colours and sleep
/// times given as strings longer than `u32::MAX` bytes are refused too.
pub fn call_may_panic(address: &str, method: &str, args: &Vec<Value>) -> (r: bool)
    ensures
        r == spec_call_may_panic(address@, method@, args@),
{
    match Component::lookup(address, method) {
        Some(Component::GpuSetForeground) | Some(Component::GpuSetBackground) => {
            if args.len() != 1 {
                return false;
            }
            match &args[0] {
                Value::String(b) => crate::lua_text::integer_read_would_panic(b.as_slice())
                    || crate::lua_text::text_is_too_long(b.as_slice()),
                _ => false,
            }
        },
        Some(Component::OsSleep) => {
            if args.len() != 1 {
                return false;
            }
            match &args[0] {
                Value::String(b) => crate::lua_text::text_is_too_long(b.as_slice()),
                _ => false,
            }
        },
        _ => false,
    }
}

/// The devices a Lua program drives: a screen of `COLUMNS` by `ROWS` cells and
/// the GPU's current foreground and background colour.
pub struct Peripherals {
    pub screen: Screen<COLUMNS, ROWS>,
    pub gpu: (Rgb, Rgb),
}

impl Peripherals {
    /// A blank screen, drawing white on dark blue.
    pub fn new() -> (p: Peripherals)
        ensures
            p.screen@.len() == COLUMNS * ROWS,
            forall|k: int| 0 <= k < COLUMNS * ROWS ==> #[trigger] p.screen@[k] == blank_cell(),
            p.gpu == (Rgb { r: 255, g: 255, b: 255 }, Rgb { r: 0, g: 0, b: 0x8B }),
    {
        Peripherals { screen: Screen::new(), gpu: (Rgb::white(), Rgb::dark_blue()) }
    }

    /// `gpu.set(x, y, what, vertical)`: writes one character given by its code,
    /// or a string, from column `x`, row `y` (counted from 1) in the current
    /// colours. Returns no values.
    pub fn gpu_set(&mut self, args: &Vec<Value>) -> (r: Result<Vec<Value>, InvokeError>)
        ensures
            final(self).gpu == old(self).gpu,
            match spec_gpu_set(old(self).screen@, old(self).gpu, args@) {
                Ok(cells) => r matches Ok(v) && v@.len() == 0 && final(self).screen@ == cells,
                Err(e) => r == Err::<Vec<Value>, InvokeError>(e) && final(self).screen@ == old(self).screen@,
            },
    {
        if args.len() != 4 {
            return Err(InvokeError::ArgCount);
        }
        let cx = match ld_int(&args[0]) {
            Ok(n) => n,
            Err(e) => return Err(e),
        };
        let cy = match ld_int(&args[1]) {
            Ok(n) => n,
            Err(e) => return Err(e),
        };
        let mut pos: (i64, i64) = (
            if cx == i64::MIN { cx } else { cx - 1 },
            if cy == i64::MIN { cy } else { cy - 1 },
        );
        let vertical = match ld_bool(&args[3]) {
            Ok(b) => b,
            Err(e) => return Err(e),
        };
        let colors = self.gpu;
        match ld_int(&args[2]) {
            Ok(code) => {
                if code < 0 || code > 0xFFFF_FFFF {
                    return Err(InvokeError::OutOfRange);
                }
                let c = match crate::std_calls::char_from_u32(code as u32) {
                    Some(c) => c,
                    None => return Err(InvokeError::InvalidChar),
                };
                proof {
                    vstd::utf8::char_u32_cast(c, code as u32);
                }
                self.screen.put(c, colors, &mut pos, vertical);
            },
            Err(_) => {
                let text = match ld_str(&args[2]) {
                    Ok(s) => s,
                    Err(e) => return Err(e),
                };
                self.screen.put_str(text, colors, &mut pos, vertical);
            },
        }
        Ok(Vec::new())
    }

    /// `gpu.getResolution()`: the number of columns and rows of the screen.
    pub fn gpu_get_resolution(&self, args: &Vec<Value>) -> (r: Result<Vec<Value>, InvokeError>)
        ensures
            args@.len() == 0 ==> (r matches Ok(v) && v@ == seq![Value::Integer(90), Value::Integer(35)]),
            args@.len() != 0 ==> r == Err::<Vec<Value>, InvokeError>(InvokeError::ArgCountExpected(0)),
    {
        if args.len() != 0 {
            return Err(InvokeError::ArgCountExpected(0));
        }
        let columns = COLUMNS as i64;
        let rows = ROWS as i64;
        let mut v: Vec<Value> = Vec::new();
        v.push(Value::Integer(columns));
        v.push(Value::Integer(rows));
        Ok(v)
    }

    /// Serves a call of `component` with `args`.
    pub fn invoke(&mut self, component: Component, args: &Vec<Value>) -> (r: Result<Reply, InvokeError>)
        requires
            !spec_invoke_may_panic(component, args@),
        ensures
            match spec_invoke(component, old(self).screen@, old(self).gpu, args@) {
                Ok((cells, gpu, out)) => r matches Ok(reply) && final(self).screen@ == cells
                    && final(self).gpu == gpu && match reply {
                    Reply::Values(v) => out == Some(v@),
                    Reply::Sleep => out is None,
                },
                Err(e) => r == Err::<Reply, InvokeError>(e) && final(self).screen@ == old(self).screen@
                    && final(self).gpu == old(self).gpu,
            },
    {
        let done = match component {
            Component::GpuSet => self.gpu_set(args),
            Component::GpuGetResolution => self.gpu_get_resolution(args),
            Component::GpuSetForeground => self.gpu_set_foreground(args),
            Component::GpuSetBackground => self.gpu_set_background(args),
            Component::OsSleep => {
                if args.len() != 1 {
                    return Err(InvokeError::ArgCountExpected(1));
                }
                if !reads_as_number(&args[0]) {
                    return Err(InvokeError::NumberConversion);
                }
                return Ok(Reply::Sleep);
            },
        };
        match done {
            Ok(v) => Ok(Reply::Values(v)),
            Err(e) => Err(e),
        }
    }

    /// Serves the call of `method` at `address` with `args`; fails with
    /// `UnknownComponent` when no component answers to them.
    pub fn call(&mut self, address: &str, method: &str, args: &Vec<Value>) -> (r: Result<Reply, InvokeError>)
        requires
            !spec_call_may_panic(address@, method@, args@),
        ensures
            match spec_call(address@, method@, old(self).screen@, old(self).gpu, args@) {
                Ok((cells, gpu, out)) => r matches Ok(reply) && final(self).screen@ == cells
                    && final(self).gpu == gpu && match reply {
                    Reply::Values(v) => out == Some(v@),
                    Reply::Sleep => out is None,
                },
                Err(e) => r == Err::<Reply, InvokeError>(e) && final(self).screen@ == old(self).screen@
                    && final(self).gpu == old(self).gpu,
            },
    {
        match Component::lookup(address, method) {
            Some(component) => self.invoke(component, args),
            None => Err(InvokeError::UnknownComponent),
        }
    }

    /// Reads the colour argument of `gpu.setForeground` and `gpu.setBackground`.
    fn color_arg(args: &Vec<Value>) -> (r: Result<Rgb, InvokeError>)
        requires
            !(args@.len() == 1 && to_integer_may_panic(args@[0])),
        ensures
            r == spec_color_arg(args@),
    {
        if args.len() != 1 {
            return Err(InvokeError::ArgCountExpected(1));
        }
        match to_integer(&args[0]) {
            None => Err(InvokeError::IntConversion),
            Some(n) => match Rgb::from_packed(n) {
                None => Err(InvokeError::OutOfRange),
                Some(c) => Ok(c),
            },
        }
    }

    /// `gpu.setForeground(0xRRGGBB)`: sets the colour of the characters
    /// written from now on. Returns no values.
    pub fn gpu_set_foreground(&mut self, args: &Vec<Value>) -> (r: Result<Vec<Value>, InvokeError>)
        requires
            !spec_invoke_may_panic(Component::GpuSetForeground, args@),
        ensures
            final(self).screen == old(self).screen,
            match spec_color_arg(args@) {
                Ok(c) => r matches Ok(v) && v@.len() == 0 && final(self).gpu == (c, old(self).gpu.1),
                Err(e) => r == Err::<Vec<Value>, InvokeError>(e) && final(self).gpu == old(self).gpu,
            },
    {
        match Self::color_arg(args) {
            Ok(c) => {
                self.gpu.0 = c;
                Ok(Vec::new())
            },
            Err(e) => Err(e),
        }
    }

    /// `gpu.setBackground(0xRRGGBB)`: sets the colour behind the characters
    /// written from now on. Returns no values.
    pub fn gpu_set_background(&mut self, args: &Vec<Value>) -> (r: Result<Vec<Value>, InvokeError>)
        requires
            !spec_invoke_may_panic(Component::GpuSetBackground, args@),
        ensures
            final(self).screen == old(self).screen,
            match spec_color_arg(args@) {
                Ok(c) => r matches Ok(v) && v@.len() == 0 && final(self).gpu == (old(self).gpu.0, c),
                Err(e) => r == Err::<Vec<Value>, InvokeError>(e) && final(self).gpu == old(self).gpu,
            },
    {
        match Self::color_arg(args) {
            Ok(c) => {
                self.gpu.1 = c;
                Ok(Vec::new())
            },
            Err(e) => Err(e),
        }
    }
}

} // verus!
