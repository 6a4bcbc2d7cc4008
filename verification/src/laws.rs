use vstd::prelude::*;
use crate::color::{packed, unpacked, Rgb};
use crate::component::{spec_invoke, Component, COLUMNS, ROWS};
use crate::value::{spec_reads_as_number, spec_to_integer, InvokeError, Number, Value};
use vstd::utf8::{decode_utf8, valid_utf8};
use crate::screen::{advance, is_control_code, Cell, Screen};

verus! {

/// Where the `i`-th character of a run of text written from `loc` lands: `i`
/// rows below when the text runs vertically, else `i` columns to the right.
pub open spec fn run_position(loc: (i64, i64), vertical: bool, i: int) -> (int, int) {
    if vertical {
        (loc.0 as int, loc.1 + i)
    } else {
        (loc.0 + i, loc.1 as int)
    }
}

/// Whether the `i`-th character of the run lands on the screen.
pub open spec fn run_on_screen<const W: usize, const H: usize>(loc: (i64, i64), vertical: bool, i: int) -> bool {
    let p = run_position(loc, vertical, i);
    0 <= p.0 < W && 0 <= p.1 < H
}

/// Whether some character of a run of `n` characters lands on the cell with
/// index `k`.
pub open spec fn run_writes<const W: usize, const H: usize>(loc: (i64, i64), vertical: bool, n: int, k: int) -> bool {
    exists|i: int|
        0 <= i < n && #[trigger] run_on_screen::<W, H>(loc, vertical, i) && Screen::<W, H>::index(
            run_position(loc, vertical, i).0,
            run_position(loc, vertical, i).1,
        ) == k
}

proof fn lemma_placed<const W: usize, const H: usize>(cells: Seq<Cell>, c: char, colors: (Rgb, Rgb), loc: (i64, i64))
    requires
        cells.len() == W * H,
    ensures
        Screen::<W, H>::placed(cells, c, colors, loc).len() == cells.len(),
        Screen::<W, H>::in_bounds(loc) ==> Screen::<W, H>::placed(cells, c, colors, loc)[Screen::<W, H>::index(loc.0 as int, loc.1 as int)]
            == (Cell { ch: c, fg: colors.0, bg: colors.1 }),
        forall|k: int| 0 <= k < cells.len() && (Screen::<W, H>::in_bounds(loc) ==> k != Screen::<W, H>::index(loc.0 as int, loc.1 as int))
            ==> #[trigger] Screen::<W, H>::placed(cells, c, colors, loc)[k] == cells[k],
{
    if Screen::<W, H>::in_bounds(loc) {
        Screen::<W, H>::lemma_index_in_grid(loc.0 as int, loc.1 as int);
    }
}

/// Painting order lists every cell once: the cell in column `x` and row `y`
/// comes at place `y * W + (W - 1 - x)`, with its column, row and content.
pub proof fn lemma_draw_order_lists_cell<const W: usize, const H: usize>(cells: Seq<Cell>, x: int, y: int)
    requires
        cells.len() == W * H,
        0 <= x < W,
        0 <= y < H,
    ensures
        0 <= y * W + (W - 1 - x) < W * H,
        Screen::<W, H>::draw_order(cells)[y * W + (W - 1 - x)] == (x as usize, y as usize, cells[y * W + x]),
{
    let j = W - 1 - x;
    assert(0 <= y * W + j < W * H) by (nonlinear_arith)
        requires
            0 <= j < W,
            0 <= y < H,
    ;
    vstd::arithmetic::div_mod::lemma_fundamental_div_mod_converse(y * W + j, W as int, y, j);
}

/// A character written on the screen is what painting then shows at its
/// place, and every other cell is painted as before.
pub proof fn lemma_put_then_draw<const W: usize, const H: usize>(
    cells: Seq<Cell>,
    c: char,
    colors: (Rgb, Rgb),
    loc: (i64, i64),
    x: int,
    y: int,
)
    requires
        cells.len() == W * H,
        0 <= x < W,
        0 <= y < H,
    ensures
        Screen::<W, H>::draw_order(Screen::<W, H>::placed(cells, c, colors, loc))[y * W + (W - 1 - x)] == (
            x as usize,
            y as usize,
            if x == loc.0 && y == loc.1 {
                Cell { ch: c, fg: colors.0, bg: colors.1 }
            } else {
                cells[y * W + x]
            },
        ),
{
    let after = Screen::<W, H>::placed(cells, c, colors, loc);
    if Screen::<W, H>::in_bounds(loc) {
        Screen::<W, H>::lemma_index_in_grid(loc.0 as int, loc.1 as int);
    }
    Screen::<W, H>::lemma_index_in_grid(x, y);
    lemma_draw_order_lists_cell::<W, H>(after, x, y);
    if Screen::<W, H>::in_bounds(loc) && !(x == loc.0 && y == loc.1) {
        assert(y * W + x != loc.1 * W + loc.0) by (nonlinear_arith)
            requires
                0 <= x < W,
                0 <= loc.0 < W,
                0 <= y,
                0 <= loc.1,
                !(x == loc.0 && y == loc.1),
        ;
    }
}

proof fn lemma_distinct_cells<const W: usize, const H: usize>(loc: (i64, i64), vertical: bool, i: int, j: int)
    requires
        i != j,
        run_on_screen::<W, H>(loc, vertical, i),
        run_on_screen::<W, H>(loc, vertical, j),
    ensures
        Screen::<W, H>::index(run_position(loc, vertical, i).0, run_position(loc, vertical, i).1)
            != Screen::<W, H>::index(run_position(loc, vertical, j).0, run_position(loc, vertical, j).1),
{
    let p = run_position(loc, vertical, i);
    let q = run_position(loc, vertical, j);
    assert(p.1 * W + p.0 != q.1 * W + q.0) by (nonlinear_arith)
        requires
            0 <= p.0 < W,
            0 <= q.0 < W,
            0 <= p.1,
            0 <= q.1,
            p != q,
    ;
}

/// Text written in a straight run lands character by character: the `i`-th
/// character takes the `i`-th cell of the run (to the right, or downwards
/// when vertical) where that cell is on the screen, no cell off the run
/// changes, and the cursor ends just past the run. This holds when the
/// cursor does not saturate and, for text running to the right, no
/// character is a control character (those take no room).
pub proof fn lemma_text_run<const W: usize, const H: usize>(
    cells: Seq<Cell>,
    text: Seq<char>,
    colors: (Rgb, Rgb),
    loc: (i64, i64),
    vertical: bool,
)
    requires
        cells.len() == W * H,
        vertical ==> loc.1 + text.len() <= i64::MAX,
        !vertical ==> loc.0 + text.len() <= i64::MAX,
        !vertical ==> forall|i: int| 0 <= i < text.len() ==> !is_control_code(#[trigger] text[i]),
    ensures
        ({
            let (after, cursor) = Screen::<W, H>::placed_all(cells, text, colors, loc, vertical);
            &&& after.len() == cells.len()
            &&& cursor.0 == run_position(loc, vertical, text.len() as int).0
            &&& cursor.1 == run_position(loc, vertical, text.len() as int).1
            &&& forall|i: int|
                0 <= i < text.len() && #[trigger] run_on_screen::<W, H>(loc, vertical, i) ==> after[Screen::<W, H>::index(
                    run_position(loc, vertical, i).0,
                    run_position(loc, vertical, i).1,
                )] == (Cell { ch: text[i], fg: colors.0, bg: colors.1 })
            &&& forall|k: int|
                0 <= k < cells.len() && !run_writes::<W, H>(loc, vertical, text.len() as int, k) ==> after[k]
                    == #[trigger] cells[k]
        }),
    decreases text.len(),
{
    let n = text.len() as int;
    if n > 0 {
        let c = text[0];
        let rest = text.drop_first();
        let next = advance(c, loc, vertical);
        let first = Screen::<W, H>::placed(cells, c, colors, loc);
        lemma_placed::<W, H>(cells, c, colors, loc);
        assert(run_position(loc, vertical, 0) == (loc.0 as int, loc.1 as int));
        assert(next.0 == run_position(loc, vertical, 1).0 && next.1 == run_position(loc, vertical, 1).1);
        assert forall|i: int| 0 <= i < rest.len() implies !vertical ==> !is_control_code(#[trigger] rest[i]) by {
            if !vertical {
                assert(rest[i] == text[i + 1]);
            }
        }
        lemma_text_run::<W, H>(first, rest, colors, next, vertical);
        let (after, cursor) = Screen::<W, H>::placed_all(first, rest, colors, next, vertical);
        assert(Screen::<W, H>::placed_all(cells, text, colors, loc, vertical) == (after, cursor));
        assert forall|i: int| 0 <= i <= n implies #[trigger] run_position(next, vertical, i - 1)
            == run_position(loc, vertical, i) by {}
        let k0 = Screen::<W, H>::index(run_position(loc, vertical, 0).0, run_position(loc, vertical, 0).1);
        // The first character's cell is not touched again.
        if run_on_screen::<W, H>(loc, vertical, 0) {
            assert(!run_writes::<W, H>(next, vertical, n - 1, k0)) by {
                if run_writes::<W, H>(next, vertical, n - 1, k0) {
                    let j = choose|j: int|
                        0 <= j < n - 1 && #[trigger] run_on_screen::<W, H>(next, vertical, j)
                            && Screen::<W, H>::index(run_position(next, vertical, j).0, run_position(next, vertical, j).1)
                            == k0;
                    assert(run_position(next, vertical, j) == run_position(loc, vertical, j + 1));
                    assert(run_on_screen::<W, H>(loc, vertical, j + 1));
                    lemma_distinct_cells::<W, H>(loc, vertical, 0, j + 1);
                }
            }
        }
        assert forall|i: int|
            0 <= i < n && #[trigger] run_on_screen::<W, H>(loc, vertical, i) implies after[Screen::<W, H>::index(
                run_position(loc, vertical, i).0,
                run_position(loc, vertical, i).1,
            )] == (Cell { ch: text[i], fg: colors.0, bg: colors.1 }) by {
            if i == 0 {
                assert(Screen::<W, H>::in_bounds(loc));
                Screen::<W, H>::lemma_index_in_grid(loc.0 as int, loc.1 as int);
                assert(k0 == Screen::<W, H>::index(loc.0 as int, loc.1 as int));
                assert(first[k0] == (Cell { ch: c, fg: colors.0, bg: colors.1 }));
            } else {
                assert(run_position(next, vertical, i - 1) == run_position(loc, vertical, i));
                assert(run_on_screen::<W, H>(next, vertical, i - 1));
                assert(rest[i - 1] == text[i]);
            }
        }
        assert forall|k: int|
            0 <= k < cells.len() && !run_writes::<W, H>(loc, vertical, n, k) implies after[k] == #[trigger] cells[k] by {
            if run_writes::<W, H>(next, vertical, n - 1, k) {
                let j = choose|j: int|
                    0 <= j < n - 1 && #[trigger] run_on_screen::<W, H>(next, vertical, j)
                        && Screen::<W, H>::index(run_position(next, vertical, j).0, run_position(next, vertical, j).1)
                        == k;
                assert(run_position(next, vertical, j) == run_position(loc, vertical, j + 1));
                assert(run_on_screen::<W, H>(loc, vertical, j + 1));
                assert(run_writes::<W, H>(loc, vertical, n, k));
            }
            if Screen::<W, H>::in_bounds(loc) {
                assert(run_on_screen::<W, H>(loc, vertical, 0));
                assert(k != k0);
            }
            assert(first[k] == cells[k]);
            assert(after[k] == first[k]);
        }
    }
}
/// Writing the characters of `text` with one `put` after another, each from
/// where the last left the cursor, is writing `text` as a whole: `states`
/// and `locs` are the cells and the cursor before the first call and after
/// each call.
pub proof fn lemma_successive_puts<const W: usize, const H: usize>(
    states: Seq<Seq<Cell>>,
    locs: Seq<(i64, i64)>,
    text: Seq<char>,
    colors: (Rgb, Rgb),
    vertical: bool,
)
    requires
        states.len() == text.len() + 1,
        locs.len() == text.len() + 1,
        forall|i: int|
            0 <= i < text.len() ==> states[i + 1] == Screen::<W, H>::placed(#[trigger] states[i], text[i], colors, locs[i])
                && locs[i + 1] == advance(text[i], locs[i], vertical),
    ensures
        (states[text.len() as int], locs[text.len() as int]) == Screen::<W, H>::placed_all(
            states[0],
            text,
            colors,
            locs[0],
            vertical,
        ),
    decreases text.len(),
{
    if text.len() > 0 {
        let rest_states = states.drop_first();
        let rest_locs = locs.drop_first();
        let rest = text.drop_first();
        assert forall|i: int| 0 <= i < rest.len() implies rest_states[i + 1] == Screen::<W, H>::placed(
            #[trigger] rest_states[i],
            rest[i],
            colors,
            rest_locs[i],
        ) && rest_locs[i + 1] == advance(rest[i], rest_locs[i], vertical) by {
            assert(rest_states[i] == states[i + 1]);
            assert(states[i + 2] == Screen::<W, H>::placed(states[i + 1], text[i + 1], colors, locs[i + 1]));
        }
        assert(states[1] == Screen::<W, H>::placed(states[0], text[0], colors, locs[0]));
        lemma_successive_puts::<W, H>(rest_states, rest_locs, rest, colors, vertical);
    }
}

/// `n` successive `put` calls of characters that are not control characters
/// (for text running right), from `(x, y)` with `x + n` and `y + n` within
/// `i64`, write a straight run: character `i` lands at `(x + i, y)`, or at
/// `(x, y + i)` when vertical, wherever that cell is on the screen; every
/// other cell keeps its old content; and the cursor ends at `(x + n, y)`, or
/// `(x, y + n)`.
pub proof fn lemma_successive_puts_form_run<const W: usize, const H: usize>(
    states: Seq<Seq<Cell>>,
    locs: Seq<(i64, i64)>,
    text: Seq<char>,
    colors: (Rgb, Rgb),
    vertical: bool,
)
    requires
        states.len() == text.len() + 1,
        locs.len() == text.len() + 1,
        states[0].len() == W * H,
        forall|i: int|
            0 <= i < text.len() ==> states[i + 1] == Screen::<W, H>::placed(#[trigger] states[i], text[i], colors, locs[i])
                && locs[i + 1] == advance(text[i], locs[i], vertical),
        vertical ==> locs[0].1 + text.len() <= i64::MAX,
        !vertical ==> locs[0].0 + text.len() <= i64::MAX,
        !vertical ==> forall|i: int| 0 <= i < text.len() ==> !is_control_code(#[trigger] text[i]),
    ensures
        ({
            let n = text.len() as int;
            let after = states[n];
            let start = locs[0];
            &&& locs[n].0 == run_position(start, vertical, n).0
            &&& locs[n].1 == run_position(start, vertical, n).1
            &&& after.len() == states[0].len()
            &&& forall|i: int|
                0 <= i < n && #[trigger] run_on_screen::<W, H>(start, vertical, i) ==> after[Screen::<W, H>::index(
                    run_position(start, vertical, i).0,
                    run_position(start, vertical, i).1,
                )] == (Cell { ch: text[i], fg: colors.0, bg: colors.1 })
            &&& forall|k: int|
                0 <= k < states[0].len() && !run_writes::<W, H>(start, vertical, n, k) ==> after[k]
                    == #[trigger] states[0][k]
        }),
{
    lemma_successive_puts::<W, H>(states, locs, text, colors, vertical);
    lemma_text_run::<W, H>(states[0], text, colors, locs[0], vertical);
}

/// `gpu.getResolution()` answers with the size of the screen it draws on and
/// changes nothing; with any argument it fails.
pub proof fn lemma_resolution_is_screen_size(cells: Seq<Cell>, gpu: (Rgb, Rgb), args: Seq<Value>)
    ensures
        args.len() == 0 ==> spec_invoke(Component::GpuGetResolution, cells, gpu, args) == Ok::<
            (Seq<Cell>, (Rgb, Rgb), Option<Seq<Value>>),
            InvokeError,
        >((cells, gpu, Some(seq![Value::Integer(COLUMNS as i64), Value::Integer(ROWS as i64)]))),
        args.len() != 0 ==> spec_invoke(Component::GpuGetResolution, cells, gpu, args) is Err,
{
}

/// After `gpu.setForeground(v)` and `gpu.setBackground(w)`, a character that
/// `gpu.set(x, y, code, false)` writes on the screen shows in exactly the
/// colours `0xRRGGBB` that `v` and `w` give.
pub proof fn lemma_colors_then_write(cells: Seq<Cell>, gpu: (Rgb, Rgb), v: i64, w: i64, x: i64, y: i64, code: i64)
    requires
        cells.len() == COLUMNS * ROWS,
        0 <= v < 0x1000000,
        0 <= w < 0x1000000,
        1 <= x <= COLUMNS,
        1 <= y <= ROWS,
        0 <= code <= 0x10FFFF,
        !(0xD800 <= code <= 0xDFFF),
    ensures
        ({
            let fg = spec_invoke(Component::GpuSetForeground, cells, gpu, seq![Value::Integer(v)]);
            &&& fg is Ok
            &&& ({
                let bg = spec_invoke(Component::GpuSetBackground, fg->Ok_0.0, fg->Ok_0.1, seq![Value::Integer(w)]);
                &&& bg is Ok
                &&& ({
                    let set = spec_invoke(
                        Component::GpuSet,
                        bg->Ok_0.0,
                        bg->Ok_0.1,
                        seq![Value::Integer(x), Value::Integer(y), Value::Integer(code), Value::Boolean(false)],
                    );
                    &&& set is Ok
                    &&& Screen::<COLUMNS, ROWS>::cell_at(set->Ok_0.0, x - 1, y - 1).fg == unpacked(v as int)->0
                    &&& Screen::<COLUMNS, ROWS>::cell_at(set->Ok_0.0, x - 1, y - 1).bg == unpacked(w as int)->0
                    &&& packed(Screen::<COLUMNS, ROWS>::cell_at(set->Ok_0.0, x - 1, y - 1).fg) == v
                    &&& packed(Screen::<COLUMNS, ROWS>::cell_at(set->Ok_0.0, x - 1, y - 1).bg) == w
                    &&& Screen::<COLUMNS, ROWS>::cell_at(set->Ok_0.0, x - 1, y - 1).ch as u32 == code
                })
            })
        }),
{
    let loc: (i64, i64) = ((x - 1) as i64, (y - 1) as i64);
    let fg_cells = spec_invoke(Component::GpuSetForeground, cells, gpu, seq![Value::Integer(v)])->Ok_0;
    let bg_cells = spec_invoke(Component::GpuSetBackground, fg_cells.0, fg_cells.1, seq![Value::Integer(w)])->Ok_0;
    let c = (code as u32) as char;
    vstd::utf8::char_u32_cast(c, code as u32);
    lemma_placed::<COLUMNS, ROWS>(bg_cells.0, c, bg_cells.1, loc);
    crate::color::lemma_unpack_then_pack(v as int);
    crate::color::lemma_unpack_then_pack(w as int);
}

/// `gpu.set(x, y, s, vertical)` with a well-formed UTF-8 string `s` writes the
/// characters that `s` encodes, in the current foreground and background
/// colours, along a straight run from column `x - 1`, row `y - 1`: the
/// `i`-th character at the `i`-th cell of the run wherever that cell is on the
/// screen, and no cell off the run changes; the colours stay as they are and
/// nothing is returned. This holds where the run does not reach the bounds of
/// `i64` and, for text running right, no character is a control character.
pub proof fn lemma_gpu_set_text(cells: Seq<Cell>, gpu: (Rgb, Rgb), x: i64, y: i64, b: Vec<u8>, vertical: bool)
    requires
        cells.len() == COLUMNS * ROWS,
        x > i64::MIN,
        y > i64::MIN,
        valid_utf8(b@),
        vertical ==> y - 1 + decode_utf8(b@).len() <= i64::MAX,
        !vertical ==> x - 1 + decode_utf8(b@).len() <= i64::MAX,
        !vertical ==> forall|i: int| 0 <= i < decode_utf8(b@).len() ==> !is_control_code(#[trigger] decode_utf8(b@)[i]),
    ensures
        ({
            let text = decode_utf8(b@);
            let n = text.len() as int;
            let start: (i64, i64) = ((x - 1) as i64, (y - 1) as i64);
            let r = spec_invoke(
                Component::GpuSet,
                cells,
                gpu,
                seq![Value::Integer(x), Value::Integer(y), Value::String(b), Value::Boolean(vertical)],
            );
            &&& r is Ok
            &&& r->Ok_0.1 == gpu
            &&& r->Ok_0.2 == Some(Seq::<Value>::empty())
            &&& r->Ok_0.0.len() == cells.len()
            &&& forall|i: int|
                0 <= i < n && #[trigger] run_on_screen::<COLUMNS, ROWS>(start, vertical, i) ==> r->Ok_0.0[Screen::<
                    COLUMNS,
                    ROWS,
                >::index(run_position(start, vertical, i).0, run_position(start, vertical, i).1)]
                    == (Cell { ch: text[i], fg: gpu.0, bg: gpu.1 })
            &&& forall|k: int|
                0 <= k < cells.len() && !run_writes::<COLUMNS, ROWS>(start, vertical, n, k) ==> r->Ok_0.0[k]
                    == #[trigger] cells[k]
        }),
{
    let text = decode_utf8(b@);
    let start: (i64, i64) = ((x - 1) as i64, (y - 1) as i64);
    lemma_text_run::<COLUMNS, ROWS>(cells, text, gpu, start, vertical);
}

/// `gpu.setForeground` changes only the foreground colour, to the colour that
/// its one argument reads as an integer `0xRRGGBB`; the screen and the
/// background stay as they are and nothing is returned. An integer in
/// `0..=0xFFFFFF` is always accepted.
pub proof fn lemma_set_foreground(cells: Seq<Cell>, gpu: (Rgb, Rgb), args: Seq<Value>)
    ensures
        spec_invoke(Component::GpuSetForeground, cells, gpu, args) matches Ok(r) ==> {
            &&& r.0 == cells
            &&& r.1.1 == gpu.1
            &&& r.2 == Some(Seq::<Value>::empty())
            &&& args.len() == 1
            &&& spec_to_integer(args[0]) matches Some(v) && packed(r.1.0) == v
        },
        forall|v: i64|
            0 <= v < 0x1000000 ==> #[trigger] spec_invoke(Component::GpuSetForeground, cells, gpu, seq![Value::Integer(v)])
                == Ok::<(Seq<Cell>, (Rgb, Rgb), Option<Seq<Value>>), InvokeError>(
                (cells, (unpacked(v as int)->0, gpu.1), Some(Seq::empty())),
            ),
{
    if spec_invoke(Component::GpuSetForeground, cells, gpu, args) is Ok {
        crate::color::lemma_unpack_then_pack(spec_to_integer(args[0])->0 as int);
    }
}

/// `gpu.setBackground` changes only the background colour, to the colour that
/// its one argument reads as an integer `0xRRGGBB`; the screen and the
/// foreground stay as they are and nothing is returned. An integer in
/// `0..=0xFFFFFF` is always accepted.
pub proof fn lemma_set_background(cells: Seq<Cell>, gpu: (Rgb, Rgb), args: Seq<Value>)
    ensures
        spec_invoke(Component::GpuSetBackground, cells, gpu, args) matches Ok(r) ==> {
            &&& r.0 == cells
            &&& r.1.0 == gpu.0
            &&& r.2 == Some(Seq::<Value>::empty())
            &&& args.len() == 1
            &&& spec_to_integer(args[0]) matches Some(v) && packed(r.1.1) == v
        },
        forall|v: i64|
            0 <= v < 0x1000000 ==> #[trigger] spec_invoke(Component::GpuSetBackground, cells, gpu, seq![Value::Integer(v)])
                == Ok::<(Seq<Cell>, (Rgb, Rgb), Option<Seq<Value>>), InvokeError>(
                (cells, (gpu.0, unpacked(v as int)->0), Some(Seq::empty())),
            ),
{
    if spec_invoke(Component::GpuSetBackground, cells, gpu, args) is Ok {
        crate::color::lemma_unpack_then_pack(spec_to_integer(args[0])->0 as int);
    }
}

/// After `gpu.setBackground(w)` and then `gpu.setForeground(v)`, text that
/// `gpu.set(x, y, s, vertical)` writes shows in exactly the colours `v` on
/// `w`, in every cell of its run that is on the screen.
pub proof fn lemma_colors_then_write_text(
    cells: Seq<Cell>,
    gpu: (Rgb, Rgb),
    v: i64,
    w: i64,
    x: i64,
    y: i64,
    b: Vec<u8>,
    vertical: bool,
)
    requires
        cells.len() == COLUMNS * ROWS,
        0 <= v < 0x1000000,
        0 <= w < 0x1000000,
        x > i64::MIN,
        y > i64::MIN,
        valid_utf8(b@),
        vertical ==> y - 1 + decode_utf8(b@).len() <= i64::MAX,
        !vertical ==> x - 1 + decode_utf8(b@).len() <= i64::MAX,
        !vertical ==> forall|i: int| 0 <= i < decode_utf8(b@).len() ==> !is_control_code(#[trigger] decode_utf8(b@)[i]),
    ensures
        ({
            let bg = spec_invoke(Component::GpuSetBackground, cells, gpu, seq![Value::Integer(w)])->Ok_0;
            let fg = spec_invoke(Component::GpuSetForeground, bg.0, bg.1, seq![Value::Integer(v)])->Ok_0;
            let set = spec_invoke(
                Component::GpuSet,
                fg.0,
                fg.1,
                seq![Value::Integer(x), Value::Integer(y), Value::String(b), Value::Boolean(vertical)],
            );
            let start: (i64, i64) = ((x - 1) as i64, (y - 1) as i64);
            &&& set is Ok
            &&& forall|i: int|
                0 <= i < decode_utf8(b@).len() && #[trigger] run_on_screen::<COLUMNS, ROWS>(start, vertical, i) ==> {
                    let c = set->Ok_0.0[Screen::<COLUMNS, ROWS>::index(
                        run_position(start, vertical, i).0,
                        run_position(start, vertical, i).1,
                    )];
                    &&& c.ch == decode_utf8(b@)[i]
                    &&& packed(c.fg) == v
                    &&& packed(c.bg) == w
                }
        }),
{
    lemma_set_background(cells, gpu, seq![Value::Integer(w)]);
    let bg = spec_invoke(Component::GpuSetBackground, cells, gpu, seq![Value::Integer(w)])->Ok_0;
    lemma_set_foreground(bg.0, bg.1, seq![Value::Integer(v)]);
    let fg = spec_invoke(Component::GpuSetForeground, bg.0, bg.1, seq![Value::Integer(v)])->Ok_0;
    crate::color::lemma_unpack_then_pack(v as int);
    crate::color::lemma_unpack_then_pack(w as int);
    lemma_gpu_set_text(fg.0, fg.1, x, y, b, vertical);
}

/// `os.sleep(t)` with one argument that reads as a number — any integer, any
/// float, or a numeral string — asks the program to sleep, and changes
/// neither the screen nor the colours.
pub proof fn lemma_sleep(cells: Seq<Cell>, gpu: (Rgb, Rgb), t: Value)
    ensures
        spec_reads_as_number(t) ==> spec_invoke(Component::OsSleep, cells, gpu, seq![t]) == Ok::<
            (Seq<Cell>, (Rgb, Rgb), Option<Seq<Value>>),
            InvokeError,
        >((cells, gpu, None)),
        forall|n: i64| #[trigger] spec_invoke(Component::OsSleep, cells, gpu, seq![Value::Integer(n)]) == Ok::<
            (Seq<Cell>, (Rgb, Rgb), Option<Seq<Value>>),
            InvokeError,
        >((cells, gpu, None)),
        forall|x: Number| #[trigger] spec_invoke(Component::OsSleep, cells, gpu, seq![Value::Number(x)]) == Ok::<
            (Seq<Cell>, (Rgb, Rgb), Option<Seq<Value>>),
            InvokeError,
        >((cells, gpu, None)),
{
}

} // verus!
