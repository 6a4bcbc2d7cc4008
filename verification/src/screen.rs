use vstd::prelude::*;
use crate::color::Rgb;

verus! {

/// One character cell: the character with its foreground and background colour.
#[derive(Clone, Copy, Debug, PartialEq, Eq, Structural)]
pub struct Cell {
    pub ch: char,
    pub fg: Rgb,
    pub bg: Rgb,
}

/// The cell that fills a fresh screen: an `i`, white on dark blue.
pub open spec fn blank_cell() -> Cell {
    Cell { ch: 'i', fg: Rgb { r: 255, g: 255, b: 255 }, bg: Rgb { r: 0, g: 0, b: 0x8B } }
}

/// Whether `c` is a control character: one of the Unicode general category
/// `Cc`, which is exactly `U+0000..=U+001F` and `U+007F..=U+009F`.
pub open spec fn is_control_code(c: char) -> bool {
    (c as u32) <= 0x1F || (0x7F <= (c as u32) && (c as u32) <= 0x9F)
}

/// Whether `c` is a control character, as `char::is_control` tells.
pub fn is_control(c: char) -> (r: bool)
    ensures
        r == is_control_code(c),
{
    let u = c as u32;
    u <= 0x1F || (0x7F <= u && u <= 0x9F)
}

/// `a + b`, clamped to the range of `i64`.
pub open spec fn sat_add(a: i64, b: int) -> i64 {
    if a + b > i64::MAX {
        i64::MAX
    } else if a + b < i64::MIN {
        i64::MIN
    } else {
        (a + b) as i64
    }
}

/// Where the cursor stands after `c` was placed at `loc`: one row down when
/// the text runs vertically, else one column right unless `c` is a control
/// character, which takes no room.
pub open spec fn advance(c: char, loc: (i64, i64), vertical: bool) -> (i64, i64) {
    if vertical {
        (loc.0, sat_add(loc.1, 1))
    } else {
        (sat_add(loc.0, if is_control_code(c) { 0 } else { 1 }), loc.1)
    }
}

/// A grid of `W` columns and `H` rows of character cells, stored row by row.
pub struct Screen<const W: usize, const H: usize> {
    cells: Vec<Cell>,
}

impl<const W: usize, const H: usize> View for Screen<W, H> {
    type V = Seq<Cell>;

    closed spec fn view(&self) -> Seq<Cell> {
        self.cells@
    }
}

impl<const W: usize, const H: usize> Screen<W, H> {
    /// The screen holds exactly one cell per column and row.
    #[verifier::type_invariant]
    spec fn holds_every_cell(self) -> bool {
        self.cells@.len() == W * H
    }

    /// Whether `loc` (column, row) names a cell of the screen.
    pub open spec fn in_bounds(loc: (i64, i64)) -> bool {
        0 <= loc.0 < W && 0 <= loc.1 < H
    }

    /// The place of the cell in column `x` and row `y` in the row-by-row order.
    pub open spec fn index(x: int, y: int) -> int {
        y * W + x
    }

    /// The cell in column `x` and row `y` of the cells `cells`.
    pub open spec fn cell_at(cells: Seq<Cell>, x: int, y: int) -> Cell {
        cells[Self::index(x, y)]
    }

    /// The cells after `c` in `colors` was written at `loc`: the one cell under
    /// `loc` changes when `loc` lies on the screen, and nothing otherwise.
    pub open spec fn placed(cells: Seq<Cell>, c: char, colors: (Rgb, Rgb), loc: (i64, i64)) -> Seq<Cell> {
        if Self::in_bounds(loc) {
            cells.update(Self::index(loc.0 as int, loc.1 as int), Cell { ch: c, fg: colors.0, bg: colors.1 })
        } else {
            cells
        }
    }

    /// The cells and the cursor after the characters `chars` were written one
    /// after another from `loc`.
    pub open spec fn placed_all(
        cells: Seq<Cell>,
        chars: Seq<char>,
        colors: (Rgb, Rgb),
        loc: (i64, i64),
        vertical: bool,
    ) -> (Seq<Cell>, (i64, i64))
        decreases chars.len(),
    {
        if chars.len() == 0 {
            (cells, loc)
        } else {
            Self::placed_all(
                Self::placed(cells, chars[0], colors, loc),
                chars.drop_first(),
                colors,
                advance(chars[0], loc, vertical),
                vertical,
            )
        }
    }

    /// The cells in the order in which they are painted: row by row from the
    /// top, and within a row from the rightmost column to the leftmost, each
    /// with its column and row.
    pub open spec fn draw_order(cells: Seq<Cell>) -> Seq<(usize, usize, Cell)> {
        Seq::new(
            (W * H) as nat,
            |k: int| (((W - 1) - k % (W as int)) as usize, (k / (W as int)) as usize, cells[(k / (W as int)) * W + ((W - 1) - k % (W as int))]),
        )
    }

    /// A cell on the screen has its place among the `W * H` cells.
    pub proof fn lemma_index_in_grid(x: int, y: int)
        requires
            0 <= x < W,
            0 <= y < H,
        ensures
            0 <= Self::index(x, y) < W * H,
    {
        assert(0 <= y * W + x < W * H) by (nonlinear_arith)
            requires
                0 <= x < W,
                0 <= y < H,
        ;
    }

    /// A screen of `W` by `H` blank cells.
    pub fn new() -> (s: Self)
        ensures
            s@.len() == W * H,
            forall|k: int| 0 <= k < W * H ==> #[trigger] s@[k] == blank_cell(),
    {
        let mut cells: Vec<Cell> = Vec::new();
        let blank = Cell { ch: 'i', fg: Rgb::white(), bg: Rgb::dark_blue() };
        let mut y: usize = 0;
        while y < H
            invariant
                y <= H,
                cells@.len() == y * W,
                blank == blank_cell(),
                forall|k: int| 0 <= k < cells@.len() ==> #[trigger] cells@[k] == blank_cell(),
            decreases H - y,
        {
            let mut x: usize = 0;
            while x < W
                invariant
                    y < H,
                    x <= W,
                    cells@.len() == y * W + x,
                    blank == blank_cell(),
                    forall|k: int| 0 <= k < cells@.len() ==> #[trigger] cells@[k] == blank_cell(),
                decreases W - x,
            {
                cells.push(blank);
                x = x + 1;
            }
            assert((y + 1) * W == y * W + W) by (nonlinear_arith);
            y = y + 1;
        }
        Screen { cells }
    }

    /// Writes `c` in the colours `colors` (foreground, background) at the cell
    /// under `location` (column, row) if that cell is on the screen, then moves
    /// the cursor on: one row down when `carriage_vertical`, else one column
    /// right unless `c` is a control character. The cursor saturates at the
    /// bounds of `i64`.
    pub fn put(&mut self, c: char, colors: (Rgb, Rgb), location: &mut (i64, i64), carriage_vertical: bool)
        ensures
            old(self)@.len() == W * H,
            final(self)@.len() == W * H,
            final(self)@ == Self::placed(old(self)@, c, colors, *old(location)),
            *final(location) == advance(c, *old(location), carriage_vertical),
    {
        proof {
            use_type_invariant(&*self);
        }
        let (ix, iy) = *location;
        if 0 <= iy && 0 <= ix && (iy as i128) < (H as i128) && (ix as i128) < (W as i128) {
            let y = iy as usize;
            let x = ix as usize;
            let n = self.cells.len();
            proof {
                Self::lemma_index_in_grid(x as int, y as int);
                assert(0 <= y * W <= y * W + x < n) by (nonlinear_arith)
                    requires
                        y * W + x < W * H,
                        n == W * H,
                ;
            }
            let k = y * W + x;
            self.cells[k] = Cell { ch: c, fg: colors.0, bg: colors.1 };
        }
        if carriage_vertical {
            location.1 = if iy == i64::MAX { iy } else { iy + 1 };
        } else {
            let char_width: i64 = if is_control(c) { 0 } else { 1 };
            location.0 = if char_width == 1 && ix == i64::MAX { ix } else { ix + char_width };
        }
    }
}

impl<const W: usize, const H: usize> Screen<W, H> {
    /// Every cell with its column and row, in the order in which they are
    /// painted: row by row from the top, and within a row from right to left.
    pub fn draw_cells(&self) -> (r: Vec<(usize, usize, Cell)>)
        ensures
            self@.len() == W * H,
            r@ == Self::draw_order(self@),
    {
        proof {
            use_type_invariant(self);
        }
        let mut r: Vec<(usize, usize, Cell)> = Vec::new();
        let n = self.cells.len();
        let ghost order = Self::draw_order(self@);
        let mut y: usize = 0;
        while y < H
            invariant
                n == W * H,
                n == self@.len(),
                order == Self::draw_order(self@),
                order.len() == W * H,
                y <= H,
                r@.len() == y * W,
                forall|k: int| 0 <= k < r@.len() ==> #[trigger] r@[k] == order[k],
            decreases H - y,
        {
            let mut j: usize = 0;
            while j < W
                invariant
                    n == W * H,
                    n == self@.len(),
                    order == Self::draw_order(self@),
                    order.len() == W * H,
                    y < H,
                    j <= W,
                    r@.len() == y * W + j,
                    forall|k: int| 0 <= k < r@.len() ==> #[trigger] r@[k] == order[k],
                decreases W - j,
            {
                let x = W - 1 - j;
                proof {
                    Self::lemma_index_in_grid(x as int, y as int);
                    assert(0 <= y * W <= y * W + x < n) by (nonlinear_arith)
                        requires
                            y * W + x < W * H,
                            n == W * H,
                    ;
                    assert(y * W + j < W * H) by (nonlinear_arith)
                        requires
                            y < H,
                            j < W,
                    ;
                    vstd::arithmetic::div_mod::lemma_fundamental_div_mod_converse(
                        (y * W + j) as int,
                        W as int,
                        y as int,
                        j as int,
                    );
                }
                let cell = self.cells[y * W + x];
                r.push((x, y, cell));
                j = j + 1;
            }
            assert((y + 1) * W == y * W + W) by (nonlinear_arith);
            y = y + 1;
        }
        proof {
            assert(H * W == W * H) by (nonlinear_arith);
            assert(r@ =~= order);
        }
        r
    }

    /// Writes the characters of `s` one after another with `put`, starting at
    /// `location`, and leaves the cursor after the last of them.
    pub fn put_str(&mut self, s: &str, colors: (Rgb, Rgb), location: &mut (i64, i64), carriage_vertical: bool)
        ensures
            old(self)@.len() == W * H,
            final(self)@.len() == W * H,
            (final(self)@, *final(location)) == Self::placed_all(old(self)@, s@, colors, *old(location), carriage_vertical),
    {
        broadcast use vstd::string::axiom_spec_iter;
        proof {
            use_type_invariant(&*self);
        }
        let ghost goal = Self::placed_all(self@, s@, colors, *location, carriage_vertical);
        assert(s@.skip(0) =~= s@);
        for c in it: s.chars()
            invariant
                self@.len() == W * H,
                it.seq() == s@,
                goal == Self::placed_all(self@, s@.skip(it.index()), colors, *location, carriage_vertical),
        {
            proof {
                assert(s@.skip(it.index()).drop_first() =~= s@.skip(it.index() + 1));
            }
            self.put(c, colors, location, carriage_vertical);
        }
        proof {
            assert(s@.skip(s@.len() as int) =~= Seq::<char>::empty());
        }
    }
}

impl<const W: usize, const H: usize> Default for Screen<W, H> {
    fn default() -> (s: Self)
        ensures
            s@.len() == W * H,
            forall|k: int| 0 <= k < W * H ==> #[trigger] s@[k] == blank_cell(),
    {
        Self::new()
    }
}

} // verus!
