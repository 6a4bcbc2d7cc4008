use gpu_screen::color::Rgb;
use gpu_screen::screen::{is_control, Cell, Screen};

fn red() -> Rgb {
    Rgb::from_rgb(255, 0, 0)
}

fn black() -> Rgb {
    Rgb::from_rgb(0, 0, 0)
}

fn blank() -> Cell {
    Cell { ch: 'i', fg: Rgb::white(), bg: Rgb::dark_blue() }
}

fn cell_at<const W: usize, const H: usize>(s: &Screen<W, H>, x: usize, y: usize) -> Cell {
    let cells = s.draw_cells();
    let (cx, cy, c) = cells[y * W + (W - 1 - x)];
    assert_eq!((cx, cy), (x, y));
    c
}

#[test]
fn new_screen_is_blank() {
    let s: Screen<4, 3> = Screen::new();
    let cells = s.draw_cells();
    assert_eq!(cells.len(), 12);
    for (_, _, c) in cells {
        assert_eq!(c, blank());
    }
    let d: Screen<4, 3> = Default::default();
    assert_eq!(d.draw_cells(), Screen::<4, 3>::new().draw_cells());
}

#[test]
fn blank_colours_are_white_on_dark_blue() {
    assert_eq!(Rgb::white(), Rgb { r: 255, g: 255, b: 255 });
    assert_eq!(Rgb::dark_blue(), Rgb { r: 0, g: 0, b: 0x8B });
}

#[test]
fn draw_order_is_rows_top_down_columns_right_to_left() {
    let s: Screen<3, 2> = Screen::new();
    let order: Vec<(usize, usize)> = s.draw_cells().iter().map(|(x, y, _)| (*x, *y)).collect();
    assert_eq!(order, vec![(2, 0), (1, 0), (0, 0), (2, 1), (1, 1), (0, 1)]);
}

#[test]
fn put_writes_under_cursor_and_moves_right() {
    let mut s: Screen<4, 3> = Screen::new();
    let mut loc = (1i64, 2i64);
    s.put('x', (red(), black()), &mut loc, false);
    assert_eq!(loc, (2, 2));
    assert_eq!(cell_at(&s, 1, 2), Cell { ch: 'x', fg: red(), bg: black() });
    for y in 0..3 {
        for x in 0..4 {
            if (x, y) != (1, 2) {
                assert_eq!(cell_at(&s, x, y), blank());
            }
        }
    }
}

#[test]
fn put_vertical_moves_down() {
    let mut s: Screen<4, 3> = Screen::new();
    let mut loc = (3i64, 0i64);
    s.put('a', (red(), black()), &mut loc, true);
    s.put('b', (red(), black()), &mut loc, true);
    assert_eq!(loc, (3, 2));
    assert_eq!(cell_at(&s, 3, 0).ch, 'a');
    assert_eq!(cell_at(&s, 3, 1).ch, 'b');
}

#[test]
fn put_off_screen_changes_nothing_but_moves() {
    let mut s: Screen<4, 3> = Screen::new();
    let before = s.draw_cells();
    for start in [(-1i64, 0i64), (4, 0), (0, 3), (0, -5), (i64::MIN, i64::MIN)] {
        let mut loc = start;
        s.put('z', (red(), black()), &mut loc, false);
        assert_eq!(loc, (start.0 + 1, start.1));
    }
    assert_eq!(s.draw_cells(), before);
}

#[test]
fn control_characters_take_no_room() {
    let mut s: Screen<4, 3> = Screen::new();
    let mut loc = (0i64, 0i64);
    s.put('\n', (red(), black()), &mut loc, false);
    assert_eq!(loc, (0, 0));
    assert_eq!(cell_at(&s, 0, 0).ch, '\n');
    s.put('\u{7f}', (red(), black()), &mut loc, true);
    assert_eq!(loc, (0, 1));
}

#[test]
fn cursor_saturates_at_i64_max() {
    let mut s: Screen<4, 3> = Screen::new();
    let mut loc = (i64::MAX, i64::MAX);
    s.put('q', (red(), black()), &mut loc, false);
    assert_eq!(loc, (i64::MAX, i64::MAX));
    s.put('q', (red(), black()), &mut loc, true);
    assert_eq!(loc, (i64::MAX, i64::MAX));
}

#[test]
fn put_str_writes_a_run() {
    let mut s: Screen<4, 3> = Screen::new();
    let mut loc = (2i64, 1i64);
    s.put_str("héllo", (red(), black()), &mut loc, false);
    assert_eq!(loc, (7, 1));
    assert_eq!(cell_at(&s, 2, 1).ch, 'h');
    assert_eq!(cell_at(&s, 3, 1).ch, 'é');
    assert_eq!(cell_at(&s, 0, 1), blank());
    assert_eq!(cell_at(&s, 0, 2), blank());
}

#[test]
fn put_str_vertical_run() {
    let mut s: Screen<4, 3> = Screen::new();
    let mut loc = (0i64, 0i64);
    s.put_str("ab\ncd", (red(), black()), &mut loc, true);
    assert_eq!(loc, (0, 5));
    assert_eq!(cell_at(&s, 0, 0).ch, 'a');
    assert_eq!(cell_at(&s, 0, 1).ch, 'b');
    assert_eq!(cell_at(&s, 0, 2).ch, '\n');
}

#[test]
fn control_characters_are_those_std_names() {
    for u in 0u32..0x11_0000 {
        if let Some(c) = char::from_u32(u) {
            assert_eq!(is_control(c), c.is_control(), "{u:#x}");
        }
    }
    assert!(is_control('\n'));
    assert!(is_control('\u{9f}'));
    assert!(!is_control('a'));
    assert!(!is_control('\u{a0}'));
}

#[test]
fn successive_puts_write_a_run() {
    let mut s: Screen<4, 3> = Screen::new();
    let mut loc = (1i64, 0i64);
    for c in ['p', 'q', 'r', 's'] {
        s.put(c, (red(), black()), &mut loc, false);
    }
    assert_eq!(loc, (5, 0));
    assert_eq!(cell_at(&s, 1, 0).ch, 'p');
    assert_eq!(cell_at(&s, 2, 0).ch, 'q');
    assert_eq!(cell_at(&s, 3, 0).ch, 'r');
    assert_eq!(cell_at(&s, 0, 0), blank());
    assert_eq!(cell_at(&s, 0, 1), blank());
}
