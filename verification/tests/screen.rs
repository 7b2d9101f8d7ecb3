use rosco_console::streq;
use rosco_console::vga_txt::VgaBuffer;
use rosco_console::vga_txt::_clear_screen;
use rosco_console::vga_txt::_print;
use rosco_console::vga_txt::_print_at;
use rosco_console::vga_txt::_set_color;

fn glyphs(v: &VgaBuffer, row: usize, from: usize, to: usize) -> String {
    v.cells[row * 80 + from..row * 80 + to].iter().map(|c| c.glyph).collect()
}

#[test]
fn fresh_screen_is_blank_at_origin() {
    let v = VgaBuffer::new();
    assert_eq!(v.cells.len(), 80 * 25);
    assert_eq!((v.cur_x, v.cur_y), (0, 0));
    assert_eq!(v.color_code, 0xe);
    assert!(v.cells.iter().all(|c| c.glyph == ' ' && c.color == 0xe));
}

#[test]
fn write_advances_cursor_and_stores_glyphs() {
    let mut v = VgaBuffer::new();
    v.write_string("ab");
    assert_eq!(glyphs(&v, 0, 0, 2), "ab");
    assert_eq!((v.cur_x, v.cur_y), (2, 0));
}

#[test]
fn newline_starts_next_row() {
    let mut v = VgaBuffer::new();
    v.write_string("a\nb");
    assert_eq!(v.cells[0].glyph, 'a');
    assert_eq!(v.cells[80].glyph, 'b');
    assert_eq!((v.cur_x, v.cur_y), (1, 1));
}

#[test]
fn row_end_wraps_to_next_row() {
    let mut v = VgaBuffer::new();
    let long: String = std::iter::repeat('x').take(80).collect();
    v.write_string(&long);
    assert_eq!((v.cur_x, v.cur_y), (0, 1));
    assert_eq!(glyphs(&v, 0, 78, 80), "xx");
}

#[test]
fn output_past_bottom_row_is_discarded() {
    let mut v = VgaBuffer::new();
    let long: String = std::iter::repeat('y').take(100).collect();
    _print_at(&mut v, &long, 0, 24);
    // the bottom row holds the first 80 characters; the rest went nowhere
    assert_eq!(glyphs(&v, 24, 0, 80), &long[0..80]);
    assert_eq!(v.cells.len(), 80 * 25);
    assert_eq!((v.cur_x, v.cur_y), (0, 0));
}

#[test]
fn positioned_write_preserves_ambient_cursor() {
    let mut v = VgaBuffer::new();
    v.write_string("ab");
    let cur = (v.cur_x, v.cur_y);
    _print_at(&mut v, "zz", 10, 10);
    assert_eq!((v.cur_x, v.cur_y), cur);
    assert_eq!(glyphs(&v, 10, 10, 12), "zz");
    // a subsequent plain write resumes where it would have anyway
    v.write_string("c");
    assert_eq!(glyphs(&v, 0, 0, 3), "abc");
}

#[test]
fn clear_blanks_everything_and_resets_cursor() {
    let mut v = VgaBuffer::new();
    v.write_string("hello\nworld");
    _clear_screen(&mut v);
    assert_eq!((v.cur_x, v.cur_y), (0, 0));
    assert!(v.cells.iter().all(|c| c.glyph == ' '));
    // a write after the clear renders from the origin, no residue anywhere
    v.write_string("hi");
    assert_eq!(glyphs(&v, 0, 0, 2), "hi");
    assert!(v.cells.iter().skip(2).all(|c| c.glyph == ' '));
}

#[test]
fn clear_uses_the_active_color() {
    let mut v = VgaBuffer::new();
    _set_color(&mut v, 0x1f);
    _clear_screen(&mut v);
    assert!(v.cells.iter().all(|c| c.glyph == ' ' && c.color == 0x1f));
}

#[test]
fn color_change_affects_only_later_writes() {
    let mut v = VgaBuffer::new();
    _print(&mut v, "a");
    _set_color(&mut v, 0x71);
    _print(&mut v, "b");
    assert_eq!(v.cells[0].color, 0xe);
    assert_eq!(v.cells[1].color, 0x71);
    assert_eq!((v.cur_x, v.cur_y), (2, 0));
}

#[test]
fn scroll_up_shifts_rows_and_blanks_the_bottom() {
    let mut v = VgaBuffer::new();
    v.write_string("top\nsecond");
    _print_at(&mut v, "last", 0, 24);
    v.scroll_up();
    assert_eq!(glyphs(&v, 0, 0, 6), "second");
    assert_eq!(glyphs(&v, 23, 0, 4), "last");
    assert!(v.cells[24 * 80..].iter().all(|c| c.glyph == ' '));
}

#[test]
fn streq_matches_prefix_of_line_buffer() {
    let mut carr = vec!['\0'; 100];
    for (i, c) in "info".chars().enumerate() {
        carr[i] = c;
    }
    assert!(streq("info", &carr));
    assert!(!streq("panic usr", &carr));
    // only the leading characters are compared
    assert!(streq("in", &carr));
    assert!(streq("", &carr));
}
