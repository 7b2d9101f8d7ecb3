use rosco_console::interrupts::Console;
use rosco_console::interrupts::InterruptIndex;
use rosco_console::interrupts::decode_scancode;
use rosco_console::interrupts::tick_line;
use rosco_console::interrupts::to_upper;

const SHIFT_DOWN: u8 = 42;
const SHIFT_UP: u8 = 170;
const ENTER_UP: u8 = 156;

fn typed(con: &Console) -> Vec<char> {
    con.line_buffer()
}

#[test]
fn decode_table_exact() {
    assert_eq!(decode_scancode(16), 'q');
    assert_eq!(decode_scancode(17), 'w');
    assert_eq!(decode_scancode(30), 'a');
    assert_eq!(decode_scancode(35), 'h');
    assert_eq!(decode_scancode(50), 'm');
    assert_eq!(decode_scancode(28), '\n');
    assert_eq!(decode_scancode(57), ' ');
    // outside the table: other make codes and all break codes
    assert_eq!(decode_scancode(0), '\0');
    assert_eq!(decode_scancode(1), '\0');
    assert_eq!(decode_scancode(58), '\0');
    assert_eq!(decode_scancode(129), '\0');
    assert_eq!(decode_scancode(255), '\0');
}

#[test]
fn upper_case_fold() {
    assert_eq!(to_upper('a'), 'A');
    assert_eq!(to_upper('q'), 'Q');
    assert_eq!(to_upper('z'), 'Z');
    assert_eq!(to_upper(' '), ' ');
    assert_eq!(to_upper('\n'), '\n');
    assert_eq!(to_upper('A'), 'A');
}

#[test]
fn new_console_is_idle_and_well_formed() {
    let con = Console::new();
    assert!(con.is_well_formed());
    assert!(!con.kb.reading);
    assert!(!con.kb.shift);
    assert_eq!(con.kb.buf_idx, 0);
    assert_eq!(con.kb.buffer.len(), 100);
    assert_eq!(con.ticks, 0);
}

#[test]
fn idle_scancodes_are_not_buffered() {
    let mut con = Console::new();
    // no session open: every scancode is ignored, but still acknowledged
    let acks = con.keyboard_interrupt_handler(35);
    assert_eq!(acks.len(), 1);
    assert_eq!(acks[0], InterruptIndex::Keyboard);
    assert_eq!(con.kb.buf_idx, 0);
    assert_eq!(con.kb.buffer[0], '\0');
    assert_eq!(con.vga.cells[0].glyph, ' ');
}

#[test]
fn unmapped_scancode_changes_nothing() {
    let mut con = Console::new();
    con.begin_read_line();
    con.keyboard_interrupt_handler(35); // 'h'
    let shift = con.kb.shift;
    let idx = con.kb.buf_idx;
    let buffer = con.kb.buffer.clone();
    let cur = (con.vga.cur_x, con.vga.cur_y);
    for sc in [0u8, 1, 58, 99, 130, 200, 255] {
        let acks = con.keyboard_interrupt_handler(sc);
        assert_eq!(acks.len(), 1);
        assert_eq!(con.kb.shift, shift);
        assert_eq!(con.kb.buf_idx, idx);
        assert_eq!(con.kb.buffer, buffer);
        assert_eq!((con.vga.cur_x, con.vga.cur_y), cur);
        assert!(con.kb.reading);
    }
}

#[test]
fn shift_follows_most_recent_event_and_is_idempotent() {
    let mut con = Console::new();
    con.begin_read_line();
    assert!(!con.kb.shift);
    con.keyboard_interrupt_handler(SHIFT_DOWN);
    assert!(con.kb.shift);
    con.keyboard_interrupt_handler(SHIFT_DOWN); // duplicate make
    assert!(con.kb.shift);
    con.keyboard_interrupt_handler(SHIFT_UP);
    assert!(!con.kb.shift);
    con.keyboard_interrupt_handler(SHIFT_UP); // duplicate break
    assert!(!con.kb.shift);
    con.keyboard_interrupt_handler(SHIFT_DOWN);
    assert!(con.kb.shift);
    assert!(con.kb.reading);
    assert_eq!(con.kb.buf_idx, 0);
}

#[test]
fn read_line_hello_then_terminator() {
    let mut con = Console::new();
    con.begin_read_line();
    assert!(!con.line_ready());
    for sc in [35u8, 18, 38, 38, 24] {
        // h, e, l, l, o
        con.keyboard_interrupt_handler(sc);
    }
    con.keyboard_interrupt_handler(ENTER_UP);
    assert!(con.line_ready());
    let line = typed(&con);
    assert_eq!(&line[0..5], &['h', 'e', 'l', 'l', 'o']);
    assert_eq!(line[5], '\0');
}

#[test]
fn input_beyond_capacity_is_truncated() {
    let mut con = Console::new();
    con.begin_read_line();
    for _ in 0..120 {
        con.keyboard_interrupt_handler(30); // 'a'
    }
    assert_eq!(con.kb.buf_idx, 100);
    con.keyboard_interrupt_handler(ENTER_UP);
    assert!(con.line_ready());
    let line = typed(&con);
    assert_eq!(line.len(), 100);
    for c in &line {
        assert_eq!(*c, 'a');
    }
    // adjacent state is intact
    assert!(!con.kb.shift);
    assert!(!con.kb.reading);
    assert_eq!(con.ticks, 0);
    assert_eq!(con.vga.cells.len(), 80 * 25);
}

#[test]
fn shift_upper_cases_only_while_held() {
    let mut con = Console::new();
    con.begin_read_line();
    con.keyboard_interrupt_handler(SHIFT_DOWN);
    con.keyboard_interrupt_handler(30); // 'a' with shift held
    con.keyboard_interrupt_handler(SHIFT_UP);
    con.keyboard_interrupt_handler(30); // 'a' untouched
    con.keyboard_interrupt_handler(ENTER_UP);
    let line = typed(&con);
    assert_eq!(&line[0..2], &['A', 'a']);
    assert_eq!(line[2], '\0');
}

#[test]
fn typed_characters_are_echoed_at_the_cursor() {
    let mut con = Console::new();
    con.begin_read_line();
    con.keyboard_interrupt_handler(35); // 'h'
    assert_eq!(con.vga.cells[0].glyph, 'h');
    assert_eq!((con.vga.cur_x, con.vga.cur_y), (1, 0));
}

#[test]
fn keyboard_acknowledges_exactly_once_on_every_branch() {
    let mut con = Console::new();
    // idle early return
    let acks = con.keyboard_interrupt_handler(35);
    assert_eq!(acks, vec![InterruptIndex::Keyboard]);
    con.begin_read_line();
    // ordinary character, shift make, shift break, unmapped, full buffer, terminator
    for sc in [35u8, SHIFT_DOWN, SHIFT_UP, 99, ENTER_UP] {
        let acks = con.keyboard_interrupt_handler(sc);
        assert_eq!(acks, vec![InterruptIndex::Keyboard]);
    }
    con.begin_read_line();
    for _ in 0..100 {
        con.keyboard_interrupt_handler(30);
    }
    let acks = con.keyboard_interrupt_handler(30); // buffer already full
    assert_eq!(acks, vec![InterruptIndex::Keyboard]);
}

#[test]
fn timer_acknowledges_exactly_once() {
    let mut con = Console::new();
    let acks = con.timer_interrupt_handler();
    assert_eq!(acks, vec![InterruptIndex::Timer]);
}

#[test]
fn timer_counts_and_renders_without_moving_cursor() {
    let mut con = Console::new();
    con.vga.write_string("boot");
    let cur = (con.vga.cur_x, con.vga.cur_y);
    con.timer_interrupt_handler();
    assert_eq!(con.ticks, 1);
    assert_eq!((con.vga.cur_x, con.vga.cur_y), cur);
    assert_eq!(con.vga.color_code, 0xa);
    let row24: String = con.vga.cells[24 * 80..24 * 80 + 14].iter().map(|c| c.glyph).collect();
    assert_eq!(row24, "Tick Number: 1");
    // the status row is painted in its own color
    assert_eq!(con.vga.cells[24 * 80].color, 0xf0);
    con.timer_interrupt_handler();
    assert_eq!(con.ticks, 2);
}

#[test]
fn tick_line_formats_count_and_seconds() {
    let pad = " ".repeat(58);
    let one: String = tick_line(1).into_iter().collect();
    assert_eq!(one, format!("Tick Number: 1  /  Seconds Elapsed: 0.06{}", pad));
    let fifty: String = tick_line(50).into_iter().collect();
    assert_eq!(fifty, format!("Tick Number: 50  /  Seconds Elapsed: 3.00{}", pad));
    let big: String = tick_line(1234).into_iter().collect();
    assert_eq!(big, format!("Tick Number: 1234  /  Seconds Elapsed: 74.04{}", pad));
}

#[test]
fn second_session_starts_clean() {
    let mut con = Console::new();
    con.begin_read_line();
    for sc in [35u8, 18] {
        con.keyboard_interrupt_handler(sc);
    }
    con.keyboard_interrupt_handler(ENTER_UP);
    assert!(con.line_ready());
    con.begin_read_line();
    assert!(!con.line_ready());
    assert!(con.kb.reading);
    assert_eq!(con.kb.buf_idx, 0);
    for c in &con.kb.buffer {
        assert_eq!(*c, '\0');
    }
}

#[test]
fn interrupt_index_vectors_are_contiguous_from_offset() {
    assert_eq!(InterruptIndex::Timer.as_u8(), 32);
    assert_eq!(InterruptIndex::Keyboard.as_u8(), 33);
    assert_eq!(InterruptIndex::Timer.as_usize(), 32);
    assert_eq!(InterruptIndex::Keyboard.as_usize(), 33);
}
