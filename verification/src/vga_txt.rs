//! The text framebuffer driver, modeled as data: a fixed 80 x 25 grid of
//! character cells with a cursor and an active color. The hardware blit of
//! these cells into video memory is left to the surrounding program; every
//! rendering rule (cursor advance, newline, positioned writes, clearing,
//! scrolling) is implemented and specified here.

use vstd::prelude::*;

verus! {

/// Width of the text grid in cells.
pub const VGA_WIDTH: usize = 80;

/// Height of the text grid in rows.
pub const VGA_HEIGHT: usize = 25;

/// One cell of the text grid: a glyph and a packed color attribute byte.
#[derive(Clone, Copy, PartialEq, Eq, Structural)]
pub struct ScreenCell {
    pub glyph: char,
    pub color: u8,
}

/// The framebuffer driver state: the rendered cells (row-major), the ambient
/// cursor, and the color applied to subsequently written cells.
///
/// `cur_y == VGA_HEIGHT` means the cursor has run past the bottom row. No
/// automatic scrolling is performed there: further glyphs are discarded until
/// the screen is cleared. (`scroll_up` implements the alternative policy but
/// is deliberately not wired into the write path.)
pub struct VgaBuffer {
    pub cells: Vec<ScreenCell>,
    pub cur_x: usize,
    pub cur_y: usize,
    pub color_code: u8,
}

/// Mathematical model of a `VgaBuffer`.
#[verifier::ext_equal]
pub struct ScreenView {
    pub cells: Seq<ScreenCell>,
    pub cur_x: nat,
    pub cur_y: nat,
    pub color: u8,
}

impl ScreenView {
    pub open spec fn wf(self) -> bool {
        &&& self.cells.len() == VGA_WIDTH * VGA_HEIGHT
        &&& self.cur_x < VGA_WIDTH
        &&& self.cur_y <= VGA_HEIGHT
    }
}

impl View for VgaBuffer {
    type V = ScreenView;

    open spec fn view(&self) -> ScreenView {
        ScreenView {
            cells: self.cells@,
            cur_x: self.cur_x as nat,
            cur_y: self.cur_y as nat,
            color: self.color_code,
        }
    }
}

/// A blank cell in the given color.
pub open spec fn blank_cell(color: u8) -> ScreenCell {
    ScreenCell { glyph: ' ', color }
}

/// Advancing to the start of the next row; at the bottom the cursor stays on
/// the off-screen row (no scrolling).
pub open spec fn spec_new_line(s: ScreenView) -> ScreenView {
    ScreenView {
        cur_x: 0,
        cur_y: if s.cur_y < VGA_HEIGHT { (s.cur_y + 1) as nat } else { s.cur_y },
        ..s
    }
}

/// Rendering one character at the cursor: a newline starts a new row; any
/// other character is stored in the current cell with the active color and
/// the cursor advances, wrapping at the end of the row. With the cursor past
/// the bottom row the character is discarded.
pub open spec fn spec_write_char(s: ScreenView, c: char) -> ScreenView {
    if c == '\n' {
        spec_new_line(s)
    } else if s.cur_y < VGA_HEIGHT {
        let cells = s.cells.update(
            s.cur_y * (VGA_WIDTH as int) + s.cur_x,
            ScreenCell { glyph: c, color: s.color },
        );
        if s.cur_x + 1 < VGA_WIDTH {
            ScreenView { cells, cur_x: (s.cur_x + 1) as nat, ..s }
        } else {
            ScreenView {
                cells,
                cur_x: 0,
                cur_y: (s.cur_y + 1) as nat,
                ..s
            }
        }
    } else {
        s
    }
}

/// Rendering a sequence of characters, one after the other.
pub open spec fn spec_write_seq(s: ScreenView, t: Seq<char>) -> ScreenView
    decreases t.len(),
{
    if t.len() == 0 {
        s
    } else {
        spec_write_seq(spec_write_char(s, t[0]), t.drop_first())
    }
}

/// A positioned write: the text is rendered from `(x, y)` and the ambient
/// cursor is restored afterwards.
pub open spec fn spec_write_at(s: ScreenView, t: Seq<char>, x: nat, y: nat) -> ScreenView {
    let w = spec_write_seq(ScreenView { cur_x: x, cur_y: y, ..s }, t);
    ScreenView { cur_x: s.cur_x, cur_y: s.cur_y, ..w }
}

/// Clearing the screen: every cell becomes a blank in the active color and
/// the cursor returns to the origin.
pub open spec fn spec_clear(s: ScreenView) -> ScreenView {
    ScreenView {
        cells: Seq::new((VGA_WIDTH * VGA_HEIGHT) as nat, |i: int| blank_cell(s.color)),
        cur_x: 0,
        cur_y: 0,
        color: s.color,
    }
}

pub proof fn lemma_write_seq_push(s: ScreenView, t: Seq<char>, c: char)
    ensures
        spec_write_seq(s, t.push(c)) == spec_write_char(spec_write_seq(s, t), c),
    decreases t.len(),
{
    if t.len() == 0 {
        assert(t.push(c)[0] == c);
        assert(t.push(c).drop_first() =~= Seq::<char>::empty());
        assert(spec_write_seq(spec_write_char(s, c), Seq::<char>::empty()) == spec_write_char(
            spec_write_seq(s, t),
            c,
        ));
    } else {
        assert(t.push(c)[0] == t[0]);
        assert(t.push(c).drop_first() =~= t.drop_first().push(c));
        lemma_write_seq_push(spec_write_char(s, t[0]), t.drop_first(), c);
    }
}

impl VgaBuffer {
    /// A fresh driver over an all-blank grid, cursor at the origin, in the
    /// boot color.
    pub fn new() -> (v: VgaBuffer)
        ensures
            v@.wf(),
            v@.cur_x == 0,
            v@.cur_y == 0,
            v@.color == 0xe,
            forall|i: int| 0 <= i < VGA_WIDTH * VGA_HEIGHT ==> v@.cells[i] == blank_cell(0xe),
    {
        let mut cells: Vec<ScreenCell> = Vec::new();
        let mut i: usize = 0;
        while i < VGA_WIDTH * VGA_HEIGHT
            invariant
                i <= VGA_WIDTH * VGA_HEIGHT,
                cells@.len() == i,
                forall|j: int| 0 <= j < i ==> cells@[j] == blank_cell(0xe),
            decreases VGA_WIDTH * VGA_HEIGHT - i,
        {
            cells.push(ScreenCell { glyph: ' ', color: 0xe });
            i = i + 1;
        }
        VgaBuffer { cells, cur_x: 0, cur_y: 0, color_code: 0xe }
    }

    /// Moves the cursor to the start of the next row, without scrolling.
    pub fn new_line(&mut self)
        requires
            old(self)@.wf(),
        ensures
            final(self)@ == spec_new_line(old(self)@),
            final(self)@.wf(),
    {
        if self.cur_y < VGA_HEIGHT {
            self.cur_y = self.cur_y + 1;
        }
        self.cur_x = 0;
    }

    /// Renders one character at the cursor.
    pub fn write_char(&mut self, c: char)
        requires
            old(self)@.wf(),
        ensures
            final(self)@ == spec_write_char(old(self)@, c),
            final(self)@.wf(),
    {
        if c == '\n' {
            self.new_line();
            return;
        }
        if self.cur_y < VGA_HEIGHT {
            let idx = self.cur_y * VGA_WIDTH + self.cur_x;
            self.cells[idx] = ScreenCell { glyph: c, color: self.color_code };
            if self.cur_x + 1 < VGA_WIDTH {
                self.cur_x = self.cur_x + 1;
            } else {
                self.cur_x = 0;
                self.cur_y = self.cur_y + 1;
            }
        }
    }

    /// Renders a string at the cursor, advancing it.
    pub fn write_string(&mut self, write_me: &str)
        requires
            old(self)@.wf(),
        ensures
            final(self)@ == spec_write_seq(old(self)@, write_me@),
            final(self)@.wf(),
    {
        let n = write_me.unicode_len();
        let mut i: usize = 0;
        while i < n
            invariant
                i <= n,
                n == write_me@.len(),
                self@ == spec_write_seq(old(self)@, write_me@.take(i as int)),
                self@.wf(),
            decreases n - i,
        {
            let c = write_me.get_char(i);
            proof {
                lemma_write_seq_push(old(self)@, write_me@.take(i as int), c);
                assert(write_me@.take(i + 1) =~= write_me@.take(i as int).push(c));
            }
            self.write_char(c);
            i = i + 1;
        }
        proof {
            assert(write_me@.take(n as int) =~= write_me@);
        }
    }

    /// Renders an already-built character sequence at the cursor.
    pub fn write_chars(&mut self, text: &Vec<char>)
        requires
            old(self)@.wf(),
        ensures
            final(self)@ == spec_write_seq(old(self)@, text@),
            final(self)@.wf(),
    {
        let n = text.len();
        let mut i: usize = 0;
        while i < n
            invariant
                i <= n,
                n == text@.len(),
                self@ == spec_write_seq(old(self)@, text@.take(i as int)),
                self@.wf(),
            decreases n - i,
        {
            let c = text[i];
            proof {
                lemma_write_seq_push(old(self)@, text@.take(i as int), c);
                assert(text@.take(i + 1) =~= text@.take(i as int).push(c));
            }
            self.write_char(c);
            i = i + 1;
        }
        proof {
            assert(text@.take(n as int) =~= text@);
        }
    }

    /// Overwrites every cell with a blank in the active color and resets the
    /// cursor to the origin.
    pub fn clr_scr(&mut self)
        requires
            old(self)@.wf(),
        ensures
            final(self)@ == spec_clear(old(self)@),
            final(self)@.wf(),
    {
        let n = self.cells.len();
        let mut i: usize = 0;
        while i < n
            invariant
                i <= n,
                self.cells@.len() == n,
                self.color_code == old(self).color_code,
                self.cur_x == old(self).cur_x,
                self.cur_y == old(self).cur_y,
                forall|j: int| 0 <= j < i ==> self.cells@[j] == blank_cell(self.color_code),
                forall|j: int| i <= j < n ==> self.cells@[j] == old(self).cells@[j],
            decreases n - i,
        {
            self.cells[i] = ScreenCell { glyph: ' ', color: self.color_code };
            i = i + 1;
        }
        self.cur_x = 0;
        self.cur_y = 0;
        proof {
            assert(self@.cells =~= spec_clear(old(self)@).cells);
            assert(self@ =~= spec_clear(old(self)@));
        }
    }

    /// Shifts every row up by one and blanks the bottom row, in the active
    /// color. This is the overflow policy the write path does not use: the
    /// driver clamps at the bottom row instead, and this routine is offered
    /// for a caller that prefers scrolling.
    pub fn scroll_up(&mut self)
        requires
            old(self)@.wf(),
        ensures
            final(self)@.wf(),
            final(self)@.cur_x == old(self)@.cur_x,
            final(self)@.cur_y == old(self)@.cur_y,
            final(self)@.color == old(self)@.color,
            forall|i: int|
                0 <= i < VGA_WIDTH * (VGA_HEIGHT - 1) ==> final(self)@.cells[i] == old(self)@.cells[i
                    + VGA_WIDTH],
            forall|i: int|
                VGA_WIDTH * (VGA_HEIGHT - 1) <= i < VGA_WIDTH * VGA_HEIGHT ==> final(self)@.cells[i]
                    == blank_cell(old(self)@.color),
    {
        let last_row = VGA_WIDTH * (VGA_HEIGHT - 1);
        let mut i: usize = 0;
        while i < last_row
            invariant
                i <= last_row,
                last_row == VGA_WIDTH * (VGA_HEIGHT - 1),
                self.cells@.len() == VGA_WIDTH * VGA_HEIGHT,
                self.color_code == old(self).color_code,
                self.cur_x == old(self).cur_x,
                self.cur_y == old(self).cur_y,
                forall|j: int| 0 <= j < i ==> self.cells@[j] == old(self).cells@[j + VGA_WIDTH],
                forall|j: int|
                    i <= j < VGA_WIDTH * VGA_HEIGHT ==> self.cells@[j] == old(self).cells@[j],
            decreases last_row - i,
        {
            let moved = self.cells[i + VGA_WIDTH];
            self.cells[i] = moved;
            i = i + 1;
        }
        while i < VGA_WIDTH * VGA_HEIGHT
            invariant
                last_row <= i <= VGA_WIDTH * VGA_HEIGHT,
                last_row == VGA_WIDTH * (VGA_HEIGHT - 1),
                self.cells@.len() == VGA_WIDTH * VGA_HEIGHT,
                self.color_code == old(self).color_code,
                self.cur_x == old(self).cur_x,
                self.cur_y == old(self).cur_y,
                forall|j: int| 0 <= j < last_row ==> self.cells@[j] == old(self).cells@[j + VGA_WIDTH],
                forall|j: int| last_row <= j < i ==> self.cells@[j] == blank_cell(self.color_code),
            decreases VGA_WIDTH * VGA_HEIGHT - i,
        {
            self.cells[i] = ScreenCell { glyph: ' ', color: self.color_code };
            i = i + 1;
        }
    }
}

/// Clears the whole screen.
pub fn _clear_screen(v: &mut VgaBuffer)
    requires
        old(v)@.wf(),
    ensures
        final(v)@ == spec_clear(old(v)@),
        final(v)@.wf(),
{
    v.clr_scr();
}

/// Changes the color applied to subsequent writes; already-rendered cells
/// and the cursor are untouched.
pub fn _set_color(v: &mut VgaBuffer, color_cd: u8)
    ensures
        final(v)@ == (ScreenView { color: color_cd, ..old(v)@ }),
{
    v.color_code = color_cd;
}

/// Renders text at the ambient cursor.
pub fn _print(v: &mut VgaBuffer, text: &str)
    requires
        old(v)@.wf(),
    ensures
        final(v)@ == spec_write_seq(old(v)@, text@),
        final(v)@.wf(),
{
    v.write_string(text);
}

/// Renders text from the given position and restores the ambient cursor, so
/// a later plain write resumes where it would have without this call.
pub fn _print_at(v: &mut VgaBuffer, text: &str, cur_x: usize, cur_y: usize)
    requires
        old(v)@.wf(),
        cur_x < VGA_WIDTH,
        cur_y <= VGA_HEIGHT,
    ensures
        final(v)@ == spec_write_at(old(v)@, text@, cur_x as nat, cur_y as nat),
        final(v)@.cur_x == old(v)@.cur_x,
        final(v)@.cur_y == old(v)@.cur_y,
        final(v)@.wf(),
{
    let old_x = v.cur_x;
    let old_y = v.cur_y;
    v.cur_x = cur_x;
    v.cur_y = cur_y;
    v.write_string(text);
    v.cur_x = old_x;
    v.cur_y = old_y;
}

/// Renders an already-built character sequence from the given position and
/// restores the ambient cursor.
pub fn print_chars_at(v: &mut VgaBuffer, text: &Vec<char>, cur_x: usize, cur_y: usize)
    requires
        old(v)@.wf(),
        cur_x < VGA_WIDTH,
        cur_y <= VGA_HEIGHT,
    ensures
        final(v)@ == spec_write_at(old(v)@, text@, cur_x as nat, cur_y as nat),
        final(v)@.cur_x == old(v)@.cur_x,
        final(v)@.cur_y == old(v)@.cur_y,
        final(v)@.wf(),
{
    let old_x = v.cur_x;
    let old_y = v.cur_y;
    v.cur_x = cur_x;
    v.cur_y = cur_y;
    v.write_chars(text);
    v.cur_x = old_x;
    v.cur_y = old_y;
}

/// A cleared screen renders later text independently of what was on it
/// before: two screens in the same color, whatever their cells and cursors
/// held, agree on everything after a clear followed by the same write, and
/// that write starts at the origin.
pub proof fn lemma_clear_erases_history(a: ScreenView, b: ScreenView, t: Seq<char>)
    requires
        a.color == b.color,
    ensures
        spec_clear(a).cur_x == 0,
        spec_clear(a).cur_y == 0,
        spec_write_seq(spec_clear(a), t) == spec_write_seq(spec_clear(b), t),
{
    assert(spec_clear(a).cells =~= spec_clear(b).cells);
    assert(spec_clear(a) =~= spec_clear(b));
}

} // verus!
