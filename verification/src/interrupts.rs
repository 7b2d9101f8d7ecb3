//! The interrupt-driven side of the console: keyboard scancode decoding with
//! shift tracking, the line-accumulation buffer behind `read_line`, the timer
//! tick renderer, and the vector table the dispatch layer installs. Handlers
//! are written as state transitions over [`Console`]; the surrounding program
//! runs them under its lock and performs the hardware acknowledgments they
//! return.

use crate::vga_txt::ScreenView;
use crate::vga_txt::VGA_HEIGHT;
use crate::vga_txt::VGA_WIDTH;
use crate::vga_txt::VgaBuffer;
use crate::vga_txt::print_chars_at;
use crate::vga_txt::spec_write_at;
use crate::vga_txt::spec_write_char;
use vstd::prelude::*;

verus! {

/// First vector of the primary interrupt controller after remapping; chosen
/// above the 32 CPU-reserved exception vectors.
pub const PIC_1_OFFSET: u8 = 32;

/// First vector of the secondary (cascaded) interrupt controller.
pub const PIC_2_OFFSET: u8 = PIC_1_OFFSET + 8;

/// Make code of the left shift key.
pub const SCANCODE_SHIFT_DOWN: u8 = 42;

/// Break code of the left shift key (make code + 128).
pub const SCANCODE_SHIFT_UP: u8 = 170;

/// Break code of the line-terminating key (make code 28 + 128).
pub const SCANCODE_ENTER_UP: u8 = 156;

/// Capacity of the line-accumulation buffer.
pub const LINE_CAPACITY: usize = 100;

/// The hardware interrupt lines this console serves.
#[derive(Debug, Clone, Copy, PartialEq, Eq, Structural)]
pub enum InterruptIndex {
    Timer,
    Keyboard,
}

impl InterruptIndex {
    /// The vector number of this line: the lines are assigned contiguously
    /// from the primary controller's offset.
    pub open spec fn spec_as_u8(self) -> u8 {
        match self {
            InterruptIndex::Timer => PIC_1_OFFSET,
            InterruptIndex::Keyboard => (PIC_1_OFFSET + 1) as u8,
        }
    }

    pub fn as_u8(self) -> (r: u8)
        ensures
            r == self.spec_as_u8(),
    {
        match self {
            InterruptIndex::Timer => PIC_1_OFFSET,
            InterruptIndex::Keyboard => PIC_1_OFFSET + 1,
        }
    }

    pub fn as_usize(self) -> (r: usize)
        ensures
            r == self.spec_as_u8() as usize,
    {
        self.as_u8() as usize
    }
}

/// The decode table: the character a make code produces, or `'\0'` for every
/// scancode outside the table (all break codes among them). The shift and
/// terminator codes are not characters and are handled separately.
pub open spec fn spec_decode(sc: u8) -> char {
    if sc == 16 {
        'q'
    } else if sc == 17 {
        'w'
    } else if sc == 18 {
        'e'
    } else if sc == 19 {
        'r'
    } else if sc == 20 {
        't'
    } else if sc == 21 {
        'y'
    } else if sc == 22 {
        'u'
    } else if sc == 23 {
        'i'
    } else if sc == 24 {
        'o'
    } else if sc == 25 {
        'p'
    } else if sc == 30 {
        'a'
    } else if sc == 31 {
        's'
    } else if sc == 32 {
        'd'
    } else if sc == 33 {
        'f'
    } else if sc == 34 {
        'g'
    } else if sc == 35 {
        'h'
    } else if sc == 36 {
        'j'
    } else if sc == 37 {
        'k'
    } else if sc == 38 {
        'l'
    } else if sc == 44 {
        'z'
    } else if sc == 45 {
        'x'
    } else if sc == 46 {
        'c'
    } else if sc == 47 {
        'v'
    } else if sc == 48 {
        'b'
    } else if sc == 49 {
        'n'
    } else if sc == 50 {
        'm'
    } else if sc == 28 {
        '\n'
    } else if sc == 57 {
        ' '
    } else {
        '\0'
    }
}

/// Decodes one make code to its character, `'\0'` where the table has none.
pub fn decode_scancode(sc: u8) -> (c: char)
    ensures
        c == spec_decode(sc),
{
    match sc {
        16 => 'q',
        17 => 'w',
        18 => 'e',
        19 => 'r',
        20 => 't',
        21 => 'y',
        22 => 'u',
        23 => 'i',
        24 => 'o',
        25 => 'p',
        30 => 'a',
        31 => 's',
        32 => 'd',
        33 => 'f',
        34 => 'g',
        35 => 'h',
        36 => 'j',
        37 => 'k',
        38 => 'l',
        44 => 'z',
        45 => 'x',
        46 => 'c',
        47 => 'v',
        48 => 'b',
        49 => 'n',
        50 => 'm',
        28 => '\n',
        57 => ' ',
        _ => '\0',
    }
}

/// The case fold applied while shift is held: the lower-case letters the
/// decode table produces map to their upper case, everything else to itself.
pub open spec fn spec_upper(c: char) -> char {
    if c == 'a' {
        'A'
    } else if c == 'b' {
        'B'
    } else if c == 'c' {
        'C'
    } else if c == 'd' {
        'D'
    } else if c == 'e' {
        'E'
    } else if c == 'f' {
        'F'
    } else if c == 'g' {
        'G'
    } else if c == 'h' {
        'H'
    } else if c == 'i' {
        'I'
    } else if c == 'j' {
        'J'
    } else if c == 'k' {
        'K'
    } else if c == 'l' {
        'L'
    } else if c == 'm' {
        'M'
    } else if c == 'n' {
        'N'
    } else if c == 'o' {
        'O'
    } else if c == 'p' {
        'P'
    } else if c == 'q' {
        'Q'
    } else if c == 'r' {
        'R'
    } else if c == 's' {
        'S'
    } else if c == 't' {
        'T'
    } else if c == 'u' {
        'U'
    } else if c == 'v' {
        'V'
    } else if c == 'w' {
        'W'
    } else if c == 'x' {
        'X'
    } else if c == 'y' {
        'Y'
    } else if c == 'z' {
        'Z'
    } else {
        c
    }
}

/// Upper-cases one decoded character.
pub fn to_upper(c: char) -> (r: char)
    ensures
        r == spec_upper(c),
{
    match c {
        'a' => 'A',
        'b' => 'B',
        'c' => 'C',
        'd' => 'D',
        'e' => 'E',
        'f' => 'F',
        'g' => 'G',
        'h' => 'H',
        'i' => 'I',
        'j' => 'J',
        'k' => 'K',
        'l' => 'L',
        'm' => 'M',
        'n' => 'N',
        'o' => 'O',
        'p' => 'P',
        'q' => 'Q',
        'r' => 'R',
        's' => 'S',
        't' => 'T',
        'u' => 'U',
        'v' => 'V',
        'w' => 'W',
        'x' => 'X',
        'y' => 'Y',
        'z' => 'Z',
        _ => c,
    }
}

/// The keyboard decoder's state: whether shift is held, whether a line-read
/// session is in progress, and the line accumulated so far. `buffer` always
/// holds [`LINE_CAPACITY`] characters; `buf_idx` is the next free slot.
pub struct KeyboardState {
    pub shift: bool,
    pub reading: bool,
    pub buf_idx: usize,
    pub buffer: Vec<char>,
}

/// The console's whole shared state: the framebuffer, the keyboard decoder,
/// the tick counter, and the readiness flag the foreground flow spins on.
/// The surrounding program keeps a single instance behind its lock; every
/// handler and API call goes through it.
pub struct Console {
    pub vga: VgaBuffer,
    pub kb: KeyboardState,
    pub ticks: u64,
    pub is_reading: bool,
}

/// Mathematical model of a [`Console`].
#[verifier::ext_equal]
pub struct ConsoleView {
    pub screen: ScreenView,
    pub shift: bool,
    pub reading: bool,
    pub buf_idx: nat,
    pub buffer: Seq<char>,
    pub ticks: u64,
    pub is_reading: bool,
}

impl ConsoleView {
    /// Well-formedness: the screen is well formed, the line buffer has its
    /// fixed capacity with the next free slot inside it, and the readiness
    /// flag mirrors the reading state (both are only ever changed together,
    /// under the lock).
    pub open spec fn wf(self) -> bool {
        &&& self.screen.wf()
        &&& self.buffer.len() == LINE_CAPACITY
        &&& self.buf_idx <= LINE_CAPACITY
        &&& self.is_reading == self.reading
    }
}

impl View for Console {
    type V = ConsoleView;

    open spec fn view(&self) -> ConsoleView {
        ConsoleView {
            screen: self.vga@,
            shift: self.kb.shift,
            reading: self.kb.reading,
            buf_idx: self.kb.buf_idx as nat,
            buffer: self.kb.buffer@,
            ticks: self.ticks,
            is_reading: self.is_reading,
        }
    }
}

/// What one keyboard interrupt does to the console, given the scancode read
/// from the port. Outside a reading session every scancode is ignored.
/// Within one: the shift make/break codes track the shift key; the
/// terminator's break code seals the buffer with a sentinel (where room is
/// left for one) and ends the session, clearing the readiness flag; a decoded
/// character is case-folded by the shift state, echoed to the screen and
/// appended while the buffer has room; everything else changes nothing.
pub open spec fn spec_kb_step(c: ConsoleView, sc: u8) -> ConsoleView {
    if !c.reading {
        c
    } else if sc == SCANCODE_SHIFT_DOWN {
        ConsoleView { shift: true, ..c }
    } else if sc == SCANCODE_SHIFT_UP {
        ConsoleView { shift: false, ..c }
    } else if sc == SCANCODE_ENTER_UP {
        ConsoleView {
            buffer: if c.buf_idx < LINE_CAPACITY {
                c.buffer.update(c.buf_idx as int, '\0')
            } else {
                c.buffer
            },
            reading: false,
            is_reading: false,
            ..c
        }
    } else {
        if spec_decode(sc) != '\0' && c.buf_idx < LINE_CAPACITY {
            let key = spec_key(sc, c.shift);
            ConsoleView {
                screen: spec_write_char(c.screen, key),
                buffer: c.buffer.update(c.buf_idx as int, key),
                buf_idx: (c.buf_idx + 1) as nat,
                ..c
            }
        } else {
            c
        }
    }
}

/// The character a make code yields under the given shift state.
pub open spec fn spec_key(sc: u8, shift: bool) -> char {
    if shift {
        spec_upper(spec_decode(sc))
    } else {
        spec_decode(sc)
    }
}

/// Folds a whole arrival-ordered sequence of scancodes through
/// [`spec_kb_step`].
pub open spec fn spec_kb_run(c: ConsoleView, scs: Seq<u8>) -> ConsoleView
    decreases scs.len(),
{
    if scs.len() == 0 {
        c
    } else {
        spec_kb_run(spec_kb_step(c, scs[0]), scs.drop_first())
    }
}

/// A scancode outside the decode table — any break code but shift's and the
/// terminator's, and any unmapped make code — produces no character and
/// leaves the console, its shift state and its buffer included, unchanged.
pub proof fn lemma_unmapped_scancode_ignored(c: ConsoleView, sc: u8)
    requires
        spec_decode(sc) == '\0',
        sc != SCANCODE_SHIFT_DOWN,
        sc != SCANCODE_SHIFT_UP,
        sc != SCANCODE_ENTER_UP,
    ensures
        spec_kb_step(c, sc) == c,
{
}

/// Over any nonempty run of shift make/break codes arriving during a reading
/// session, `shift` ends up reflecting the most recent one — duplicates
/// included — and nothing else of the console changes.
pub proof fn lemma_shift_tracks_last_event(c: ConsoleView, scs: Seq<u8>)
    requires
        c.reading,
        scs.len() > 0,
        forall|i: int|
            0 <= i < scs.len() ==> scs[i] == SCANCODE_SHIFT_DOWN || scs[i] == SCANCODE_SHIFT_UP,
    ensures
        spec_kb_run(c, scs).reading,
        spec_kb_run(c, scs).shift == (scs.last() == SCANCODE_SHIFT_DOWN),
        spec_kb_run(c, scs).buffer == c.buffer,
        spec_kb_run(c, scs).buf_idx == c.buf_idx,
        spec_kb_run(c, scs).screen == c.screen,
        spec_kb_run(c, scs).ticks == c.ticks,
        spec_kb_run(c, scs).is_reading == c.is_reading,
    decreases scs.len(),
{
    assert(scs[0] == SCANCODE_SHIFT_DOWN || scs[0] == SCANCODE_SHIFT_UP);
    let c1 = spec_kb_step(c, scs[0]);
    assert(c1.reading);
    assert(c1.shift == (scs[0] == SCANCODE_SHIFT_DOWN));
    assert(spec_kb_run(c, scs) == spec_kb_run(c1, scs.drop_first()));
    if scs.len() == 1 {
        assert(scs.drop_first().len() == 0);
        assert(spec_kb_run(c1, scs.drop_first()) == c1);
        assert(scs.last() == scs[0]);
    } else {
        lemma_shift_tracks_last_event(c1, scs.drop_first());
        assert(scs.drop_first().last() == scs.last());
    }
}

/// Scancode delivery is per-interrupt and ordered by arrival, so a run of
/// plain character make codes during a reading session appends exactly their
/// decoded characters, case-folded by the (here unchanging) shift state, in
/// arrival order; what was accumulated before stays put; and the only loss is
/// silent truncation once the buffer's capacity is reached. The session stays
/// open throughout.
pub proof fn lemma_keystrokes_accumulate_in_order(c: ConsoleView, scs: Seq<u8>)
    requires
        c.reading,
        c.buffer.len() == LINE_CAPACITY,
        c.buf_idx <= LINE_CAPACITY,
        forall|i: int| 0 <= i < scs.len() ==> spec_decode(scs[i]) != '\0',
    ensures
        spec_kb_run(c, scs).reading,
        spec_kb_run(c, scs).shift == c.shift,
        spec_kb_run(c, scs).is_reading == c.is_reading,
        spec_kb_run(c, scs).buffer.len() == LINE_CAPACITY,
        spec_kb_run(c, scs).buf_idx == if c.buf_idx + scs.len() <= LINE_CAPACITY {
            c.buf_idx + scs.len()
        } else {
            LINE_CAPACITY as nat
        },
        forall|j: int|
            0 <= j < scs.len() && c.buf_idx + j < LINE_CAPACITY ==> spec_kb_run(c, scs).buffer[
                c.buf_idx + j
            ] == spec_key(scs[j], c.shift),
        forall|j: int| 0 <= j < c.buf_idx ==> spec_kb_run(c, scs).buffer[j] == c.buffer[j],
        forall|j: int|
            c.buf_idx + scs.len() <= j < LINE_CAPACITY ==> spec_kb_run(c, scs).buffer[j]
                == c.buffer[j],
    decreases scs.len(),
{
    if scs.len() > 0 {
        assert(spec_decode(scs[0]) != '\0');
        let c1 = spec_kb_step(c, scs[0]);
        lemma_keystrokes_accumulate_in_order(c1, scs.drop_first());
        assert(spec_kb_run(c, scs) == spec_kb_run(c1, scs.drop_first()));
        let r = spec_kb_run(c, scs);
        assert forall|j: int|
            0 <= j < scs.len() && c.buf_idx + j < LINE_CAPACITY implies r.buffer[c.buf_idx + j]
            == spec_key(scs[j], c.shift) by {
            if j == 0 {
                assert(c1.buffer[c.buf_idx as int] == spec_key(scs[0], c.shift));
            } else {
                assert(scs.drop_first()[j - 1] == scs[j]);
            }
        }
        assert forall|j: int| 0 <= j < c.buf_idx implies r.buffer[j] == c.buffer[j] by {
            assert(r.buffer[j] == c1.buffer[j]);
            assert(c1.buffer[j] == c.buffer[j]);
        }
        assert forall|j: int|
            c.buf_idx + scs.len() <= j < LINE_CAPACITY implies r.buffer[j] == c.buffer[j] by {
            assert(c1.buf_idx + scs.drop_first().len() <= j);
            assert(r.buffer[j] == c1.buffer[j]);
            assert(c1.buffer[j] == c.buffer[j]);
        }
    }
}

impl Console {
    /// A fresh console: blank screen, idle keyboard decoder, zero ticks.
    pub fn new() -> (c: Console)
        ensures
            c@.wf(),
            !c@.shift,
            !c@.reading,
            !c@.is_reading,
            c@.buf_idx == 0,
            c@.ticks == 0,
            forall|i: int| 0 <= i < LINE_CAPACITY ==> c@.buffer[i] == '\0',
            c@.screen.cur_x == 0,
            c@.screen.cur_y == 0,
            c@.screen.color == 0xe,
            forall|i: int|
                0 <= i < VGA_WIDTH * VGA_HEIGHT ==> c@.screen.cells[i]
                    == crate::vga_txt::blank_cell(0xe),
    {
        let mut buffer: Vec<char> = Vec::new();
        let mut i: usize = 0;
        while i < LINE_CAPACITY
            invariant
                i <= LINE_CAPACITY,
                buffer@.len() == i,
                forall|j: int| 0 <= j < i ==> buffer@[j] == '\0',
            decreases LINE_CAPACITY - i,
        {
            buffer.push('\0');
            i = i + 1;
        }
        Console {
            vga: VgaBuffer::new(),
            kb: KeyboardState { shift: false, reading: false, buf_idx: 0, buffer },
            ticks: 0,
            is_reading: false,
        }
    }

    /// An executable check of the console's well-formedness, for callers
    /// outside verified code.
    pub fn is_well_formed(&self) -> (r: bool)
        ensures
            r == self@.wf(),
    {
        self.vga.cells.len() == VGA_WIDTH * VGA_HEIGHT && self.vga.cur_x < VGA_WIDTH
            && self.vga.cur_y <= VGA_HEIGHT && self.kb.buffer.len() == LINE_CAPACITY
            && self.kb.buf_idx <= LINE_CAPACITY && self.is_reading == self.kb.reading
    }

    /// Opens a line-read session: clears the accumulation buffer, resets the
    /// index, marks the decoder as reading and raises the readiness flag the
    /// foreground flow will spin on. The caller runs this with interrupts
    /// masked. Only one session may be outstanding at a time; the screen,
    /// the tick counter and the shift state are untouched.
    pub fn begin_read_line(&mut self)
        requires
            old(self)@.wf(),
        ensures
            final(self)@.wf(),
            final(self)@ == (ConsoleView {
                reading: true,
                is_reading: true,
                buf_idx: 0,
                buffer: Seq::new(LINE_CAPACITY as nat, |i: int| '\0'),
                ..old(self)@
            }),
    {
        self.kb.reading = true;
        let mut i: usize = 0;
        while i < LINE_CAPACITY
            invariant
                i <= LINE_CAPACITY,
                self.kb.buffer@.len() == LINE_CAPACITY,
                forall|j: int| 0 <= j < i ==> self.kb.buffer@[j] == '\0',
                self.kb.reading,
                self.kb.shift == old(self).kb.shift,
                self.kb.buf_idx == old(self).kb.buf_idx,
                self.vga@ == old(self).vga@,
                self.ticks == old(self).ticks,
                self.is_reading == old(self).is_reading,
            decreases LINE_CAPACITY - i,
        {
            self.kb.buffer[i] = '\0';
            i = i + 1;
        }
        self.kb.buf_idx = 0;
        self.is_reading = true;
        proof {
            assert(self.kb.buffer@ =~= Seq::new(LINE_CAPACITY as nat, |i: int| '\0'));
            assert(self@ =~~= (ConsoleView {
                reading: true,
                is_reading: true,
                buf_idx: 0,
                buffer: Seq::new(LINE_CAPACITY as nat, |i: int| '\0'),
                ..old(self)@
            }));
        }
    }

    /// True once the terminator's release has ended the session and the
    /// accumulated line may be copied out. The foreground flow polls this
    /// flag instead of reacquiring the lock's protected state.
    pub fn line_ready(&self) -> (r: bool)
        ensures
            r == !self@.is_reading,
    {
        !self.is_reading
    }

    /// Copies out the accumulated line: exactly the characters decoded since
    /// the session began, case-folded per the shift state at each keystroke,
    /// sentinel-terminated, truncated at the buffer's capacity. The caller
    /// runs this with interrupts masked, after [`Self::line_ready`].
    pub fn line_buffer(&self) -> (r: Vec<char>)
        ensures
            r@ == self@.buffer,
    {
        let n = self.kb.buffer.len();
        let mut r: Vec<char> = Vec::new();
        let mut i: usize = 0;
        while i < n
            invariant
                i <= n,
                n == self.kb.buffer@.len(),
                r@ =~= self.kb.buffer@.take(i as int),
            decreases n - i,
        {
            r.push(self.kb.buffer[i]);
            i = i + 1;
        }
        proof {
            assert(self.kb.buffer@.take(n as int) =~= self.kb.buffer@);
        }
        r
    }

    /// The keyboard handler's whole work for one interrupt, after the
    /// scancode has been read from the port: one [`spec_kb_step`] transition.
    /// It returns the end-of-interrupt acknowledgments the dispatch layer
    /// must deliver — exactly one, for the keyboard line, on every branch,
    /// the idle early return included.
    pub fn keyboard_interrupt_handler(&mut self, scancode: u8) -> (acks: Vec<InterruptIndex>)
        requires
            old(self)@.wf(),
        ensures
            final(self)@.wf(),
            final(self)@ == spec_kb_step(old(self)@, scancode),
            acks@.len() == 1,
            acks@[0] == InterruptIndex::Keyboard,
    {
        if self.kb.reading {
            if scancode == SCANCODE_SHIFT_DOWN {
                self.kb.shift = true;
            } else if scancode == SCANCODE_SHIFT_UP {
                self.kb.shift = false;
            } else if scancode == SCANCODE_ENTER_UP {
                let idx = self.kb.buf_idx;
                if idx < LINE_CAPACITY {
                    self.kb.buffer[idx] = '\0';
                }
                self.kb.reading = false;
                self.is_reading = false;
            } else {
                let decoded = decode_scancode(scancode);
                let idx = self.kb.buf_idx;
                if decoded != '\0' && idx < LINE_CAPACITY {
                    let key = if self.kb.shift {
                        to_upper(decoded)
                    } else {
                        decoded
                    };
                    self.vga.write_char(key);
                    self.kb.buffer[idx] = key;
                    self.kb.buf_idx = idx + 1;
                }
            }
        }
        proof {
            assert(self@ =~~= spec_kb_step(old(self)@, scancode));
        }
        let mut acks: Vec<InterruptIndex> = Vec::new();
        acks.push(InterruptIndex::Keyboard);
        acks
    }

    /// The timer handler's whole work for one interrupt: the tick counter
    /// advances by one, the count and the elapsed seconds it implies are
    /// rendered at the top of the bottom row without disturbing the ambient
    /// cursor, and the color is left at the console's running value. Returns
    /// the acknowledgments the dispatch layer must deliver — exactly one,
    /// for the timer line, unconditionally.
    pub fn timer_interrupt_handler(&mut self) -> (acks: Vec<InterruptIndex>)
        requires
            old(self)@.wf(),
            (old(self).ticks + 1) * 6 <= u64::MAX,
        ensures
            final(self)@.wf(),
            final(self).ticks == old(self).ticks + 1,
            final(self)@.screen == spec_timer_screen(old(self)@.screen, final(self).ticks),
            final(self)@.screen.cur_x == old(self)@.screen.cur_x,
            final(self)@.screen.cur_y == old(self)@.screen.cur_y,
            final(self)@.shift == old(self)@.shift,
            final(self)@.reading == old(self)@.reading,
            final(self)@.buf_idx == old(self)@.buf_idx,
            final(self)@.buffer == old(self)@.buffer,
            final(self)@.is_reading == old(self)@.is_reading,
            acks@.len() == 1,
            acks@[0] == InterruptIndex::Timer,
    {
        self.ticks = self.ticks + 1;
        let line = tick_line(self.ticks);
        self.vga.color_code = 0xf0;
        print_chars_at(&mut self.vga, &line, 0, 24);
        self.vga.color_code = 0xa;
        let mut acks: Vec<InterruptIndex> = Vec::new();
        acks.push(InterruptIndex::Timer);
        acks
    }
}

/// What the timer handler leaves on the screen: the tick line painted at the
/// bottom row in the status color, the running color then set back.
pub open spec fn spec_timer_screen(s: ScreenView, ticks: u64) -> ScreenView {
    let painted = spec_write_at(
        ScreenView { color: 0xf0, ..s },
        spec_tick_line(ticks),
        0,
        (VGA_HEIGHT - 1) as nat,
    );
    ScreenView { color: 0x0a, ..painted }
}

/// The decimal digit characters of `n`, most significant first.
pub open spec fn spec_digits(n: nat) -> Seq<char>
    decreases n,
{
    if n < 10 {
        seq![spec_digit(n)]
    } else {
        spec_digits(n / 10).push(spec_digit(n % 10))
    }
}

/// The character of one decimal digit.
pub open spec fn spec_digit(d: nat) -> char {
    if d == 0 {
        '0'
    } else if d == 1 {
        '1'
    } else if d == 2 {
        '2'
    } else if d == 3 {
        '3'
    } else if d == 4 {
        '4'
    } else if d == 5 {
        '5'
    } else if d == 6 {
        '6'
    } else if d == 7 {
        '7'
    } else if d == 8 {
        '8'
    } else {
        '9'
    }
}

fn digit_char(d: u64) -> (c: char)
    requires
        d < 10,
    ensures
        c == spec_digit(d as nat),
{
    match d {
        0 => '0',
        1 => '1',
        2 => '2',
        3 => '3',
        4 => '4',
        5 => '5',
        6 => '6',
        7 => '7',
        8 => '8',
        _ => '9',
    }
}

fn push_digits(v: &mut Vec<char>, n: u64)
    ensures
        final(v)@ == old(v)@ + spec_digits(n as nat),
    decreases n,
{
    if n < 10 {
        v.push(digit_char(n));
        proof {
            assert(old(v)@ + spec_digits(n as nat) =~= old(v)@.push(spec_digit(n as nat)));
        }
    } else {
        push_digits(v, n / 10);
        v.push(digit_char(n % 10));
        proof {
            assert((n / 10) as nat == (n as nat) / 10);
            assert((n % 10) as nat == (n as nat) % 10);
            assert(old(v)@ + spec_digits(n as nat) =~= (old(v)@ + spec_digits(
                (n as nat) / 10,
            )).push(spec_digit((n as nat) % 10)));
        }
    }
}

fn push_str_chars(v: &mut Vec<char>, s: &str)
    ensures
        final(v)@ == old(v)@ + s@,
{
    let n = s.unicode_len();
    let mut i: usize = 0;
    while i < n
        invariant
            i <= n,
            n == s@.len(),
            v@ == old(v)@ + s@.take(i as int),
        decreases n - i,
    {
        let c = s.get_char(i);
        proof {
            assert(s@.take(i + 1) =~= s@.take(i as int).push(s@[i as int]));
            assert(old(v)@ + s@.take(i + 1) =~= (old(v)@ + s@.take(i as int)).push(s@[i as int]));
        }
        v.push(c);
        i = i + 1;
    }
    proof {
        assert(s@.take(n as int) =~= s@);
    }
}

/// The status line the timer handler renders: the tick count and the elapsed
/// seconds it implies at six hundredths of a second per tick, to two decimal
/// places, padded with blanks to overpaint the previous rendering.
pub open spec fn spec_tick_line(ticks: u64) -> Seq<char> {
    let cs = (ticks * 6) as nat;
    "Tick Number: "@ + spec_digits(ticks as nat) + "  /  Seconds Elapsed: "@ + spec_digits(
        cs / 100,
    ) + seq!['.', spec_digit((cs % 100) / 10), spec_digit(cs % 10)]
        + "                                                          "@
}

/// Builds the timer status line.
pub fn tick_line(ticks: u64) -> (r: Vec<char>)
    requires
        ticks * 6 <= u64::MAX,
    ensures
        r@ == spec_tick_line(ticks),
{
    let mut v: Vec<char> = Vec::new();
    push_str_chars(&mut v, "Tick Number: ");
    push_digits(&mut v, ticks);
    push_str_chars(&mut v, "  /  Seconds Elapsed: ");
    let cs = ticks * 6;
    push_digits(&mut v, cs / 100);
    v.push('.');
    let frac = cs % 100;
    v.push(digit_char(frac / 10));
    v.push(digit_char(frac % 10));
    push_str_chars(&mut v, "                                                          ");
    proof {
        assert((cs / 100) as nat == ((ticks * 6) as nat) / 100);
        assert(((cs % 100) / 10) as nat == ((((ticks * 6) as nat) % 100) / 10) as nat);
        assert((cs % 10) as nat == ((ticks * 6) as nat) % 10);
        assert(v@ =~= spec_tick_line(ticks));
    }
    v
}

/// The handlers a vector table entry can point at.
#[derive(Debug, Clone, Copy, PartialEq, Eq, Structural)]
pub enum HandlerKind {
    Breakpoint,
    Timer,
    Keyboard,
}

/// The CPU-defined vector of the breakpoint/diagnostic trap.
pub const BREAKPOINT_VECTOR: u8 = 3;

/// The vector table: a fixed map from vector numbers to handler entry
/// points, built once at startup and then loaded. Once active its entries
/// are immutable for the remainder of execution.
pub struct VectorTable {
    pub entries: Vec<Option<HandlerKind>>,
    pub active: bool,
}

impl VectorTable {
    pub open spec fn wf(self) -> bool {
        self.entries@.len() == 256
    }

    /// An empty, not yet loaded table.
    pub fn new() -> (t: VectorTable)
        ensures
            t.wf(),
            !t.active,
            forall|i: int| 0 <= i < 256 ==> t.entries@[i] is None,
    {
        let mut entries: Vec<Option<HandlerKind>> = Vec::new();
        let mut i: usize = 0;
        while i < 256
            invariant
                i <= 256,
                entries@.len() == i,
                forall|j: int| 0 <= j < i ==> entries@[j] is None,
            decreases 256 - i,
        {
            entries.push(None);
            i = i + 1;
        }
        VectorTable { entries, active: false }
    }

    /// Installs a handler. Only a table not yet loaded may be changed.
    pub fn set_handler(&mut self, vector: u8, handler: HandlerKind)
        requires
            old(self).wf(),
            !old(self).active,
        ensures
            final(self).wf(),
            !final(self).active,
            final(self).entries@ == old(self).entries@.update(vector as int, Some(handler)),
    {
        self.entries[vector as usize] = Some(handler);
    }

    /// Marks the table active: from here on the dispatch layer consults it
    /// and its entries never change. The CPU-side load is the surrounding
    /// program's duty.
    pub fn load(&mut self)
        requires
            old(self).wf(),
        ensures
            final(self).wf(),
            final(self).active,
            final(self).entries@ == old(self).entries@,
    {
        self.active = true;
    }
}

/// The remapped controllers land on a collision-free vector range: both
/// 8-vector blocks sit above the 32 CPU-reserved vectors and do not overlap
/// each other, the timer and keyboard lines get distinct vectors inside the
/// primary block, and the breakpoint trap stays on its CPU-reserved vector
/// outside both blocks.
pub proof fn lemma_vector_layout_collision_free()
    ensures
        PIC_1_OFFSET >= 32,
        PIC_2_OFFSET >= PIC_1_OFFSET + 8,
        PIC_1_OFFSET <= InterruptIndex::Timer.spec_as_u8() < PIC_1_OFFSET + 8,
        PIC_1_OFFSET <= InterruptIndex::Keyboard.spec_as_u8() < PIC_1_OFFSET + 8,
        InterruptIndex::Timer.spec_as_u8() != InterruptIndex::Keyboard.spec_as_u8(),
        BREAKPOINT_VECTOR < 32,
{
}

/// Builds and activates the console's vector table: the breakpoint trap on
/// its CPU-defined vector, and the timer and keyboard handlers contiguously
/// from the remapped controller offset. Every other entry is empty.
pub fn init_idt() -> (t: VectorTable)
    ensures
        t.wf(),
        t.active,
        t.entries@[BREAKPOINT_VECTOR as int] == Some(HandlerKind::Breakpoint),
        t.entries@[InterruptIndex::Timer.spec_as_u8() as int] == Some(HandlerKind::Timer),
        t.entries@[InterruptIndex::Keyboard.spec_as_u8() as int] == Some(HandlerKind::Keyboard),
        forall|i: int|
            0 <= i < 256 && i != BREAKPOINT_VECTOR && i != InterruptIndex::Timer.spec_as_u8()
                && i != InterruptIndex::Keyboard.spec_as_u8() ==> t.entries@[i] is None,
{
    let mut t = VectorTable::new();
    t.set_handler(BREAKPOINT_VECTOR, HandlerKind::Breakpoint);
    t.set_handler(InterruptIndex::Timer.as_u8(), HandlerKind::Timer);
    t.set_handler(InterruptIndex::Keyboard.as_u8(), HandlerKind::Keyboard);
    t.load();
    t
}

} // verus!
