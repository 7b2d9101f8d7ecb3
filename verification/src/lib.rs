//! Interrupt-driven text console core for a minimal bare-metal kernel:
//! a direct-memory text framebuffer renderer, a keyboard scancode decoder
//! with shift tracking and a blocking line reader, a timer tick handler,
//! and the vector-table bookkeeping that dispatches to them.
//!
//! The hardware itself (port I/O, PIC programming, the `lidt` load, the
//! spin lock around the shared state) lives outside this crate; everything
//! here is the pure state-machine logic those handlers run.

use vstd::prelude::*;

pub mod interrupts;
pub mod vga_txt;

verus! {

/// Compares a string against the leading characters of a line buffer, as the
/// command dispatcher does with what `read_line` returned.
///
/// Returns true exactly when every character of `s` matches the character of
/// `carr` at the same position; `carr`'s contents past `s` are not examined.
pub fn streq(s: &str, carr: &Vec<char>) -> (r: bool)
    requires
        s@.len() <= carr@.len(),
    ensures
        r == (forall|i: int| 0 <= i < s@.len() ==> carr@[i] == s@[i]),
{
    let n = s.unicode_len();
    let mut i: usize = 0;
    while i < n
        invariant
            i <= n,
            n == s@.len(),
            n <= carr@.len(),
            forall|j: int| 0 <= j < i ==> carr@[j] == s@[j],
        decreases n - i,
    {
        if carr[i] != s.get_char(i) {
            return false;
        }
        i = i + 1;
    }
    true
}

} // verus!
