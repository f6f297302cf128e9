//! Terminal echo flag computation.
//!
//! The terminal's local-mode word is a bit set; local echo is one bit in
//! it. The functions here compute the new mode word for a desired echo
//! state; reading and applying the word on a real terminal is left to
//! the caller.

use vstd::prelude::*;

verus! {

/// The local-mode word with the echo bit forced to `enabled`.
pub open spec fn echo_applied(lflag: u32, echo_mask: u32, enabled: bool) -> u32 {
    if enabled {
        lflag | echo_mask
    } else {
        lflag & !echo_mask
    }
}

/// Sets or clears the echo bit of `lflag`, leaving every other bit alone.
pub fn echo_flags(lflag: u32, echo_mask: u32, enabled: bool) -> (r: u32)
    ensures
        r == echo_applied(lflag, echo_mask, enabled),
{
    if enabled {
        lflag | echo_mask
    } else {
        lflag & !echo_mask
    }
}

/// Applying the same echo state twice leaves the same mode word as
/// applying it once.
pub proof fn lemma_echo_idempotent(lflag: u32, echo_mask: u32, enabled: bool)
    ensures
        echo_applied(echo_applied(lflag, echo_mask, enabled), echo_mask, enabled)
            == echo_applied(lflag, echo_mask, enabled),
{
    assert((lflag | echo_mask) | echo_mask == lflag | echo_mask) by (bit_vector);
    assert((lflag & !echo_mask) & !echo_mask == lflag & !echo_mask) by (bit_vector);
}

} // verus!
