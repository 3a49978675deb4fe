//! The time-base field of a MIDI file header.

use vstd::prelude::*;

verus! {

/// Whether the time base counts SMPTE frames (its top bit is set) rather than
/// ticks per quarter note.
pub fn is_smpte(time_base: u16) -> (r: bool)
    ensures
        r == (time_base >= 0x8000),
{
    let r = (time_base >> 15u16) != 0;
    assert(r == (time_base >= 0x8000)) by (bit_vector)
        requires
            r == ((time_base >> 15u16) != 0),
    ;
    r
}

/// The time base without its top bit: ticks per quarter note when the time
/// base is not SMPTE.
pub fn ticks_per_quarter_note(time_base: u16) -> (r: u16)
    ensures
        r == time_base % 0x8000,
{
    let r = time_base & 0x7fffu16;
    assert(r == time_base % 0x8000) by (bit_vector)
        requires
            r == time_base & 0x7fffu16,
    ;
    r
}

} // verus!
