//! The note stream: which decoded events are kept, and how each is encoded.

use vstd::prelude::*;
use ghakuf::messages::{MetaEvent, MidiEvent, SysExEvent};
use crate::decimal::push_decimal;
use crate::source::{c_source, entries, entry, epilogue, prologue};

verus! {

/// The channel events that the MIDI decoder hands over. Declared with its
/// variants visible, so that the classification below is proved against them.
#[verifier::external_type_specification]
pub struct ExMidiEvent(MidiEvent);

/// Meta events of the decoder; carried through, never inspected.
#[verifier::external_type_specification]
#[verifier::external_body]
pub struct ExMetaEvent(MetaEvent);

/// System-exclusive events of the decoder; carried through, never inspected.
#[verifier::external_type_specification]
#[verifier::external_body]
pub struct ExSysExEvent(SysExEvent);

/// One retained event: the direction flag sits in bit 7 of `note`
/// (set for note-on, clear for note-off), the pitch in bits 0 to 6.
#[derive(Clone, Copy, Debug, PartialEq, Eq, Structural)]
pub struct Note {
    /// Pitch with the direction flag in the high bit.
    pub note: u8,
    /// Ticks since the preceding event, as the decoder reported it.
    pub delta_time: u32,
}

/// The note byte of a note-on event for pitch `n`.
pub open spec fn on_byte(n: u8) -> u8 {
    n | 0x80u8
}

/// The note byte of a note-off event for pitch `n`.
pub open spec fn off_byte(n: u8) -> u8 {
    n & 0x7fu8
}

/// What a single decoded channel event adds to the stream.
pub open spec fn kept(delta_time: u32, event: MidiEvent) -> Seq<Note> {
    match event {
        MidiEvent::NoteOn { note, .. } => seq![Note { delta_time, note: on_byte(note) }],
        MidiEvent::NoteOff { note, .. } => seq![Note { delta_time, note: off_byte(note) }],
        _ => Seq::empty(),
    }
}

/// Whether a decoded channel event is a note-on or a note-off.
pub open spec fn is_note(event: MidiEvent) -> bool {
    event is NoteOn || event is NoteOff
}

/// The note stream produced by a sequence of decoded channel events, each
/// with its delta time, in decoding order.
pub open spec fn stream(events: Seq<(u32, MidiEvent)>) -> Seq<Note>
    decreases events.len(),
{
    if events.len() == 0 {
        Seq::empty()
    } else {
        let last = events.last();
        stream(events.drop_last()) + kept(last.0, last.1)
    }
}

/// The number of note-on and note-off events in a sequence of decoded events.
pub open spec fn note_count(events: Seq<(u32, MidiEvent)>) -> nat
    decreases events.len(),
{
    if events.len() == 0 {
        0
    } else {
        note_count(events.drop_last()) + if is_note(events.last().1) { 1nat } else { 0nat }
    }
}

/// A song reduced to its note-on and note-off events, in the order in which
/// they were decoded.
pub struct Tones {
    notes: Vec<Note>,
}

impl View for Tones {
    type V = Seq<Note>;

    closed spec fn view(&self) -> Seq<Note> {
        self.notes@
    }
}

impl Tones {
    /// An empty note stream, with room for a typical song.
    pub fn new() -> (r: Self)
        ensures
            r@ == Seq::<Note>::empty(),
    {
        Tones { notes: Vec::with_capacity(1000) }
    }

    /// Takes one decoded channel event: a note-on is appended with the
    /// direction bit set, a note-off with it cleared, and any other event
    /// leaves the stream as it was.
    pub fn midi_event(&mut self, delta_time: u32, event: &MidiEvent)
        ensures
            final(self)@ == old(self)@ + kept(delta_time, *event),
            match *event {
                MidiEvent::NoteOn { note, .. } => final(self)@ == old(self)@.push(
                    Note { delta_time, note: note | 0x80u8 },
                ),
                MidiEvent::NoteOff { note, .. } => final(self)@ == old(self)@.push(
                    Note { delta_time, note: note & 0x7fu8 },
                ),
                _ => final(self)@ == old(self)@,
            },
    {
        match event {
            MidiEvent::NoteOn { note, .. } => {
                self.notes.push(Note { delta_time, note: *note | 0x80u8 });
            },
            MidiEvent::NoteOff { note, .. } => {
                self.notes.push(Note { delta_time, note: *note & 0x7fu8 });
            },
            _ => {},
        }
        assert(self@ =~= old(self)@ + kept(delta_time, *event));
    }

    /// Meta events add nothing to the stream.
    pub fn meta_event(&mut self, delta_time: u32, event: &MetaEvent, data: &Vec<u8>)
        ensures
            final(self)@ == old(self)@,
    {
    }

    /// System-exclusive events add nothing to the stream.
    pub fn sys_ex_event(&mut self, delta_time: u32, event: &SysExEvent, data: &Vec<u8>)
        ensures
            final(self)@ == old(self)@,
    {
    }

    /// Appends the C declaration of the stream under the name `name` to `out`:
    /// the length constant `<name>_len`, then the array `<name>` with one
    /// entry per note, in stream order.
    pub fn write_c_src(&self, name: &str, out: &mut String)
        ensures
            final(out)@ == old(out)@ + c_source(name@, self@),
    {
        out.append("#include <stdint.h>\n#include \"song.h\"\nconst uint32_t ");
        out.append(name);
        out.append("_len = ");
        push_decimal(out, self.notes.len());
        out.append(";\n\nconst struct Note ");
        out.append(name);
        out.append("[] = {\n");
        let ghost start = out@;
        assert(start =~= old(out)@ + prologue(name@, self@.len()));
        let mut i: usize = 0;
        while i < self.notes.len()
            invariant
                i <= self.notes@.len(),
                start == old(out)@ + prologue(name@, self@.len()),
                out@ == start + entries(self.notes@.take(i as int)),
            decreases self.notes@.len() - i,
        {
            let n = self.notes[i];
            let ghost before = out@;
            out.append("{ .delta_time=");
            push_decimal(out, n.delta_time as usize);
            out.append(", .note=");
            push_decimal(out, n.note as usize);
            out.append(" },\n");
            proof {
                let t = self.notes@.take(i + 1);
                assert(t.drop_last() =~= self.notes@.take(i as int));
                assert(t.last() == n);
                assert(out@ =~= before + entry(n));
            }
            i = i + 1;
        }
        assert(self.notes@.take(i as int) =~= self.notes@);
        out.append("};\n");
        assert(out@ =~= old(out)@ + c_source(name@, self@));
    }

    /// The notes retained so far, in decoding order.
    pub fn notes(&self) -> (r: &Vec<Note>)
        ensures
            r@ == self@,
    {
        &self.notes
    }

    /// The number of notes retained so far.
    pub fn len(&self) -> (r: usize)
        ensures
            r == self@.len(),
    {
        self.notes.len()
    }

    /// A track boundary adds nothing to the stream.
    pub fn track_change(&mut self)
        ensures
            final(self)@ == old(self)@,
    {
    }
}

} // verus!
