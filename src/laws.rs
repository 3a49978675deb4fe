//! Properties of the note stream and of its C rendering.

use vstd::prelude::*;
use ghakuf::messages::MidiEvent;
use crate::decimal::{decimal, digit_char, is_digit, lemma_decimal, lemma_decimal_injective};
use crate::source::{c_source, entries, entry, epilogue, prologue};
use crate::tones::{kept, note_count, off_byte, on_byte, stream, Note};

verus! {

/// The direction flag never disturbs the pitch: a note-on byte has bit 7 set,
/// a note-off byte has it clear, and both keep bits 0 to 6 of the pitch; for a
/// valid pitch (below 128) the note-off byte is the pitch itself and the
/// note-on byte is the pitch plus 128.
pub proof fn lemma_direction_bit(n: u8)
    ensures
        on_byte(n) & 0x80u8 == 0x80u8,
        on_byte(n) & 0x7fu8 == n & 0x7fu8,
        off_byte(n) & 0x80u8 == 0u8,
        off_byte(n) & 0x7fu8 == n & 0x7fu8,
        n < 128 ==> off_byte(n) == n,
        n < 128 ==> on_byte(n) == n + 128,
{
    assert((n | 0x80u8) & 0x80u8 == 0x80u8) by (bit_vector);
    assert((n | 0x80u8) & 0x7fu8 == n & 0x7fu8) by (bit_vector);
    assert((n & 0x7fu8) & 0x80u8 == 0u8) by (bit_vector);
    assert((n & 0x7fu8) & 0x7fu8 == n & 0x7fu8) by (bit_vector);
    assert(n < 128 ==> n & 0x7fu8 == n) by (bit_vector);
    assert(n < 128 ==> n | 0x80u8 == n + 128) by (bit_vector);
}

/// Only note events reach the stream: its length is the number of note-on and
/// note-off events among the decoded ones.
pub proof fn lemma_stream_len(events: Seq<(u32, MidiEvent)>)
    ensures
        stream(events).len() == note_count(events),
    decreases events.len(),
{
    if events.len() > 0 {
        lemma_stream_len(events.drop_last());
    }
}

/// Decoding more events only appends to the stream: the stream of two runs of
/// events one after the other is the first run's stream followed by the
/// second's, so nothing is reordered.
pub proof fn lemma_stream_append(a: Seq<(u32, MidiEvent)>, b: Seq<(u32, MidiEvent)>)
    ensures
        stream(a + b) == stream(a) + stream(b),
    decreases b.len(),
{
    if b.len() == 0 {
        assert(a + b =~= a);
        assert(stream(a) + stream(b) =~= stream(a));
    } else {
        lemma_stream_append(a, b.drop_last());
        assert((a + b).drop_last() =~= a + b.drop_last());
        assert((a + b).last() == b.last());
        let k = kept(b.last().0, b.last().1);
        assert(stream(a) + stream(b.drop_last()) + k =~= stream(a) + (stream(b.drop_last()) + k));
    }
}

/// The array lists the notes in stream order: the entries of two streams one
/// after the other are the first's entries followed by the second's.
pub proof fn lemma_entries_append(a: Seq<Note>, b: Seq<Note>)
    ensures
        entries(a + b) == entries(a) + entries(b),
    decreases b.len(),
{
    if b.len() == 0 {
        assert(a + b =~= a);
        assert(entries(a) + entries(b) =~= entries(a));
    } else {
        lemma_entries_append(a, b.drop_last());
        assert((a + b).drop_last() =~= a + b.drop_last());
        assert((a + b).last() == b.last());
        assert(entries(a) + entries(b.drop_last()) + entry(b.last()) =~= entries(a)
            + (entries(b.drop_last()) + entry(b.last())));
    }
}

/// The length constant counts the entries: the declaration of the stream of
/// decoded events carries the number of note events as `<name>_len`, followed
/// by that stream's entries; with no note events it reads `<name>_len = 0`
/// and the array has no entries.
pub proof fn lemma_length_constant(name: Seq<char>, events: Seq<(u32, MidiEvent)>)
    ensures
        c_source(name, stream(events)) == prologue(name, note_count(events)) + entries(stream(events))
            + epilogue(),
        note_count(events) == 0 ==> c_source(name, stream(events)) == prologue(name, 0)
            + epilogue(),
        decimal(0) == seq!['0'],
{
    lemma_stream_len(events);
    if note_count(events) == 0 {
        assert(stream(events) =~= Seq::<Note>::empty());
        assert(prologue(name, 0) + Seq::<char>::empty() =~= prologue(name, 0));
    }
    assert(digit_char(0) == '0');
}

/// The output is a function of the input alone: the same decoded events under
/// the same name give the same text.
pub proof fn lemma_same_input_same_output(
    name: Seq<char>,
    a: Seq<(u32, MidiEvent)>,
    b: Seq<(u32, MidiEvent)>,
)
    requires
        a == b,
    ensures
        c_source(name, stream(a)) == c_source(name, stream(b)),
{
}

proof fn lemma_split_eq(a: Seq<char>, u: Seq<char>, b: Seq<char>, v: Seq<char>)
    requires
        a + u == b + v,
        a.len() == b.len(),
    ensures
        a == b,
        u == v,
{
    assert(a =~= (a + u).take(a.len() as int));
    assert(b =~= (b + v).take(b.len() as int));
    assert(u =~= (a + u).skip(a.len() as int));
    assert(v =~= (b + v).skip(b.len() as int));
}

/// Two texts that end in runs of digits, each preceded by a non-digit, split
/// the same way.
proof fn lemma_digits_at_end(a: Seq<char>, u: Seq<char>, b: Seq<char>, v: Seq<char>)
    requires
        a + u == b + v,
        a.len() > 0,
        b.len() > 0,
        !is_digit(a.last()),
        !is_digit(b.last()),
        forall|i: int| 0 <= i < u.len() ==> is_digit(#[trigger] u[i]),
        forall|i: int| 0 <= i < v.len() ==> is_digit(#[trigger] v[i]),
    ensures
        a == b,
        u == v,
{
    let t = a + u;
    assert(t.len() == a.len() + u.len());
    assert((b + v).len() == b.len() + v.len());
    if u.len() < v.len() {
        let i = a.len() - 1;
        assert(t[i] == a.last());
        assert((b + v)[i] == v[i - b.len()]);
    } else if v.len() < u.len() {
        let i = b.len() - 1;
        assert((b + v)[i] == b.last());
        assert(t[i] == u[i - a.len()]);
    }
    lemma_split_eq(a, u, b, v);
}

/// Two texts that start with runs of digits, each followed by a non-digit,
/// split the same way.
proof fn lemma_digits_at_front(u: Seq<char>, a: Seq<char>, v: Seq<char>, b: Seq<char>)
    requires
        u + a == v + b,
        a.len() > 0,
        b.len() > 0,
        !is_digit(a[0]),
        !is_digit(b[0]),
        forall|i: int| 0 <= i < u.len() ==> is_digit(#[trigger] u[i]),
        forall|i: int| 0 <= i < v.len() ==> is_digit(#[trigger] v[i]),
    ensures
        a == b,
        u == v,
{
    let t = u + a;
    assert(t.len() == a.len() + u.len());
    assert((v + b).len() == b.len() + v.len());
    if u.len() < v.len() {
        assert(t[u.len() as int] == a[0]);
        assert((v + b)[u.len() as int] == v[u.len() as int]);
    } else if v.len() < u.len() {
        assert((v + b)[v.len() as int] == b[0]);
        assert(t[v.len() as int] == u[v.len() as int]);
    }
    lemma_split_eq(u, a, v, b);
}

/// The last entry line of a text gives back its note, and what stands before it.
proof fn lemma_entry_injective(x: Seq<char>, n: Note, y: Seq<char>, m: Note)
    requires
        x + entry(n) == y + entry(m),
    ensures
        x == y,
        n == m,
{
    let p = "{ .delta_time="@;
    let q = ", .note="@;
    let r = " },\n"@;
    reveal_strlit("{ .delta_time=");
    reveal_strlit(", .note=");
    let dn = decimal(n.delta_time as nat);
    let kn = decimal(n.note as nat);
    let dm = decimal(m.delta_time as nat);
    let km = decimal(m.note as nat);
    lemma_decimal(n.delta_time as nat);
    lemma_decimal(n.note as nat);
    lemma_decimal(m.delta_time as nat);
    lemma_decimal(m.note as nat);
    assert(x + entry(n) =~= (x + p + dn + q) + kn + r);
    assert(y + entry(m) =~= (y + p + dm + q) + km + r);
    lemma_split_eq((x + p + dn + q) + kn, r, (y + p + dm + q) + km, r);
    assert((x + p + dn + q).last() == '=');
    assert((y + p + dm + q).last() == '=');
    lemma_digits_at_end(x + p + dn + q, kn, y + p + dm + q, km);
    lemma_split_eq(x + p + dn, q, y + p + dm, q);
    assert((x + p).last() == '=');
    assert((y + p).last() == '=');
    lemma_digits_at_end(x + p, dn, y + p, dm);
    lemma_split_eq(x, p, y, p);
    lemma_decimal_injective(n.delta_time as nat, m.delta_time as nat);
    lemma_decimal_injective(n.note as nat, m.note as nat);
}

proof fn lemma_entries_injective(a: Seq<Note>, b: Seq<Note>)
    requires
        entries(a) == entries(b),
    ensures
        a == b,
    decreases a.len(),
{
    if a.len() == 0 && b.len() > 0 {
        assert(entries(b).len() >= entry(b.last()).len());
        assert(entry(b.last()).len() > 0) by {
            reveal_strlit("{ .delta_time=");
        }
    } else if b.len() == 0 && a.len() > 0 {
        assert(entries(a).len() >= entry(a.last()).len());
        assert(entry(a.last()).len() > 0) by {
            reveal_strlit("{ .delta_time=");
        }
    } else if a.len() > 0 {
        lemma_entry_injective(entries(a.drop_last()), a.last(), entries(b.drop_last()), b.last());
        lemma_entries_injective(a.drop_last(), b.drop_last());
        assert(a =~= a.drop_last().push(a.last()));
        assert(b =~= b.drop_last().push(b.last()));
    } else {
        assert(a =~= b);
    }
}

/// The declaration can be read back: under one name, a text that this
/// library writes belongs to exactly one note stream, so decoding the length
/// constant and the entries yields every delta time and note byte that was
/// written, in order.
pub proof fn lemma_round_trip(name: Seq<char>, a: Seq<Note>, b: Seq<Note>)
    requires
        c_source(name, a) == c_source(name, b),
    ensures
        a == b,
{
    let head = "#include <stdint.h>\n#include \"song.h\"\nconst uint32_t "@ + name + "_len = "@;
    let mid = ";\n\nconst struct Note "@ + name + "[] = {\n"@;
    reveal_strlit(";\n\nconst struct Note ");
    lemma_decimal(a.len());
    lemma_decimal(b.len());
    let ta = decimal(a.len()) + (mid + entries(a) + epilogue());
    let tb = decimal(b.len()) + (mid + entries(b) + epilogue());
    assert(c_source(name, a) =~= head + ta);
    assert(c_source(name, b) =~= head + tb);
    lemma_split_eq(head, ta, head, tb);
    assert((mid + entries(a) + epilogue())[0] == ';');
    assert((mid + entries(b) + epilogue())[0] == ';');
    lemma_digits_at_front(
        decimal(a.len()),
        mid + entries(a) + epilogue(),
        decimal(b.len()),
        mid + entries(b) + epilogue(),
    );
    assert(mid + entries(a) + epilogue() =~= mid + (entries(a) + epilogue()));
    assert(mid + entries(b) + epilogue() =~= mid + (entries(b) + epilogue()));
    lemma_split_eq(mid, entries(a) + epilogue(), mid, entries(b) + epilogue());
    lemma_decimal_injective(a.len(), b.len());
    lemma_split_eq(entries(a), epilogue(), entries(b), epilogue());
    lemma_entries_injective(a, b);
}

} // verus!
