//! The text of the generated C declaration.

use vstd::prelude::*;
use crate::decimal::decimal;
use crate::tones::Note;

verus! {

/// Everything before the array's entries: the includes, the length constant
/// `<name>_len`, and the opening of the array `<name>`.
pub open spec fn prologue(name: Seq<char>, len: nat) -> Seq<char> {
    "#include <stdint.h>\n#include \"song.h\"\nconst uint32_t "@ + name + "_len = "@ + decimal(len)
        + ";\n\nconst struct Note "@ + name + "[] = {\n"@
}

/// The line that declares one entry of the array.
pub open spec fn entry(n: Note) -> Seq<char> {
    "{ .delta_time="@ + decimal(n.delta_time as nat) + ", .note="@ + decimal(n.note as nat)
        + " },\n"@
}

/// The entry lines of a note stream, one per note, in stream order.
pub open spec fn entries(notes: Seq<Note>) -> Seq<char>
    decreases notes.len(),
{
    if notes.len() == 0 {
        Seq::empty()
    } else {
        entries(notes.drop_last()) + entry(notes.last())
    }
}

/// What closes the array.
pub open spec fn epilogue() -> Seq<char> {
    "};\n"@
}

/// The whole C declaration of the note stream `notes` under the name `name`.
pub open spec fn c_source(name: Seq<char>, notes: Seq<Note>) -> Seq<char> {
    prologue(name, notes.len()) + entries(notes) + epilogue()
}

} // verus!
