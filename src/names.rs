//! Names derived from file names: a path without its file extension.

use vstd::prelude::*;

verus! {

/// Where the file extension of the path `s` begins: the index of the last '.'
/// that comes after the last '/', or `None` if the final path component holds
/// no '.'.
pub open spec fn ext_dot(s: Seq<char>) -> Option<int>
    decreases s.len(),
{
    if s.len() == 0 {
        None
    } else if s.last() == '.' {
        Some(s.len() - 1)
    } else if s.last() == '/' {
        None
    } else {
        ext_dot(s.drop_last())
    }
}

/// The path `s` without its file extension: `s` up to, not including, the
/// last '.' of its final component, or `s` itself if that component has none.
pub open spec fn without_ext(s: Seq<char>) -> Seq<char> {
    match ext_dot(s) {
        Some(i) => s.take(i),
        None => s,
    }
}

/// The identifier a file name stands for in generated source: the name
/// without its file extension.
pub fn strip_name(name: &str) -> (r: String)
    ensures
        r@ == without_ext(name@),
{
    let len = name.unicode_len();
    let mut i: usize = len;
    assert(name@.take(len as int) =~= name@);
    while i > 0 && name.get_char(i - 1) != '.' && name.get_char(i - 1) != '/'
        invariant
            len == name@.len(),
            i <= len,
            ext_dot(name@) == ext_dot(name@.take(i as int)),
        decreases i,
    {
        assert(name@.take(i as int).drop_last() =~= name@.take(i - 1));
        i = i - 1;
    }
    if i > 0 && name.get_char(i - 1) == '.' {
        assert(name@.take(i as int).last() == '.');
        name.substring_char(0, i - 1).to_owned()
    } else {
        proof {
            if i > 0 {
                assert(name@.take(i as int).last() == '/');
            }
        }
        name.to_owned()
    }
}

/// `name` with its file extension replaced by `extension`.
pub fn replace_file_ext(name: &str, extension: &str) -> (r: String)
    ensures
        r@ == without_ext(name@) + extension@,
{
    let mut r = strip_name(name);
    r.append(extension);
    r
}

} // verus!
