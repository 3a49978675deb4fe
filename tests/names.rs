use process_midi::decimal::push_decimal;
use process_midi::header::{is_smpte, ticks_per_quarter_note};
use process_midi::names::{replace_file_ext, strip_name};

#[test]
fn extension_is_stripped() {
    assert_eq!(strip_name("song.c"), "song");
    assert_eq!(strip_name("a.b.c"), "a.b");
    assert_eq!(strip_name("plain"), "plain");
    assert_eq!(strip_name("./out.c"), "./out");
    assert_eq!(strip_name("dir.v1/plain"), "dir.v1/plain");
    assert_eq!(strip_name(""), "");
    assert_eq!(strip_name("mélodie.mid"), "mélodie");
}

#[test]
fn extension_is_replaced() {
    assert_eq!(replace_file_ext("tune.mid", ".c"), "tune.c");
    assert_eq!(replace_file_ext("tune", ".c"), "tune.c");
    assert_eq!(replace_file_ext("dir/tune.v2.mid", ".c"), "dir/tune.v2.c");
    assert_eq!(replace_file_ext("./song.mid", ".c"), "./song.c");
    assert_eq!(replace_file_ext("my.song.mid", ".c"), "my.song.c");
    assert_eq!(replace_file_ext("my.dir/song", ".c"), "my.dir/song.c");
}

#[test]
fn decimal_spelling() {
    let mut out = String::new();
    push_decimal(&mut out, 0);
    out.push(' ');
    push_decimal(&mut out, 9);
    out.push(' ');
    push_decimal(&mut out, 10);
    out.push(' ');
    push_decimal(&mut out, 4294967295);
    assert_eq!(out, "0 9 10 4294967295");
}

#[test]
fn time_base_fields() {
    assert!(!is_smpte(0x01E0));
    assert_eq!(ticks_per_quarter_note(0x01E0), 480);
    assert!(is_smpte(0xE728));
    assert_eq!(ticks_per_quarter_note(0xE728), 0x6728);
    assert!(is_smpte(0x8000));
    assert_eq!(ticks_per_quarter_note(0x8000), 0);
    assert!(!is_smpte(0x7FFF));
}
