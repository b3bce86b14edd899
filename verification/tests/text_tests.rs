use audioman::lists::{rfind, same_units};
use audioman::text::{chars_of, eq_ignore_ascii_case, push_decimal, push_digits, string_of};
use audioman::utf16::{decode_utf16_lossy, encode_utf16};
use audioman::winpath::file_stem;

fn decimal(n: i64) -> String {
    let mut text = String::from("<");
    push_decimal(&mut text, n);
    text
}

#[test]
fn numbers_are_written_in_decimal() {
    assert_eq!(decimal(0), "<0");
    assert_eq!(decimal(9), "<9");
    assert_eq!(decimal(10), "<10");
    assert_eq!(decimal(100), "<100");
    assert_eq!(decimal(-1), "<-1");
    assert_eq!(decimal(i64::MAX), "<9223372036854775807");
    assert_eq!(decimal(i64::MIN), "<-9223372036854775808");
    let mut text = String::new();
    push_digits(&mut text, u64::MAX);
    assert_eq!(text, "18446744073709551615");
}

#[test]
fn characters_and_back() {
    let text = "a\u{e4}\u{1F50A}";
    assert_eq!(chars_of(text), vec!['a', '\u{e4}', '\u{1F50A}']);
    assert_eq!(string_of(&chars_of(text)), text);
    assert_eq!(string_of(&[]), "");
}

#[test]
fn ascii_case_is_ignored() {
    assert!(eq_ignore_ascii_case("{0.0.0.00000000}.{AB}", "{0.0.0.00000000}.{ab}"));
    assert!(eq_ignore_ascii_case("", ""));
    assert!(!eq_ignore_ascii_case("a", "ab"));
    assert!(!eq_ignore_ascii_case("a", "b"));
    // Only ASCII letters have a case here, and neighbours of the letters none.
    assert!(!eq_ignore_ascii_case("\u{c4}", "\u{e4}"));
    assert!(!eq_ignore_ascii_case("@", "`"));
    assert!(!eq_ignore_ascii_case("[", "{"));
}

#[test]
fn case_comparison_agrees_with_std() {
    let samples = ["", "a", "A", "Z", "z", "@", "`", "[", "{", "\u{e4}", "\u{c4}", "aB", "Ab"];
    for a in samples {
        for b in samples {
            assert_eq!(eq_ignore_ascii_case(a, b), a.eq_ignore_ascii_case(b), "{a} {b}");
        }
    }
}

#[test]
fn utf16_of_text() {
    assert_eq!(encode_utf16("A\u{e4}"), vec![0x41, 0xe4]);
    assert_eq!(encode_utf16("\u{1F50A}"), vec![0xD83D, 0xDD0A]);
    assert_eq!(encode_utf16("\u{FFFF}\u{10000}"), vec![0xFFFF, 0xD800, 0xDC00]);
    assert_eq!(encode_utf16("\u{10FFFF}"), vec![0xDBFF, 0xDFFF]);
    assert_eq!(encode_utf16(""), Vec::<u16>::new());
}

#[test]
fn utf16_is_read_back() {
    for text in ["", "plain", "\u{e4}\u{2603}", "x\u{1F50A}y", "\u{D7FF}\u{E000}\u{10FFFF}"] {
        assert_eq!(decode_utf16_lossy(&encode_utf16(text)), text);
    }
}

#[test]
fn unpaired_surrogates_are_replaced() {
    assert_eq!(decode_utf16_lossy(&[0xD83D]), "\u{FFFD}");
    assert_eq!(decode_utf16_lossy(&[0xDD0A]), "\u{FFFD}");
    assert_eq!(decode_utf16_lossy(&[0xD83D, 0x41]), "\u{FFFD}A");
    assert_eq!(decode_utf16_lossy(&[0xDD0A, 0xD83D]), "\u{FFFD}\u{FFFD}");
    assert_eq!(decode_utf16_lossy(&[0xD83D, 0xD83D, 0xDD0A]), "\u{FFFD}\u{1F50A}");
}

#[test]
fn utf16_agrees_with_std() {
    let interesting = [0u16, 0x41, 0xD7FF, 0xD800, 0xDBFF, 0xDC00, 0xDFFF, 0xE000, 0xFFFF];
    for a in interesting {
        for b in interesting {
            for c in interesting {
                let units = [a, b, c];
                assert_eq!(decode_utf16_lossy(&units), String::from_utf16_lossy(&units));
            }
        }
    }
    for text in ["", "a", "\u{7FF}\u{800}", "\u{FFFF}\u{10000}\u{10FFFF}"] {
        assert_eq!(encode_utf16(text), text.encode_utf16().collect::<Vec<u16>>());
    }
}

#[test]
fn last_occurrence_is_found() {
    assert_eq!(rfind(&['a', '#', 'b', '#', 'c'], '#'), Some(3));
    assert_eq!(rfind(&['#'], '#'), Some(0));
    assert_eq!(rfind(&['a'], '#'), None);
    assert_eq!(rfind(&[], '#'), None);
}

#[test]
fn units_are_compared() {
    assert!(same_units(&[], &[]));
    assert!(same_units(&[1, 2], &[1, 2]));
    assert!(!same_units(&[1, 2], &[1, 3]));
    assert!(!same_units(&[1], &[1, 0]));
}

fn stem(path: &str) -> Option<String> {
    file_stem(path)
}

#[test]
fn stem_of_an_image_path() {
    let path = "C:\\Program Files\\Mozilla Firefox\\firefox.exe";
    assert_eq!(stem(path).as_deref(), Some("firefox"));
    assert_eq!(stem("D:/games/game.x64.exe").as_deref(), Some("game.x64"));
    assert_eq!(stem("C:app.exe").as_deref(), Some("app"));
    assert_eq!(stem("app").as_deref(), Some("app"));
}

#[test]
fn stem_keeps_a_leading_dot() {
    assert_eq!(stem("C:\\.profile").as_deref(), Some(".profile"));
    assert_eq!(stem("C:\\.profile.bak").as_deref(), Some(".profile"));
    assert_eq!(stem("C:\\a.").as_deref(), Some("a"));
    assert_eq!(stem("C:\\...").as_deref(), Some(".."));
}

#[test]
fn stem_skips_empty_and_dot_components() {
    assert_eq!(stem("C:\\a\\b\\\\").as_deref(), Some("b"));
    assert_eq!(stem("C:\\a\\.\\.").as_deref(), Some("a"));
    assert_eq!(stem("\\a.b").as_deref(), Some("a"));
}

#[test]
fn no_stem_without_a_file() {
    assert_eq!(stem(""), None);
    assert_eq!(stem("C:"), None);
    assert_eq!(stem("C:\\"), None);
    assert_eq!(stem("C:\\a\\.."), None);
    assert_eq!(stem("."), None);
    assert_eq!(stem("\\\\server\\share"), None);
    assert_eq!(stem("\\\\server\\share\\"), None);
    assert_eq!(stem("\\\\.\\device"), None);
    assert_eq!(stem("\\\\?\\C:"), None);
    assert_eq!(stem("\\\\?\\UNC\\server\\share"), None);
    assert_eq!(stem("\\\\?\\name"), None);
    assert_eq!(stem("\\\\?\\UNC/s\\x.exe"), None);
}

#[test]
fn stem_behind_a_prefix() {
    assert_eq!(stem("\\\\server\\share\\a.exe").as_deref(), Some("a"));
    assert_eq!(stem("\\\\?\\C:\\a.exe").as_deref(), Some("a"));
    assert_eq!(stem("\\\\?\\UNC\\server\\share\\a.exe").as_deref(), Some("a"));
    assert_eq!(stem("\\\\.\\device\\a.exe").as_deref(), Some("a"));
    assert_eq!(stem("\\\\?\\UNC/s\\x\\a.exe").as_deref(), Some("a"));
    // A slash separates nothing in a verbatim path.
    assert_eq!(stem("\\\\?\\C:\\d/a.exe").as_deref(), Some("d/a"));
    // Behind a verbatim drive it is the root all the same.
    assert_eq!(stem("\\\\?\\C:/foo.exe").as_deref(), Some("foo"));
    assert_eq!(stem("\\\\?\\C:/d/a.exe").as_deref(), Some("d/a"));
    assert_eq!(stem("\\\\?\\C:/"), None);
    // Without a share there is no such prefix.
    assert_eq!(stem("\\\\server").as_deref(), Some("server"));
}
