use elmo_sqlite3::entries::{is_whitespace, tokenize};
use elmo_sqlite3::text::{begins_with, chars_of, find_char, split_at_each, split_name, string_of};

#[test]
fn split_at_each_keeps_empty_pieces() {
    assert_eq!(split_at_each("a.b.c", '.'), vec!["a", "b", "c"]);
    assert_eq!(split_at_each("abc", '.'), vec!["abc"]);
    assert_eq!(split_at_each("", '.'), vec![""]);
    assert_eq!(split_at_each(".", '.'), vec!["", ""]);
    assert_eq!(split_at_each("a..b.", '.'), vec!["a", "", "b", ""]);
    assert_eq!(split_at_each("å.ß", '.'), vec!["å", "ß"]);
}

#[test]
fn split_at_each_agrees_with_std() {
    for s in ["", "a", ".", "a.b", "..", "a.b.c.d", ".x.", "tags.0", "日本.語"] {
        let want: Vec<String> = s.split('.').map(String::from).collect();
        assert_eq!(split_at_each(s, '.'), want);
    }
}

#[test]
fn split_name_cuts_at_the_first_dot() {
    assert_eq!(split_name("app.users"), Some((String::from("app"), String::from("users"))));
    assert_eq!(
        split_name("a.system.users"),
        Some((String::from("a"), String::from("system.users")))
    );
    assert_eq!(split_name("a."), Some((String::from("a"), String::from(""))));
    assert_eq!(split_name(".b"), Some((String::from(""), String::from("b"))));
    assert_eq!(split_name("nodot"), None);
    assert_eq!(split_name(""), None);
}

#[test]
fn begins_with_agrees_with_std() {
    for s in ["", "s", "system", "system.", "system.users", "xsystem.", "System.x"] {
        for p in ["", "system.", "s", "x"] {
            assert_eq!(begins_with(s, p), s.starts_with(p));
        }
    }
}

#[test]
fn chars_and_strings() {
    let cs = chars_of("héllo");
    assert_eq!(cs, vec!['h', 'é', 'l', 'l', 'o']);
    assert_eq!(string_of(&cs, 1, 4), "éll");
    assert_eq!(string_of(&cs, 2, 2), "");
    assert_eq!(find_char(&cs, 0, 'l'), 2);
    assert_eq!(find_char(&cs, 3, 'l'), 3);
    assert_eq!(find_char(&cs, 4, 'l'), 5);
    assert_eq!(find_char(&cs, 5, 'l'), 5);
}

#[test]
fn is_whitespace_agrees_with_std_on_every_character() {
    for n in 0..=0x10ffffu32 {
        if let Some(c) = char::from_u32(n) {
            assert_eq!(is_whitespace(c), c.is_whitespace());
        }
    }
}

#[test]
fn tokenize_cuts_at_white_space() {
    assert_eq!(tokenize("the quick  brown\tfox\n"), vec!["the", "quick", "brown", "fox"]);
    assert_eq!(tokenize("one"), vec!["one"]);
    assert_eq!(tokenize("a a b a"), vec!["a", "a", "b", "a"]);
    assert!(tokenize("").is_empty());
    assert!(tokenize(" \t\r\n ").is_empty());
    assert_eq!(tokenize("  lead"), vec!["lead"]);
    assert_eq!(tokenize("trail  "), vec!["trail"]);
    assert_eq!(tokenize("no\u{a0}break\u{3000}here"), vec!["no", "break", "here"]);
}

#[test]
fn tokenize_agrees_with_std() {
    for s in ["", " ", "a", " a", "a ", "a b", "a  b", "\ta\nb\r\nc d ", "é ü", "x\u{2003}y"] {
        let want: Vec<String> = s.split_whitespace().map(String::from).collect();
        assert_eq!(tokenize(s), want);
    }
}
