use sanskriti::text::{chars_of, occurs_at, string_of};
use sanskriti::translator::{substitute, translate_file_contents};

fn sub(text: &str, from: &str, to: &str) -> String {
    let out = substitute(&chars_of(text), &chars_of(from), &chars_of(to));
    string_of(&out, 0, out.len())
}

#[test]
fn chars_and_back() {
    let chars = chars_of("aé\u{915}z");
    assert_eq!(chars, vec!['a', 'é', '\u{915}', 'z']);
    assert_eq!(string_of(&chars, 0, 4), "aé\u{915}z");
    assert_eq!(string_of(&chars, 1, 3), "é\u{915}");
    assert_eq!(string_of(&chars, 2, 2), "");
    assert_eq!(chars_of(""), Vec::<char>::new());
}

#[test]
fn occurs_at_finds_a_word() {
    let text = chars_of("hello world");
    assert!(occurs_at(&text, 6, &chars_of("world")));
    assert!(occurs_at(&text, 0, &chars_of("hell")));
    assert!(!occurs_at(&text, 1, &chars_of("hell")));
    assert!(occurs_at(&text, 11, &chars_of("")));
    assert!(!occurs_at(&text, 8, &chars_of("rldx")));
    assert!(!occurs_at(&text, 12, &chars_of("")));
    assert!(!occurs_at(&text, usize::MAX, &chars_of("h")));
}

#[test]
fn substitute_replaces_every_occurrence() {
    assert_eq!(sub("a-b-c", "-", "+"), "a+b+c");
    assert_eq!(sub("abab", "ab", "x"), "xx");
    assert_eq!(sub("abc", "abc", ""), "");
    assert_eq!(sub("", "a", "b"), "");
    assert_eq!(sub("abc", "abcd", "x"), "abc");
}

#[test]
fn substitute_goes_left_to_right_without_overlap() {
    assert_eq!(sub("aaa", "aa", "b"), "ba");
    assert_eq!(sub("aaaa", "aa", "b"), "bb");
    assert_eq!(sub("ababa", "aba", "x"), "xba");
}

#[test]
fn substitute_does_not_search_what_it_wrote() {
    assert_eq!(sub("ab", "a", "aa"), "aab");
    assert_eq!(sub("xx", "x", "xy"), "xyxy");
}

#[test]
fn substitute_with_an_empty_word_changes_nothing() {
    assert_eq!(sub("abc", "", "x"), "abc");
    assert_eq!(sub("", "", "x"), "");
}

#[test]
fn translates_each_keyword() {
    let pairs = [
        ("श्रेणी", "class"),
        ("अथ्वा", "else"),
        ("असत्य", "false"),
        ("पुरा", "for"),
        ("विनियोग", "fun"),
        ("यदि", "if"),
        ("नेति", "nil"),
        ("विकल्प", "or"),
        ("कथय", "print"),
        ("देयम", "return"),
        ("महा", "super"),
        ("यह", "this"),
        ("सत्य", "true"),
        ("चर", "var"),
        ("यावद", "while"),
    ];
    for (from, to) in pairs {
        assert_eq!(translate_file_contents(from), to);
        assert_eq!(translate_file_contents(&format!("({from});")), format!("({to});"));
    }
}

#[test]
fn translates_a_program() {
    let source = "चर x = 1;\nयावद (x < 4) { कथय x; x = x + 1; }\n";
    assert_eq!(
        translate_file_contents(source),
        "var x = 1;\nwhile (x < 4) { print x; x = x + 1; }\n"
    );
}

#[test]
fn false_is_not_read_as_true() {
    assert_eq!(translate_file_contents("असत्य"), "false");
    assert_eq!(translate_file_contents("कथय असत्य == सत्य;"), "print false == true;");
}

#[test]
fn text_without_keywords_is_unchanged() {
    let source = "var x = \"hello\"; print x; // a remark\n";
    assert_eq!(translate_file_contents(source), source);
    assert_eq!(translate_file_contents(""), "");
}

#[test]
fn keywords_inside_strings_are_replaced_too() {
    assert_eq!(translate_file_contents("कथय \"सत्य\";"), "print \"true\";");
}
