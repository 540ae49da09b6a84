use hooks::number::{push_decimal, push_signed_decimal};
use hooks::select::{copy_lines, find_first, find_last, has_line, join_if_any, keep_marked};
use hooks::text::{
    chars_of, contains, is_whitespace, join_lines, lines, same_text, starts_with, string_of,
    to_ascii_lowercase, trim, trim_end,
};

const SAMPLES: [&str; 16] = [
    "",
    "\n",
    "\r\n",
    "a",
    "a\n",
    "a\r\nb",
    "a\r",
    "a\r\n\r\nb\r",
    "a\r\r\n",
    "\n\nx\n\n",
    "  padded \t",
    "\u{a0}caf\u{e9}\u{3000}",
    " \u{200b} ",
    "MiXeD \u{c9}\u{130} Case",
    "one\ntwo\nthree",
    "   ",
];

fn owned(words: &[&str]) -> Vec<String> {
    words.iter().map(|word| word.to_string()).collect()
}

#[test]
fn white_space_is_that_of_unicode() {
    for code in 0..=0x10ffffu32 {
        if let Some(ch) = char::from_u32(code) {
            assert_eq!(is_whitespace(ch), ch.is_whitespace(), "{:x}", code);
        }
    }
}

#[test]
fn text_functions_agree_with_the_standard_library() {
    for text in SAMPLES {
        let std_lines: Vec<String> = text.lines().map(|line| line.to_string()).collect();
        assert_eq!(lines(text), std_lines);
        assert_eq!(trim(text), text.trim());
        assert_eq!(trim_end(text), text.trim_end());
        assert_eq!(to_ascii_lowercase(text), text.to_ascii_lowercase());
        assert_eq!(chars_of(text), text.chars().collect::<Vec<char>>());
        for other in SAMPLES {
            assert_eq!(starts_with(text, other), text.starts_with(other));
            assert_eq!(contains(text, other), text.contains(other));
            assert_eq!(same_text(text, other), text == other);
        }
    }
    assert!(contains("aab", "ab"));
    assert!(contains("x", "x"));
    assert!(!contains("x", "xy"));
}

#[test]
fn lines_end_with_line_feeds() {
    assert_eq!(lines("a\r\nb\nc\r"), owned(&["a", "b", "c\r"]));
    assert_eq!(lines("a\n\n"), owned(&["a", ""]));
}

#[test]
fn joined_lines_come_back() {
    let parts = owned(&["first", "", "third"]);
    assert_eq!(join_lines(&parts), "first\n\nthird");
    assert_eq!(lines(&join_lines(&parts)), parts);
    assert_eq!(join_lines(&Vec::new()), "");
    assert_eq!(join_if_any(&Vec::new()), None);
    assert_eq!(join_if_any(&owned(&[""])), Some(String::new()));
}

#[test]
fn trimming_ignores_capitals_and_repetition() {
    for text in SAMPLES {
        assert_eq!(trim(&trim(text)), trim(text));
        assert_eq!(trim(&to_ascii_lowercase(text)), to_ascii_lowercase(&trim(text)));
        assert_eq!(to_ascii_lowercase(&to_ascii_lowercase(text)), to_ascii_lowercase(text));
    }
}

#[test]
fn strings_are_cut_by_characters() {
    let chars = chars_of("h\u{e9}llo");
    assert_eq!(string_of(&chars, 1, 4), "\u{e9}ll");
    assert_eq!(string_of(&chars, 2, 2), "");
}

#[test]
fn numbers_are_written_in_decimal() {
    for n in [0u64, 7, 10, 99, 100, 1234567890, u64::MAX] {
        let mut text = String::from("n=");
        push_decimal(&mut text, n);
        assert_eq!(text, format!("n={}", n));
    }
    for n in [0i32, 5, -5, 10, -10, i32::MIN, i32::MAX] {
        let mut text = String::new();
        push_signed_decimal(&mut text, n);
        assert_eq!(text, format!("{}", n));
    }
}

#[test]
fn marks_pick_lines_in_order() {
    let all = owned(&["a", "b", "c", "d"]);
    assert_eq!(keep_marked(&all, &vec![true, false, false, true]), owned(&["a", "d"]));
    assert_eq!(keep_marked(&all, &vec![false; 4]), Vec::<String>::new());
    assert_eq!(find_first(&vec![false, true, true]), Some(1));
    assert_eq!(find_first(&vec![false]), None);
    assert_eq!(find_last(&vec![true, true, false]), Some(1));
    assert_eq!(find_last(&Vec::new()), None);
    assert_eq!(copy_lines(&all, 1, 3), owned(&["b", "c"]));
    assert!(has_line(&all, &"c".to_string()));
    assert!(!has_line(&all, &"e".to_string()));
}
