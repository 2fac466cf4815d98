use todo_tracker::levenshtein::edit_distance;
use todo_tracker::numerals::{push_decimal, read_i64, read_u32, read_usize};
use todo_tracker::split::{char_is_whitespace, join_lines, split_fields, split_lines, split_words, trim};
use todo_tracker::text::{
    chars_of, contains_char, is_word, is_word_ignoring_case, push_all, same_text, starts_with,
    string_of, to_lowercase,
};

fn chars(s: &str) -> Vec<char> {
    s.chars().collect()
}

fn strings(parts: Vec<Vec<char>>) -> Vec<String> {
    parts.iter().map(|p| p.iter().collect()).collect()
}

#[test]
fn text_to_characters_and_back() {
    assert_eq!(chars_of("a\u{e4}\u{20ac}\u{1f600}"), vec!['a', '\u{e4}', '\u{20ac}', '\u{1f600}']);
    assert_eq!(chars_of(""), Vec::<char>::new());
    assert_eq!(string_of(&vec!['o', 'k', '\u{1f600}']), "ok\u{1f600}");
    assert_eq!(string_of(&Vec::new()), "");
    let mut out = chars("ab");
    push_all(&mut out, &chars("cd"));
    assert_eq!(out, chars("abcd"));
}

#[test]
fn comparing_texts() {
    assert!(same_text(&chars("abc"), &chars("abc")));
    assert!(!same_text(&chars("abc"), &chars("abd")));
    assert!(!same_text(&chars("abc"), &chars("ab")));
    assert!(same_text(&chars(""), &chars("")));
    assert!(starts_with(&chars("in 3"), &chars("in ")));
    assert!(starts_with(&chars("in "), &chars("in ")));
    assert!(starts_with(&chars("x"), &chars("")));
    assert!(!starts_with(&chars("in"), &chars("in ")));
    assert!(!starts_with(&chars("on 3"), &chars("in ")));
    assert!(contains_char(&chars("12:30"), ':'));
    assert!(!contains_char(&chars("1230"), ':'));
    assert!(is_word(&chars("week"), "week"));
    assert!(!is_word(&chars("Week"), "week"));
}

#[test]
fn lowercase_as_std_has_it() {
    assert_eq!(to_lowercase('A'), 'a');
    assert_eq!(to_lowercase('Z'), 'z');
    assert_eq!(to_lowercase('a'), 'a');
    assert_eq!(to_lowercase('\u{212a}'), 'k');
    assert_eq!(to_lowercase('@'), '@');
    assert_eq!(to_lowercase('['), '[');
    assert!(is_word_ignoring_case(&chars("ToDaY"), "today"));
    assert!(is_word_ignoring_case(&chars("NEXT WEEK"), "next week"));
    assert!(!is_word_ignoring_case(&chars("todays"), "today"));
    assert!(!is_word_ignoring_case(&chars("toda"), "today"));
    let mut code = 0u32;
    while code <= 0x10ffff {
        if let Some(c) = char::from_u32(code) {
            let lower: String = c.to_lowercase().collect();
            let plain = lower.len() == 1 && (lower.as_bytes()[0].is_ascii_lowercase() || lower == " ");
            if plain {
                assert_eq!(to_lowercase(c).to_string(), lower);
            } else {
                let kept = to_lowercase(c);
                assert!(!(kept.is_ascii_lowercase() || kept == ' '));
            }
        }
        code += 1;
    }
}

#[test]
fn whitespace_as_std_has_it() {
    let mut code = 0u32;
    while code <= 0x10ffff {
        if let Some(c) = char::from_u32(code) {
            assert_eq!(char_is_whitespace(c), c.is_whitespace());
        }
        code += 1;
    }
}

#[test]
fn words_as_std_splits_them() {
    for text in [
        "", " ", "a", " a", "a ", "in 2 days", "  in\t2\u{a0}days\n", "a\u{3000}b", "\u{2003}",
        "one  two   three", "x\u{200b}y", "tab\tend\t",
    ] {
        let expected: Vec<String> = text.split_whitespace().map(|w| w.to_string()).collect();
        assert_eq!(strings(split_words(&chars(text))), expected);
    }
    assert_eq!(strings(split_words(&chars(" in  2 days "))), vec!["in", "2", "days"]);
}

#[test]
fn trimming_as_std_does() {
    for text in ["", " ", "a", " a ", "\t a b \n", "\u{a0}x\u{3000}", "a  ", "  a", " \u{200b} "] {
        assert_eq!(string_of(&trim(&chars(text))), text.trim());
    }
}

#[test]
fn fields_as_std_splits_them() {
    for text in ["", "a", "a\tb", "\t", "a\t", "\ta", "a\t\tb", "a b\tc"] {
        let expected: Vec<String> = text.split('\t').map(|w| w.to_string()).collect();
        assert_eq!(strings(split_fields(&chars(text), '\t')), expected);
    }
    assert_eq!(strings(split_fields(&chars("a,b"), ',')), vec!["a", "b"]);
}

#[test]
fn lines_split_and_joined() {
    assert_eq!(strings(split_lines(&chars("a\nb\r\nc"))), vec!["a", "b", "c"]);
    assert_eq!(string_of(&join_lines(&vec![chars("a"), chars(""), chars("b")])), "a\n\nb\n");
    assert_eq!(string_of(&join_lines(&Vec::new())), "");
}

#[test]
fn numbers_read_as_std_reads_them() {
    for text in [
        "", "0", "7", "007", "+7", "-7", "+", "-", "++1", "+-1", "1+", " 1", "1 ", "1_000", "0x10",
        "4294967295", "4294967296", "18446744073709551615", "18446744073709551616",
        "9223372036854775807", "9223372036854775808", "-9223372036854775808",
        "-9223372036854775809", "-0", "+0", "00000000000000000000000000000042",
        "99999999999999999999999999999999", "\u{661}", "1\u{662}", "12a",
    ] {
        assert_eq!(read_u32(&chars(text)), text.parse::<u32>().ok());
        assert_eq!(read_usize(&chars(text)), text.parse::<usize>().ok());
        assert_eq!(read_i64(&chars(text)), text.parse::<i64>().ok());
    }
    assert_eq!(read_u32(&chars("1240")), Some(1240));
    assert_eq!(read_i64(&chars("-30")), Some(-30));
    assert_eq!(read_usize(&chars("12")), Some(12));
}

#[test]
fn numbers_written() {
    let mut out: Vec<char> = Vec::new();
    push_decimal(&mut out, 0);
    out.push('|');
    push_decimal(&mut out, 1203);
    out.push('|');
    push_decimal(&mut out, usize::MAX);
    assert_eq!(string_of(&out), format!("0|1203|{}", usize::MAX));
}

#[test]
fn edit_distances() {
    assert_eq!(edit_distance("kitten", "sitting"), 3);
    assert_eq!(edit_distance("", ""), 0);
    assert_eq!(edit_distance("", "abc"), 3);
    assert_eq!(edit_distance("abc", ""), 3);
    assert_eq!(edit_distance("abc", "abc"), 0);
    assert_eq!(edit_distance("flaw", "lawn"), 2);
    assert_eq!(edit_distance("\u{e4}b", "ab"), 1);
    assert_eq!(edit_distance("keep", "discard"), 7);
    assert_eq!(edit_distance("delete", "keep"), 4);
    assert_eq!(edit_distance("delete", "discard"), 6);
}

#[test]
fn edit_distances_as_the_edit_distance_crate_has_them() {
    let words = ["", "a", "keep", "discard", "kep", "dicsard", "in_file", "delete", "\u{fc}ber", "uber", "abcdefgh", "hgfedcba"];
    for a in words {
        for b in words {
            assert_eq!(edit_distance(a, b), edit_distance::edit_distance(a, b));
        }
    }
}
