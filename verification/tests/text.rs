use media_bridge::catalog::lowercase;
use media_bridge::number::{parse_u64, write_decimal};
use media_bridge::paths::sanitize_filename;
use media_bridge::order::{sort_by_keys, text_before, SortKey};
use media_bridge::scan::{join_from, replace, split_lines, strip_leading, strip_trailing, tokens, trimmed};
use media_bridge::text::{chars_of, ends_with, find_in, has_substring, starts_with, string_of};

fn chars(s: &str) -> Vec<char> {
    s.chars().collect()
}

fn text(v: &Vec<char>) -> String {
    v.iter().collect()
}

const SAMPLES: [&str; 14] = [
    "", " ", "a", " a b ", "\ta\u{a0}b\u{3000}c\r\n", "one\ntwo\r\nthree", "\n\n", "a\r", "a\r\r\nb",
    "x\n", "\r\n", "  multiple   spaces  here ", "tab\tseparated\tvalues", "é \u{2003}ü",
];

#[test]
fn conversions() {
    for s in SAMPLES {
        assert_eq!(chars_of(s), chars(s));
        assert_eq!(string_of(&chars(s)), s);
    }
}

#[test]
fn lines_agree_with_std() {
    for s in SAMPLES {
        let ours: Vec<String> = split_lines(&chars(s)).iter().map(text).collect();
        let std: Vec<String> = s.lines().map(|l| l.to_string()).collect();
        assert_eq!(ours, std);
    }
}

#[test]
fn tokens_and_trimming_agree_with_std() {
    for s in SAMPLES {
        let ours: Vec<String> = tokens(&chars(s)).iter().map(text).collect();
        let std: Vec<String> = s.split_whitespace().map(|l| l.to_string()).collect();
        assert_eq!(ours, std);
        assert_eq!(text(&trimmed(&chars(s))), s.trim());
    }
}

#[test]
fn searching_agrees_with_std() {
    let needles = ["", "a", "ab", " ", "\n", "spaces", "aa"];
    for s in SAMPLES.iter().chain(["aaa", "abab", "xaab"].iter()) {
        for n in needles {
            let found = find_in(&chars(s), &chars(n));
            let expected = s.find(n).map(|byte| s[..byte].chars().count());
            assert_eq!(found, expected);
            assert_eq!(has_substring(&chars(s), &chars(n)), s.contains(n));
            assert_eq!(starts_with(&chars(s), &chars(n)), s.starts_with(n));
            assert_eq!(ends_with(&chars(s), &chars(n)), s.ends_with(n));
            if !n.is_empty() {
                assert_eq!(text(&replace(&chars(s), &chars(n), &chars("<>"))), s.replace(n, "<>"));
            }
        }
    }
}

#[test]
fn stripping_runs() {
    assert_eq!(text(&strip_leading(&chars("///a/b/"), '/')), "a/b/");
    assert_eq!(text(&strip_trailing(&chars("a,b,,,"), ',')), "a,b");
    assert_eq!(text(&strip_leading(&chars("//"), '/')), "");
    assert_eq!(text(&strip_trailing(&chars(""), ',')), "");
}

#[test]
fn joining() {
    let parts = vec![chars("a"), chars("b"), chars("c d"), chars("e")];
    assert_eq!(text(&join_from(&parts, 0)), "a b c d e");
    assert_eq!(text(&join_from(&parts, 2)), "c d e");
    assert_eq!(text(&join_from(&parts, 3)), "e");
    assert_eq!(text(&join_from(&parts, 4)), "");
}

#[test]
fn numbers_agree_with_std() {
    for s in ["0", "12", "+12", "-12", "", "+", "0012", "18446744073709551615", "18446744073709551616", "99999999999999999999999", "1 ", "1_0", "١٢"] {
        assert_eq!(parse_u64(&chars(s)), s.parse::<u64>().ok());
    }
    for n in [0u128, 9, 10, 99, 100, 12345678901234567890, u128::MAX] {
        assert_eq!(text(&write_decimal(n)), n.to_string());
    }
}

#[test]
fn text_order_agrees_with_std() {
    let words = ["", "a", "A", "ab", "b", "Z", "z", "é", "\u{10000}", "\u{ffff}", "a b"];
    for a in words {
        for b in words {
            assert_eq!(text_before(&chars(a), &chars(b)), a < b);
        }
    }
}

fn key(rank: u8, word: &str) -> SortKey {
    SortKey { rank, text: chars(word) }
}

#[test]
fn sorting_is_stable() {
    let items = vec![0, 1, 2, 3, 4, 5];
    let keys = || vec![key(1, "b"), key(0, "z"), key(1, "a"), key(1, "b"), key(0, "z"), key(1, "")];
    assert_eq!(sort_by_keys(items.clone(), keys(), false), vec![1, 4, 5, 2, 0, 3]);
    assert_eq!(sort_by_keys(items, keys(), true), vec![0, 3, 2, 5, 1, 4]);
    assert_eq!(sort_by_keys(Vec::<u8>::new(), Vec::new(), true), Vec::<u8>::new());
}

fn every_char() -> Vec<char> {
    (0..=0x10FFFFu32).filter_map(char::from_u32).collect()
}

#[test]
fn white_space_is_twenty_five_characters() {
    let listed = |c: char| {
        matches!(
            c,
            '\u{9}'..='\u{D}'
                | ' '
                | '\u{85}'
                | '\u{A0}'
                | '\u{1680}'
                | '\u{2000}'..='\u{200A}'
                | '\u{2028}'
                | '\u{2029}'
                | '\u{202F}'
                | '\u{205F}'
                | '\u{3000}'
        )
    };
    let mut count = 0;
    for c in every_char() {
        let blank = tokens(&vec![c]).is_empty();
        assert_eq!(blank, listed(c));
        assert_eq!(trimmed(&vec![c]).is_empty(), listed(c));
        if blank {
            count += 1;
        }
    }
    assert_eq!(count, 25);
}

#[test]
fn ascii_letters_and_digits_are_the_ascii_alphanumerics() {
    for n in 0..128u8 {
        let c = n as char;
        let kept = sanitize_filename(&c.to_string()) == c.to_string();
        let expected = c.is_ascii_alphabetic() || c.is_ascii_digit() || c == '.' || c == '-' || c == '_';
        assert_eq!(kept, expected);
    }
    assert_eq!(sanitize_filename("a/b c\\d:e"), "a_b_c_d_e");
}

#[test]
fn ascii_text_lowers_letter_by_letter() {
    let all: Vec<char> = (0..128u8).map(|n| n as char).collect();
    let expected: Vec<char> = all.iter().map(|c| c.to_ascii_lowercase()).collect();
    assert_eq!(lowercase(&all), expected);
    for c in &all {
        assert_eq!(lowercase(&vec![*c]), vec![c.to_ascii_lowercase()]);
    }
    assert_eq!(text(&lowercase(&chars("IMG_0001.JPG"))), "img_0001.jpg");
    assert_eq!(text(&lowercase(&chars("\u{212A}"))), "k");
    assert_eq!(text(&lowercase(&chars("ΟΔΟΣ"))), "οδος");
}
