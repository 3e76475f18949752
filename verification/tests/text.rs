use coordtest::text::{
    char_is_whitespace, chars_of, join_lines, parse_u64, replace, same_text, split,
    split_whitespace, str_is, string_of, trim,
};

fn chars(s: &str) -> Vec<char> {
    s.chars().collect()
}

fn strings(parts: Vec<Vec<char>>) -> Vec<String> {
    parts.into_iter().map(|p| p.into_iter().collect()).collect()
}

#[test]
fn chars_and_strings_convert_both_ways() {
    for s in ["", "a", "héllo wörld", "<TEMP>", "a\nb\r\n", "日本語"] {
        assert_eq!(chars_of(s), chars(s));
        assert_eq!(string_of(&chars(s)), s);
    }
}

#[test]
fn text_equality() {
    assert!(str_is("", ""));
    assert!(str_is("sql", "sql"));
    assert!(!str_is("sql", "sq"));
    assert!(!str_is("sq", "sql"));
    assert!(!str_is("sql", "sqL"));
    assert!(same_text(&chars("wait-sql"), &chars("wait-sql")));
    assert!(!same_text(&chars("wait-sql"), &chars("wait_sql")));
}

#[test]
fn whitespace_is_what_std_takes_for_it() {
    for code in 0..=0x10FFFFu32 {
        if let Some(c) = char::from_u32(code) {
            assert_eq!(char_is_whitespace(c), c.is_whitespace(), "U+{:04X}", code);
        }
    }
}

#[test]
fn split_cuts_at_each_separator() {
    let cases = ["", "a", "a.b.c", ".", "a.", ".a", "a..b", "...", "db.public.t"];
    for s in cases {
        let expected: Vec<String> = s.split('.').map(|p| p.to_string()).collect();
        assert_eq!(strings(split(&chars(s), '.')), expected, "{:?}", s);
    }
    assert_eq!(strings(split(&chars("a\nb\n"), '\n')), vec!["a", "b", ""]);
}

#[test]
fn split_whitespace_gives_the_words() {
    let cases = [
        "",
        " ",
        "a",
        " a ",
        "a b",
        "db.public.t 5",
        "  db.public.t\t\t5  \r",
        "a\u{00A0}b\u{3000}c",
        "x \n y",
    ];
    for s in cases {
        let expected: Vec<String> = s.split_whitespace().map(|p| p.to_string()).collect();
        assert_eq!(strings(split_whitespace(&chars(s))), expected, "{:?}", s);
    }
}

#[test]
fn trim_removes_white_space_at_both_ends() {
    let cases = ["", " ", "a", " a", "a ", "  a b  ", "\n\t 42 \r\n", "\u{2003}x\u{2003}", " \n "];
    for s in cases {
        assert_eq!(string_of(&trim(&chars(s))), s.trim(), "{:?}", s);
    }
}

#[test]
fn parse_u64_reads_decimal_numbers() {
    assert_eq!(parse_u64(&chars("0")), Some(0));
    assert_eq!(parse_u64(&chars("5")), Some(5));
    assert_eq!(parse_u64(&chars("007")), Some(7));
    assert_eq!(parse_u64(&chars("+12")), Some(12));
    assert_eq!(parse_u64(&chars("1234567890")), Some(1234567890));
    assert_eq!(parse_u64(&chars("18446744073709551615")), Some(u64::MAX));
    assert_eq!(parse_u64(&chars("000018446744073709551615")), Some(u64::MAX));
}

#[test]
fn parse_u64_refuses_what_is_no_number() {
    let cases = [
        "",
        "+",
        "-",
        "-1",
        "++1",
        "1+",
        " 1",
        "1 ",
        "1a",
        "a1",
        "1.0",
        "1e3",
        "0x10",
        "١٢",
        "18446744073709551616",
        "18446744073709551620",
        "99999999999999999999",
        "184467440737095516150",
        "99999999999999999999x",
    ];
    for s in cases {
        assert_eq!(parse_u64(&chars(s)), None, "{:?}", s);
        assert!(s.parse::<u64>().is_err(), "{:?}", s);
    }
}

#[test]
fn parse_u64_agrees_with_std() {
    let cases = ["0", "1", "+0", "10", "4294967296", "18446744073709551614", "+18446744073709551615"];
    for s in cases {
        assert_eq!(parse_u64(&chars(s)), s.parse::<u64>().ok(), "{:?}", s);
    }
}

#[test]
fn replace_substitutes_from_the_left_without_overlap() {
    let cases = [
        ("", "<TEMP>", "/tmp"),
        ("<TEMP>", "<TEMP>", "/tmp"),
        ("a<TEMP>b<TEMP>", "<TEMP>", "/tmp"),
        ("<TEMP", "<TEMP>", "/tmp"),
        ("<<TEMP>>", "<TEMP>", ""),
        ("aaa", "aa", "b"),
        ("aaaa", "aa", "b"),
        ("abab", "ab", "abab"),
        ("xyz", "xyzw", "q"),
        ("héllo", "l", "ll"),
    ];
    for (s, from, to) in cases {
        assert_eq!(
            string_of(&replace(&chars(s), &chars(from), &chars(to))),
            s.replace(from, to),
            "{:?}",
            (s, from, to)
        );
    }
    assert_eq!(string_of(&replace(&chars("aaa"), &chars("aa"), &chars("b"))), "ba");
}

#[test]
fn join_lines_closes_each_line() {
    assert_eq!(join_lines(&vec![]), "");
    assert_eq!(join_lines(&vec!["a".to_string()]), "a\n");
    assert_eq!(join_lines(&vec!["a".to_string(), "".to_string(), "b\nc".to_string()]), "a\n\nb\nc\n");
    let lines = vec!["x".to_string(), "y".to_string()];
    let mut with_empty = lines.clone();
    with_empty.push("".to_string());
    assert_eq!(join_lines(&lines), with_empty.join("\n"));
}

/// A small generator of texts over an alphabet that is rich in separators.
struct Texts(u64);

impl Texts {
    fn next(&mut self) -> u64 {
        self.0 = self.0.wrapping_mul(6364136223846793005).wrapping_add(1442695040888963407);
        self.0 >> 33
    }

    fn text(&mut self, alphabet: &[char], max: u64) -> String {
        let len = self.next() % (max + 1);
        (0..len).map(|_| alphabet[(self.next() % alphabet.len() as u64) as usize]).collect()
    }
}

#[test]
fn text_operations_agree_with_std_on_many_texts() {
    let alphabet = ['a', 'b', '.', ' ', '\t', '\n', '\r', '<', 'T', '>', '5', '+', '\u{3000}', 'é'];
    let mut texts = Texts(7);
    for _ in 0..2000 {
        let s = texts.text(&alphabet, 12);
        let from = texts.text(&['a', 'b', '.', ' '], 2);
        let to = texts.text(&alphabet, 3);
        let expected: Vec<String> = s.split('.').map(|p| p.to_string()).collect();
        assert_eq!(strings(split(&chars(&s), '.')), expected, "{:?}", s);
        let expected: Vec<String> = s.split_whitespace().map(|p| p.to_string()).collect();
        assert_eq!(strings(split_whitespace(&chars(&s))), expected, "{:?}", s);
        assert_eq!(string_of(&trim(&chars(&s))), s.trim(), "{:?}", s);
        if !from.is_empty() {
            assert_eq!(
                string_of(&replace(&chars(&s), &chars(&from), &chars(&to))),
                s.replace(&from, &to),
                "{:?}",
                (&s, &from, &to)
            );
        }
    }
}

#[test]
fn parse_u64_agrees_with_std_on_many_texts() {
    let alphabet = ['0', '1', '9', '8', '4', '+', '-', ' ', 'x'];
    let mut texts = Texts(11);
    for _ in 0..5000 {
        let s = texts.text(&alphabet, 22);
        assert_eq!(parse_u64(&chars(&s)), s.parse::<u64>().ok(), "{:?}", s);
    }
    let digits = ['0', '1', '9', '8', '4', '7', '5'];
    for _ in 0..5000 {
        let s = texts.text(&digits, 21);
        assert_eq!(parse_u64(&chars(&s)), s.parse::<u64>().ok(), "{:?}", s);
    }
}

#[test]
fn lines_and_words_agree_with_std_on_many_texts() {
    let alphabet = ['a', '5', ' ', '\n', '\r', '\t'];
    let mut texts = Texts(13);
    for _ in 0..2000 {
        let s = texts.text(&alphabet, 14);
        let mut lines = split(&chars(&s), '\n');
        if lines.last().map_or(false, |last| last.is_empty()) {
            lines.pop();
        }
        let words: Vec<Vec<String>> =
            lines.iter().map(|line| strings(split_whitespace(line))).collect();
        let expected: Vec<Vec<String>> = s
            .lines()
            .map(|line| line.split_whitespace().map(|w| w.to_string()).collect())
            .collect();
        assert_eq!(words, expected, "{:?}", s);
    }
}
