use tablefmt::chars::{
    clean_chars, find, is_whitespace, join, lines, split, to_chars, to_text, trim, trim_end,
    trim_start,
};
use tablefmt::frame::{fit, truncate_chars, wrap_chars};
use tablefmt::number::{format_number, normalize, parse_usize};
use tablefmt::width::{
    align_center, align_left, align_right, char_columns, display_width, width_of,
};

fn chars(s: &str) -> Vec<char> {
    s.chars().collect()
}

fn string(v: &Vec<char>) -> String {
    v.iter().collect()
}

fn strings(v: &Vec<Vec<char>>) -> Vec<String> {
    v.iter().map(string).collect()
}

#[test]
fn conversions_keep_the_characters() {
    for s in ["", "abc", "日本語", "a\nb\u{301}"] {
        assert_eq!(to_chars(s), chars(s));
        assert_eq!(to_text(&chars(s)), s);
    }
}

#[test]
fn whitespace_is_what_std_calls_whitespace() {
    for code in 0..=0x10FFFFu32 {
        if let Some(c) = char::from_u32(code) {
            assert_eq!(is_whitespace(c), c.is_whitespace(), "U+{:04X}", code);
        }
    }
}

#[test]
fn trimming_matches_std() {
    for s in ["", " ", "  a b  ", "\t\na\r\n", "\u{a0}x\u{3000}", "abc", " \u{200b} "] {
        assert_eq!(string(&trim(&chars(s))), s.trim());
        assert_eq!(string(&trim_start(&chars(s))), s.trim_start());
        assert_eq!(string(&trim_end(&chars(s))), s.trim_end());
    }
}

#[test]
fn re_trimming_is_a_no_op() {
    for s in ["", "  a b  ", "\t\na\r\n", "abc"] {
        let once = trim(&chars(s));
        assert_eq!(trim(&once), once);
    }
}

#[test]
fn lines_match_std() {
    for s in [
        "",
        "a",
        "a\n",
        "a\nb",
        "a\r\nb\r\n",
        "\n",
        "\n\n",
        "a\r",
        "a\rb\n\rc",
        "a\n\nb\n",
        "\r\n",
    ] {
        let expected: Vec<String> = s.lines().map(|l| l.to_string()).collect();
        assert_eq!(strings(&lines(&chars(s))), expected, "{:?}", s);
    }
}

#[test]
fn split_matches_std() {
    for (s, sep) in [
        ("a,b,c", ","),
        ("a,,b,", ","),
        (",", ","),
        ("", ","),
        ("abc", ""),
        ("", ""),
        ("aaaa", "aa"),
        ("a--b-c---d", "--"),
        ("ab", "abc"),
        ("日本語", "本"),
    ] {
        let expected: Vec<String> = s.split(sep).map(|f| f.to_string()).collect();
        assert_eq!(strings(&split(&chars(s), &chars(sep))), expected, "{:?} {:?}", s, sep);
    }
}

#[test]
fn find_gives_the_first_match_or_the_length() {
    assert_eq!(find(&chars("abcabc"), &chars("bc"), 0), 1);
    assert_eq!(find(&chars("abcabc"), &chars("bc"), 2), 4);
    assert_eq!(find(&chars("abcabc"), &chars("bc"), 5), 6);
    assert_eq!(find(&chars("abc"), &chars("x"), 0), 3);
    assert_eq!(find(&chars("abc"), &chars("abcd"), 0), 3);
}

#[test]
fn join_puts_the_separator_between() {
    let parts = vec![chars("a"), chars(""), chars("bc")];
    assert_eq!(string(&join(&parts, &chars(", "))), "a, , bc");
    assert_eq!(string(&join(&vec![chars("a")], &chars(","))), "a");
    assert_eq!(string(&join(&Vec::new(), &chars(","))), "");
}

#[test]
fn clean_chars_matches_the_text_function() {
    assert_eq!(string(&clean_chars(&chars(" a \n\n b\n"))), "a\nb");
}

#[test]
fn display_width_counts_columns() {
    assert_eq!(display_width(""), 0);
    assert_eq!(display_width("abc"), 3);
    assert_eq!(display_width("日本語"), 6);
    assert_eq!(display_width("e\u{301}"), 1);
    assert_eq!(display_width("a\tb\n"), 2);
    assert_eq!(width_of(&chars("ｆｕｌｌ")), 8);
    assert_eq!(char_columns('a'), 1);
    assert_eq!(char_columns('語'), 2);
    assert_eq!(char_columns('\u{301}'), 0);
    assert_eq!(char_columns('\u{7}'), 0);
    assert_eq!(char_columns('\0'), 0);
}

#[test]
fn alignment_pads_by_columns() {
    assert_eq!(string(&align_left(&chars("ab"), 5)), "ab   ");
    assert_eq!(string(&align_right(&chars("ab"), 5)), "   ab");
    assert_eq!(string(&align_center(&chars("ab"), 5)), " ab  ");
    assert_eq!(string(&align_center(&chars("ab"), 6)), "  ab  ");
    assert_eq!(string(&align_left(&chars("日本"), 5)), "日本 ");
    assert_eq!(string(&align_right(&chars("abcdef"), 3)), "abcdef");
    assert_eq!(string(&align_center(&chars(""), 2)), "  ");
}

#[test]
fn fit_takes_characters_while_they_fit() {
    assert_eq!(fit(&chars("abcdef"), 3), 3);
    assert_eq!(fit(&chars("abc"), 5), 3);
    assert_eq!(fit(&chars("日本語"), 3), 1);
    assert_eq!(fit(&chars("a\u{301}b"), 1), 2);
    assert_eq!(fit(&chars("abc"), 0), 0);
}

#[test]
fn truncated_text_is_never_wider_than_asked() {
    for s in ["Hello World", "日本語のテキスト", "a b c d e f", "x", ""] {
        for width in 0..14 {
            for ellipsis in [false, true] {
                let cut = truncate_chars(&chars(s), width, ellipsis);
                assert!(width_of(&cut) <= width, "{:?} {} {}", s, width, ellipsis);
            }
        }
    }
}

#[test]
fn wrapped_lines_are_no_wider_than_asked() {
    let lines = wrap_chars(&chars("The quick brown fox jumps over the lazy dog"), 10);
    assert_eq!(
        strings(&lines),
        vec!["The quick", "brown fox", "jumps over", "the lazy", "dog"]
    );
    for line in &lines {
        assert!(width_of(line) <= 10);
    }
}

#[test]
fn normalize_strips_thousands_and_sets_the_point() {
    assert_eq!(string(&normalize(&chars("1,234,567.5"), ',', '.')), "1234567.5");
    assert_eq!(string(&normalize(&chars("1.234.567,5"), '.', ',')), "1234567.5");
    assert_eq!(string(&normalize(&chars("abc"), ',', '.')), "abc");
    assert_eq!(string(&normalize(&chars("1,2"), ',', ',')), "12");
}

#[test]
fn numbers_are_grouped_from_the_right() {
    let shown = |s: &str, group: bool| string(&format_number(&chars(s), group, ',', '.'));
    assert_eq!(shown("1234.50", true), "1,234.50");
    assert_eq!(shown("1234567", true), "1,234,567");
    assert_eq!(shown("123456", true), "123,456");
    assert_eq!(shown("123", true), "123");
    assert_eq!(shown("12", true), "12");
    assert_eq!(shown("-123456", true), "-123,456");
    assert_eq!(shown("-1234.5", true), "-1,234.5");
    assert_eq!(shown("0.25", true), "0.25");
    assert_eq!(shown("1234.5", false), "1234.5");
    assert_eq!(shown("inf", true), "inf");
    assert_eq!(shown("NaN", true), "NaN");
    assert_eq!(string(&format_number(&chars("1234.5"), true, '.', ',')), "1.234,5");
    assert_eq!(string(&format_number(&chars("1234.5"), false, '.', ',')), "1234,5");
}

#[test]
fn unsigned_numbers_are_read_like_std() {
    for s in [
        "0",
        "7",
        "42",
        "+42",
        "007",
        "",
        "+",
        "-1",
        "4x",
        " 4",
        "18446744073709551615",
        "18446744073709551616",
        "99999999999999999999999",
        "1_000",
    ] {
        assert_eq!(parse_usize(&chars(s)), s.parse::<usize>().ok(), "{:?}", s);
    }
}

#[test]
fn a_shown_number_reads_as_the_number_again() {
    for rendered in ["0", "12", "1234.5", "-1234567.25", "1000000", "0.001", "-0.5"] {
        for group in [false, true] {
            for (thousand, decimal) in [(',', '.'), ('.', ','), (' ', '.'), ('\'', ',')] {
                let shown = format_number(&chars(rendered), group, thousand, decimal);
                assert_eq!(
                    string(&normalize(&shown, thousand, decimal)),
                    rendered,
                    "{:?}",
                    string(&shown)
                );
            }
        }
    }
}
