use tablefmt::text::{
    center, clean, hex, left, right, text, truncate, wrap, Alignment, Frame, TextFormatter,
};

/// Reads `text` as a number and renders it in plain decimal notation.
fn reading(text: &str, pad: bool, digits: usize) -> Option<String> {
    match text.parse::<f64>() {
        Ok(number) => Some(if pad {
            format!("{:.*}", digits, number)
        } else {
            format!("{}", number)
        }),
        Err(_) => None,
    }
}

fn read(formatter: &TextFormatter) -> Option<String> {
    reading(
        &formatter.normalized(),
        formatter.pad_decimal_digits,
        formatter.max_decimal_digits,
    )
}

fn long_word() -> String {
    "abcdefghij".repeat(5)
}

#[test]
fn clean_trims_lines_and_drops_blank_ones() {
    assert_eq!(clean(Some("  line1  \n\n  line2  \n  ")), "line1\nline2");
    assert_eq!(clean(Some("a\r\n\r\n b \r\n")), "a\nb");
    assert_eq!(clean(Some(" \n\t\n")), "");
    assert_eq!(clean(Some("")), "");
    assert_eq!(clean(None), "");
}

#[test]
fn clean_is_idempotent() {
    for input in [
        "",
        "a",
        "  a  \n\n b\tc \r\n\n",
        "\n\n\n",
        "x\ry\n \u{a0}z\u{3000}\n",
        "one\ntwo\nthree",
    ] {
        let once = clean(Some(input));
        assert_eq!(clean(Some(&once)), once);
    }
}

#[test]
fn left_takes_leading_whitespace_off() {
    assert_eq!(left(Some("  a  \n\tb\nc")), "a  \nb\nc");
    assert_eq!(left(Some("a\n")), "a");
    assert_eq!(left(None), "");
}

#[test]
fn right_pads_to_the_widest_of_width_and_lines() {
    assert_eq!(right(Some("a\nbcd"), Some(5)), "    a\n  bcd");
    assert_eq!(right(Some("a\nbcd"), Some(0)), "  a\nbcd");
    assert_eq!(right(Some("a  \nbcd"), Some(2)), "  a\nbcd");
    assert_eq!(right(Some("ab"), None), format!("{:>48}", "ab"));
    assert_eq!(right(Some("\n"), Some(0)), " ");
    assert_eq!(right(Some(""), Some(4)), "");
    assert_eq!(right(None, Some(4)), "");
}

#[test]
fn center_puts_the_odd_space_on_the_right() {
    assert_eq!(center(Some("ab\nabcd"), Some(6)), "  ab  \n abcd ");
    assert_eq!(center(Some("abc"), Some(6)), " abc  ");
    assert_eq!(center(Some("  abc  \n\n"), Some(4)), "abc ");
    assert_eq!(center(Some("abcdef"), Some(4)), "abcdef");
    assert_eq!(center(None, Some(4)), "");
}

#[test]
fn truncation_boundary() {
    assert_eq!(truncate(Some("Hello World"), Some(5), None), "He...");
    assert_eq!(truncate(Some("Hello World"), Some(5), Some(false)), "He...");
    assert_eq!(truncate(Some("Hello World"), Some(5), Some(true)), "Hello");
    assert_eq!(truncate(Some("Hello World"), Some(11), None), "Hello World");
    assert_eq!(truncate(Some("Hello World"), Some(10), None), "Hello W...");
    assert_eq!(truncate(Some("Hello World"), Some(9), None), "Hello...");
    assert_eq!(truncate(Some("Hello World"), Some(6), Some(true)), "Hello");
    assert_eq!(truncate(Some("Hello World"), Some(4), None), "H...");
}

#[test]
fn no_ellipsis_at_width_three_or_less() {
    for width in 0..=3 {
        let cut = truncate(Some("Hello World"), Some(width), None);
        assert!(!cut.contains("..."));
        assert_eq!(cut, "");
        let plain = truncate(Some("Hello World"), Some(width), Some(true));
        assert_eq!(plain, &"Hello World"[..width]);
    }
}

#[test]
fn truncate_works_line_by_line() {
    assert_eq!(
        truncate(Some("  short\na much longer line\nabcdefgh"), Some(8), None),
        "short\na muc...\nabcdefgh"
    );
}

#[test]
fn truncate_counts_columns_not_characters() {
    assert_eq!(truncate(Some("日本語のテキスト"), Some(7), Some(true)), "日本語");
    assert_eq!(truncate(Some("日本語のテキスト"), Some(9), None), "日本語...");
    assert_eq!(truncate(Some("e\u{301}e\u{301}e\u{301}"), Some(2), Some(true)), "e\u{301}e\u{301}");
}

#[test]
fn wrap_breaks_a_long_word() {
    let wrapped = wrap(Some(&long_word()), Some(10));
    let lines: Vec<&str> = wrapped.lines().collect();
    assert_eq!(lines.len(), 5);
    for line in lines {
        assert_eq!(line, "abcdefghij");
    }
}

#[test]
fn wrap_is_greedy_and_breaks_on_whitespace() {
    assert_eq!(
        wrap(Some("To be, or not to be: that is the question"), Some(10)),
        "To be, or\nnot to be:\nthat is\nthe\nquestion"
    );
    assert_eq!(wrap(Some("  aaa bbb  \n ccc "), Some(3)), "aaa\nbbb\nccc");
}

#[test]
fn number_with_thousands_and_padding() {
    let mut formatter = TextFormatter::new(Some("1234.5".to_string()));
    formatter
        .set_use_thousand_separator(true)
        .set_pad_decimal_digits(true)
        .set_max_decimal_digits(2)
        .set_alignment(Alignment::LEFT);
    let rendered = read(&formatter);
    assert_eq!(rendered, Some("1234.50".to_string()));
    let shown = formatter.text(rendered.as_deref());
    assert_eq!(shown, "1,234.50");
    assert_eq!(formatter.is_numeric, Some(true));
    assert_eq!(formatter.text, Some("1,234.50".to_string()));
    let again = formatter.normalized();
    assert_eq!(again, "1234.50");
    assert_eq!(again.parse::<f64>().unwrap(), 1234.5);
}

#[test]
fn number_is_right_aligned_by_default() {
    let mut formatter = TextFormatter::new(Some("1234.5".to_string()));
    formatter.set_width(10).set_use_thousand_separator(true);
    let rendered = read(&formatter);
    assert_eq!(formatter.format_numeric(rendered.as_deref()), "   1,234.5");
    assert_eq!(formatter.format_numeric(None), "");
    formatter.set_alignment(Alignment::CENTER);
    assert_eq!(formatter.format_numeric(rendered.as_deref()), " 1,234.5  ");
}

#[test]
fn european_separators() {
    let mut formatter = TextFormatter::new(Some("1.234.567,891".to_string()));
    formatter
        .set_decimal_separator(',')
        .set_thousand_separator('.')
        .set_use_thousand_separator(true)
        .set_alignment(Alignment::LEFT);
    assert_eq!(formatter.normalized(), "1234567.891");
    let rendered = read(&formatter);
    assert_eq!(formatter.text(rendered.as_deref()), "1.234.567,891");
}

#[test]
fn text_that_is_no_number_is_framed() {
    let mut formatter = TextFormatter::new(Some("Hello World".to_string()));
    formatter.set_width(8);
    let rendered = read(&formatter);
    assert_eq!(rendered, None);
    assert_eq!(formatter.text(None), "Hello...");
    assert_eq!(formatter.is_numeric, Some(false));
    assert_eq!(formatter.text, Some("Hello...".to_string()));
}

#[test]
fn free_text_function_takes_settings() {
    assert_eq!(
        text(
            Some("Hello World"),
            None,
            Some(8),
            Some(Frame::TRUNCATE),
            Some(true),
            None,
            None,
            None,
            Some(Alignment::RIGHT),
        ),
        "Hello Wo"
    );
    assert_eq!(
        text(
            Some("ab"),
            None,
            Some(4),
            Some(Frame::NONE),
            None,
            None,
            None,
            None,
            Some(Alignment::CENTER),
        ),
        " ab "
    );
    assert_eq!(
        text(
            Some("12345"),
            Some("12345"),
            Some(8),
            None,
            None,
            Some(','),
            Some(true),
            Some('.'),
            None,
        ),
        "  12.345"
    );
    assert_eq!(
        text(None, None, None, None, None, None, None, None, None),
        ""
    );
}

#[test]
fn is_numeric_remembers_the_first_answer() {
    let mut formatter = TextFormatter::new(Some("12".to_string()));
    assert_eq!(formatter.is_numeric, None);
    assert!(formatter.is_numeric(Some("12")));
    assert_eq!(formatter.is_numeric, Some(true));
    assert!(formatter.is_numeric(None));
    let mut other = TextFormatter::new(Some("x".to_string()));
    assert!(!other.is_numeric(None));
    assert!(!other.is_numeric(Some("1")));
}

#[test]
fn formatted_goes_by_what_is_known() {
    let mut number = TextFormatter::new(Some("7".to_string()));
    number.set_width(3);
    assert_eq!(number.formatted(Some("7")), "  7");
    let mut plain = TextFormatter::new(Some("seven eight".to_string()));
    plain.set_width(8);
    assert_eq!(plain.formatted(None), "seven...");
}

#[test]
fn format_text_frames_then_aligns() {
    let mut formatter = TextFormatter::new(Some("  Hello World".to_string()));
    formatter.set_width(8).set_alignment(Alignment::RIGHT).set_no_ellipsis(true);
    assert_eq!(formatter.format_text(), "Hello Wo");
    let mut none = TextFormatter::new(Some("ab".to_string()));
    none.set_width(5).set_frame(Frame::NONE).set_alignment(Alignment::RIGHT);
    assert_eq!(none.format_text(), "   ab");
    assert_eq!(none.text, Some("ab".to_string()));
    let mut wrapped = TextFormatter::new(Some("aa bb cc".to_string()));
    wrapped.set_width(5).set_frame(Frame::WRAP);
    assert_eq!(wrapped.format_text(), "aa bb\ncc");
    assert_eq!(wrapped.text, Some("aa bb\ncc".to_string()));
}

#[test]
fn formatter_operations_replace_the_text() {
    let mut formatter = TextFormatter::new(Some("  a  \n\n  b".to_string()));
    assert_eq!(formatter.clean(), "a\nb");
    assert_eq!(formatter.text, Some("a\nb".to_string()));
    formatter.set_width(3);
    assert_eq!(formatter.right(), "  a\n  b");
    assert_eq!(formatter.left(), "a\nb");
    assert_eq!(formatter.center(), " a \n b ");
    let mut blank = TextFormatter::new(Some(" \n ".to_string()));
    assert_eq!(blank.clean(), "");
    assert_eq!(blank.text, None);
    assert_eq!(blank.right(), "");
    assert_eq!(blank.text, None);
    assert_eq!(blank.left(), "");
    assert_eq!(blank.text, Some(String::new()));
}

#[test]
fn new_formatter_has_the_defaults() {
    let formatter = TextFormatter::new(None);
    assert_eq!(formatter.text, None);
    assert_eq!(formatter.width, 48);
    assert_eq!(formatter.frame, Frame::TRUNCATE);
    assert_eq!(formatter.alignment, Alignment::AUTO);
    assert!(!formatter.no_ellipsis);
    assert!(!formatter.pad_decimal_digits);
    assert_eq!(formatter.max_decimal_digits, 2);
    assert_eq!(formatter.decimal_separator, '.');
    assert!(!formatter.use_thousand_separator);
    assert_eq!(formatter.thousand_separator, ',');
    assert_eq!(formatter.is_numeric, None);
    assert_eq!(Frame::default(), Frame::TRUNCATE);
    let other = TextFormatter::default();
    assert_eq!(other.width, 48);
}

#[test]
fn hex_accepts_hexadecimal_digits_only() {
    assert_eq!(hex("09afAF"), Ok("09afAF".to_string()));
    assert_eq!(hex(""), Ok(String::new()));
    assert_eq!(hex("12g4"), Err("'12g4' is not a valid hex string".to_string()));
    assert_eq!(hex("0x1f"), Err("'0x1f' is not a valid hex string".to_string()));
    let formatter = TextFormatter::new(Some("beef".to_string()));
    assert_eq!(formatter.is_hex(), Ok("beef".to_string()));
    let missing = TextFormatter::new(None);
    assert_eq!(missing.is_hex(), Err("No text provided".to_string()));
}

#[test]
fn frames_and_alignments_by_name() {
    assert_eq!(Frame::from_name("truncate"), Ok(Frame::TRUNCATE));
    assert_eq!(Frame::from_name("Wrap"), Ok(Frame::WRAP));
    assert_eq!("NONE".parse::<Frame>(), Ok(Frame::NONE));
    assert_eq!(
        Frame::from_name("chop"),
        Err("Invalid frame type: chop".to_string())
    );
    assert_eq!(Alignment::from_name("auto"), Ok(Alignment::AUTO));
    assert_eq!(Alignment::from_name("CENTER"), Ok(Alignment::CENTER));
    assert_eq!("left".parse::<Alignment>(), Ok(Alignment::LEFT));
    assert_eq!(Alignment::from_name("Right"), Ok(Alignment::RIGHT));
    assert_eq!(
        Alignment::from_name("middle"),
        Err("Invalid frame type: middle".to_string())
    );
    assert_eq!(Alignment::from_name("r\u{131}ght"), Ok(Alignment::RIGHT));
    assert_eq!(Alignment::from_upper("RIGHT", "right"), Ok(Alignment::RIGHT));
    assert_eq!(
        Alignment::from_upper("right", "right"),
        Err("Invalid frame type: right".to_string())
    );
    assert_eq!(Frame::from_upper("WRAP", "wrap"), Ok(Frame::WRAP));
    assert_eq!(
        Frame::from_upper("Wrap", "Wrap"),
        Err("Invalid frame type: Wrap".to_string())
    );
    for frame in [Frame::TRUNCATE, Frame::WRAP, Frame::NONE] {
        assert_eq!(Frame::from_name(&frame.name()), Ok(frame));
    }
    for alignment in [Alignment::AUTO, Alignment::CENTER, Alignment::LEFT, Alignment::RIGHT] {
        assert_eq!(Alignment::from_name(&alignment.name()), Ok(alignment));
    }
}
