use tablefmt::cell::{align_cell, frame_cell, Formatter};
use tablefmt::text::{Alignment, Frame};

/// Reads `text` as a number and renders it in plain decimal notation.
fn reading(text: &str, pad: bool, digits: usize) -> Option<String> {
    match text.parse::<f64>() {
        Ok(number) => Some(if pad {
            format!("{:.*}", digits, number)
        } else {
            format!("{}", number)
        }),
        Err(_) => None,
    }
}

fn read(cell: &Formatter) -> Option<String> {
    reading(&cell.normalized(), cell.pad_decimal_digits, cell.max_decimal_digits)
}

fn chars(s: &str) -> Vec<char> {
    s.chars().collect()
}

fn string(v: &Vec<char>) -> String {
    v.iter().collect()
}

#[test]
fn new_cell_has_the_defaults() {
    let cell = Formatter::new("  raw text \n".to_string());
    assert_eq!(cell.input_text, "  raw text \n");
    assert_eq!(cell.formatted_text, "raw text");
    assert_eq!(cell.width, 48);
    assert_eq!(cell.frame, Frame::TRUNCATE);
    assert_eq!(cell.alignment, Alignment::AUTO);
    assert!(cell.ellipsis);
    assert!(!cell.pad_decimal_digits);
    assert_eq!(cell.max_decimal_digits, 2);
    assert_eq!(cell.decimal_separator, '.');
    assert!(!cell.use_thousand_separator);
    assert_eq!(cell.thousand_separator, ',');
    assert_eq!(cell.is_numeric, None);
}

#[test]
fn cell_with_a_number() {
    let mut cell = Formatter::new("1234.5".to_string());
    cell.set_width(10)
        .set_use_thousand_separator(true)
        .set_pad_decimal_digits(true)
        .set_max_decimal_digits(2);
    let rendered = read(&cell);
    cell.format(rendered.as_deref());
    assert_eq!(cell.formatted_text, "1,234.50");
    assert_eq!(cell.is_numeric, Some(true));
    assert_eq!(cell.trimmed_width(), 8);
    cell.align(rendered.as_deref());
    assert_eq!(cell.formatted_text, "  1,234.50");
    assert_eq!(cell.input_text, "1234.5");
}

#[test]
fn cell_with_a_text() {
    let mut cell = Formatter::new("Hello World".to_string());
    cell.set_width(5);
    let rendered = read(&cell);
    assert_eq!(rendered, None);
    cell.format(None);
    assert_eq!(cell.formatted_text, "He...");
    assert_eq!(cell.is_numeric, Some(false));
    assert_eq!(cell.trimmed_width(), 5);
    cell.set_width(7).align(None);
    assert_eq!(cell.formatted_text, "He...  ");
}

#[test]
fn a_number_is_never_cut() {
    let mut cell = Formatter::new("123456789".to_string());
    cell.set_width(4);
    let rendered = read(&cell);
    cell.format(rendered.as_deref()).align(rendered.as_deref());
    assert_eq!(cell.formatted_text, "123456789");
}

#[test]
fn ellipsis_can_be_switched_off_either_way() {
    let mut cell = Formatter::new("Hello World".to_string());
    cell.set_width(5).set_ellipsis(false).wrap_or_truncate();
    assert_eq!(cell.formatted_text, "Hello");
    let mut other = Formatter::new("Hello World".to_string());
    other.set_width(5).set_no_ellipsis(true).wrap_or_truncate();
    assert_eq!(other.formatted_text, "Hello");
    other.set_no_ellipsis(false);
    assert!(other.ellipsis);
}

#[test]
fn wrapped_cell_is_aligned_line_by_line() {
    let mut cell = Formatter::new("aa bb cc".to_string());
    cell.set_width(5).set_frame(Frame::WRAP).set_alignment(Alignment::RIGHT);
    cell.format(None);
    assert_eq!(cell.formatted_text, "aa bb\ncc");
    cell.align(None);
    assert_eq!(cell.formatted_text, "aa bb\n   cc");
}

#[test]
fn frame_none_leaves_the_cell() {
    let mut cell = Formatter::new("Hello World".to_string());
    cell.set_width(5).set_frame(Frame::NONE);
    cell.format(None).align(None);
    assert_eq!(cell.formatted_text, "Hello World");
}

#[test]
fn alignment_of_a_cell() {
    for (alignment, numeric, expected) in [
        (Alignment::AUTO, false, "ab   "),
        (Alignment::AUTO, true, "   ab"),
        (Alignment::LEFT, true, "ab   "),
        (Alignment::RIGHT, false, "   ab"),
        (Alignment::CENTER, false, " ab  "),
    ] {
        let mut cell = Formatter::new("ab".to_string());
        cell.set_width(5).set_alignment(alignment);
        cell.is_numeric = Some(numeric);
        cell.align(None);
        assert_eq!(cell.formatted_text, expected);
    }
}

#[test]
fn align_finds_out_whether_the_cell_is_a_number() {
    let mut number = Formatter::new("7".to_string());
    number.set_width(3);
    let rendered = read(&number);
    assert_eq!(rendered, Some("7".to_string()));
    number.align(rendered.as_deref());
    assert_eq!(number.formatted_text, "  7");
    assert_eq!(number.is_numeric, Some(true));
    let mut word = Formatter::new("x".to_string());
    word.set_width(3);
    let rendered = read(&word);
    word.align(rendered.as_deref());
    assert_eq!(word.formatted_text, "x  ");
    assert_eq!(word.is_numeric, Some(false));
    let mut known = Formatter::new("7".to_string());
    known.set_width(3);
    known.is_numeric = Some(false);
    known.align(Some("7"));
    assert_eq!(known.formatted_text, "7  ");
    assert_eq!(known.is_numeric, Some(false));
}

#[test]
fn format_text_leaves_a_text_alone_under_none_and_auto() {
    for width in [0, 3, 20] {
        let mut cell = Formatter::new("Hello World".to_string());
        cell.set_width(width).set_frame(Frame::NONE);
        assert_eq!(cell.format_text(), "Hello World");
        assert_eq!(cell.formatted_text, "Hello World");
    }
    let mut cell = Formatter::new("ab".to_string());
    cell.set_width(5);
    assert_eq!(cell.format_text(), "ab");
    cell.set_alignment(Alignment::LEFT);
    assert_eq!(cell.format_text(), "ab");
    cell.set_alignment(Alignment::RIGHT);
    assert_eq!(cell.format_text(), "   ab");
    cell.set_alignment(Alignment::CENTER);
    assert_eq!(cell.format_text(), " ab  ");
}

#[test]
fn format_numeric_aligns_as_texts_are_aligned() {
    let mut cell = Formatter::new("1234".to_string());
    cell.set_width(7).set_use_thousand_separator(true);
    assert_eq!(cell.format_numeric(Some("1234")), "  1,234");
    cell.set_alignment(Alignment::LEFT);
    assert_eq!(cell.format_numeric(Some("1234")), "1,234");
    assert_eq!(cell.formatted(Some("1234")), "1,234");
    cell.set_alignment(Alignment::RIGHT);
    assert_eq!(cell.format_numeric(Some("1234")), "  1,234");
    cell.set_alignment(Alignment::CENTER);
    assert_eq!(cell.format_numeric(Some("1234")), " 1,234 ");
}

#[test]
fn a_width_of_zero_leaves_the_text() {
    for frame in [Frame::TRUNCATE, Frame::WRAP, Frame::NONE] {
        let mut cell = Formatter::new("Hello World".to_string());
        cell.set_width(0).set_frame(frame);
        cell.wrap_or_truncate();
        assert_eq!(cell.formatted_text, "Hello World");
        cell.format(None).align(None);
        assert_eq!(cell.formatted_text, "Hello World");
        assert_eq!(cell.format_text(), "Hello World");
    }
    assert_eq!(string(&frame_cell(&chars("abc def"), Frame::TRUNCATE, 0, true)), "abc def");
    assert_eq!(string(&frame_cell(&chars("abc def"), Frame::WRAP, 0, true)), "abc def");
}

#[test]
fn is_numeric_of_a_cell_is_remembered() {
    let mut cell = Formatter::new("12".to_string());
    assert!(cell.is_numeric(Some("12")));
    assert!(cell.is_numeric(None));
    assert_eq!(cell.is_numeric, Some(true));
}

#[test]
fn formatted_cell_goes_by_what_is_known() {
    let mut number = Formatter::new("7".to_string());
    number.set_width(3);
    assert_eq!(number.formatted(Some("7")), "  7");
    assert_eq!(number.formatted_text, "7");
    assert_eq!(number.format_numeric(Some("7.5")), "7.5");
    assert_eq!(number.format_numeric(None), "");
    let mut plain = Formatter::new("seven eight".to_string());
    plain.set_width(8);
    assert_eq!(plain.formatted(None), "seven...");
    assert_eq!(plain.format_text(), "seven...");
    plain.set_width(12).set_alignment(Alignment::CENTER);
    assert_eq!(plain.format_text(), "seven eight ");
}

#[test]
fn cell_functions_on_characters() {
    assert_eq!(string(&frame_cell(&chars("Hello World"), Frame::TRUNCATE, 8, true)), "Hello...");
    assert_eq!(string(&frame_cell(&chars("aaa bbb"), Frame::WRAP, 3, true)), "aaa\nbbb");
    assert_eq!(string(&frame_cell(&chars("aaa bbb"), Frame::NONE, 3, true)), "aaa bbb");
    assert_eq!(string(&align_cell(&chars("a\nbcd"), Alignment::RIGHT, 3)), "  a\nbcd");
    assert_eq!(string(&align_cell(&chars(""), Alignment::LEFT, 2)), "  ");
}
