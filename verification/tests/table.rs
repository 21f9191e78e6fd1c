use tablefmt::columnizer::{run, Builder};
use tablefmt::grid::parse;
use tablefmt::table::TableBuilder;
use tablefmt::text::{Alignment, Frame};
use tablefmt::width::display_width;

/// Reads `text` as a number and renders it in plain decimal notation.
fn reading(text: &str, pad: bool, digits: usize) -> Option<String> {
    match text.parse::<f64>() {
        Ok(number) => Some(if pad {
            format!("{:.*}", digits, number)
        } else {
            format!("{}", number)
        }),
        Err(_) => None,
    }
}

fn readings(cells: &Vec<Vec<String>>, pad: bool, digits: usize) -> Vec<Vec<Option<String>>> {
    cells
        .iter()
        .map(|row| row.iter().map(|cell| reading(cell, pad, digits)).collect())
        .collect()
}

fn built(builder: &TableBuilder) -> String {
    let read = readings(
        &builder.cells_to_read(),
        builder.pad_decimal_digits,
        builder.max_decimal_digits,
    );
    builder.build(&read)
}

fn price_list() -> TableBuilder {
    let mut builder = TableBuilder::new(Some("Name Price\nWidget 9.5\nGadget 12".to_string()));
    builder.set_pad_decimal_digits(true).set_max_decimal_digits(2);
    builder
}

#[test]
fn end_to_end_price_list() {
    let builder = price_list();
    let read = readings(&builder.cells_to_read(), true, 2);
    assert_eq!(builder.column_widths(&read), vec![6, 5]);
    assert_eq!(builder.numeric_columns(&read), vec![false, true]);
    let table = builder.build(&read);
    let lines: Vec<&str> = table.lines().collect();
    assert_eq!(lines.len(), 4);
    assert_eq!(lines[0], "Name   Price");
    assert_eq!(lines[1], "------ -----");
    assert_eq!(lines[2], "Widget  9.50");
    assert_eq!(lines[3], "Gadget 12.00");
}

#[test]
fn end_to_end_with_run() {
    let input = "Name Price\nWidget 9.5\nGadget 12";
    let cells = tablefmt::columnizer::cells_to_read(input, " ", '.', ',');
    let read = readings(&cells, true, 2);
    let table = run(input, " ", " ", 1, 0, 0, false, '-', 40, '.', false, ',', &read);
    assert_eq!(table, "Name   Price\n------ -----\nWidget  9.50\nGadget 12.00");
}

#[test]
fn end_to_end_with_builder() {
    let builder = Builder::new("Name Price\nWidget 9.5\nGadget 12")
        .header_row(1)
        .pad_decimal_digits(true)
        .max_decimal_digits(2);
    let read = readings(&builder.cells_to_read(), true, 2);
    assert_eq!(
        builder.format(&read),
        "Name   Price\n------ -----\nWidget  9.50\nGadget 12.00"
    );
}

#[test]
fn parse_splits_and_trims() {
    let grid = parse("  a , b,c  \n\n d,e \n", ",");
    assert_eq!(
        grid,
        vec![
            vec!["a".to_string(), "b".to_string(), "c".to_string()],
            vec!["d".to_string(), "e".to_string()],
        ]
    );
}

#[test]
fn parse_empty_input_is_empty_grid() {
    assert_eq!(parse("", " "), Vec::<Vec<String>>::new());
    assert_eq!(parse("\n  \n\t\n", " "), Vec::<Vec<String>>::new());
    let builder = TableBuilder::new(Some(String::new()));
    assert_eq!(builder.column_count(), 0);
    assert_eq!(built(&builder), "");
}

#[test]
fn parse_separator_is_literal() {
    let grid = parse("a.*b.*c", ".*");
    assert_eq!(grid, vec![vec!["a".to_string(), "b".to_string(), "c".to_string()]]);
    let grid = parse("a||b|c", "||");
    assert_eq!(grid, vec![vec!["a".to_string(), "b|c".to_string()]]);
}

#[test]
fn parse_matches_std_split() {
    for (line, sep) in [
        ("a,b,,c,", ","),
        (",a", ","),
        ("aaa", "aa"),
        ("abc", ""),
        ("", ""),
        ("x--y---z", "--"),
    ] {
        let expected: Vec<String> = line.split(sep).map(|f| f.trim().to_string()).collect();
        let grid = parse(&format!("{}", line), sep);
        if line.trim().is_empty() {
            assert!(grid.is_empty());
        } else {
            assert_eq!(grid, vec![expected]);
        }
    }
}

#[test]
fn ragged_rows_render_missing_cells_empty() {
    let mut builder = TableBuilder::new(Some("a b c\nlong\nx y".to_string()));
    builder.set_header_index(0).set_ofs("|".to_string());
    assert_eq!(builder.column_count(), 3);
    let table = built(&builder);
    assert_eq!(table, "----|-|-\na   |b|c\nlong| | \nx   |y|");
}

#[test]
fn header_rows_and_limit_row_are_no_data() {
    let mut builder = TableBuilder::new(Some("h1 h2\n3 2\nabcdef xyz\n12 7".to_string()));
    builder.set_column_width_limits_index(2);
    assert_eq!(builder.headers(), vec![vec!["h1".to_string(), "h2".to_string()]]);
    assert_eq!(builder.column_width_limits(), vec![3, 2]);
    let read = readings(&builder.cells_to_read(), false, 2);
    assert_eq!(
        builder.data(&read),
        vec![
            vec!["abcdef".to_string(), "xyz".to_string()],
            vec!["12".to_string(), "7".to_string()],
        ]
    );
    assert_eq!(builder.column_widths(&read), vec![3, 2]);
    assert_eq!(builder.build(&read), "h1  h2\n--- --\n      \n12  7");
}

#[test]
fn limit_row_falls_back_to_max_cell_width() {
    let mut builder = TableBuilder::new(Some("0 x 5 +7 -1\na b c d e f".to_string()));
    builder
        .set_header_index(0)
        .set_column_width_limits_index(1)
        .set_max_cell_width(9);
    assert_eq!(builder.column_width_limits(), vec![9, 9, 5, 7, 9, 9]);
}

#[test]
fn two_header_rows() {
    let mut builder = TableBuilder::new(Some("a b\nc d\n1 2".to_string()));
    builder.set_header_index(1).set_header_count(2);
    assert_eq!(
        builder.headers(),
        vec![
            vec!["a".to_string(), "b".to_string()],
            vec!["c".to_string(), "d".to_string()],
        ]
    );
    assert_eq!(built(&builder), "a b\nc d\n- -\n1 2");
}

#[test]
fn numeric_column_needs_every_cell_numeric() {
    let mut builder = TableBuilder::new(Some("1 2 3\n4 x 6\n7 8".to_string()));
    builder.set_header_index(0);
    let read = readings(&builder.cells_to_read(), false, 2);
    assert_eq!(builder.numeric_columns(&read), vec![true, false, true]);
}

#[test]
fn headers_do_not_change_numeric_columns() {
    let builder = TableBuilder::new(Some("name 2024\na 1\nb 2".to_string()));
    let read = readings(&builder.cells_to_read(), false, 2);
    assert_eq!(builder.numeric_columns(&read), vec![false, true]);
    assert_eq!(builder.build(&read), "name 2024\n---- ----\na       1\nb       2");
}

#[test]
fn truncated_cells_fit_their_column() {
    let mut builder = TableBuilder::new(Some("title\nHello World\nabc".to_string()));
    builder.set_ifs(",".to_string()).set_max_cell_width(8);
    let read = readings(&builder.cells_to_read(), false, 2);
    assert_eq!(builder.column_widths(&read), vec![8]);
    let table = builder.build(&read);
    assert_eq!(table, "title   \n--------\nHello...\nabc");
}

#[test]
fn wrapped_cells_take_several_lines() {
    let word = "abcdefghijklmnopqrstuvwxyzabcdefghijklmnopqrstuvwxyz".chars().take(50).collect::<String>();
    let mut builder = TableBuilder::new(Some(format!("{word},x")));
    builder
        .set_ifs(",".to_string())
        .set_header_index(0)
        .set_no_divider(true)
        .set_max_cell_width(10)
        .set_frame(Frame::WRAP);
    let table = built(&builder);
    let lines: Vec<&str> = table.lines().collect();
    assert_eq!(lines.len(), 5);
    assert_eq!(lines[0], "abcdefghij x");
    assert_eq!(lines[1], "klmnopqrst  ");
    assert_eq!(lines[4], "opqrstuvwx");
    for line in lines {
        assert!(line.trim_end().chars().count() <= 12);
    }
}

#[test]
fn frame_none_leaves_cells_alone() {
    let mut builder = TableBuilder::new(Some("Hello World!,x\nab,y".to_string()));
    builder
        .set_ifs(",".to_string())
        .set_header_index(0)
        .set_no_divider(true)
        .set_max_cell_width(5)
        .set_frame(Frame::NONE);
    assert_eq!(built(&builder), "Hello World! x\nab    y");
}

#[test]
fn alignment_of_columns() {
    let mut builder = TableBuilder::new(Some("ab 1\nabcd 100".to_string()));
    builder.set_header_index(0).set_no_divider(true);
    assert_eq!(built(&builder), "ab     1\nabcd 100");
    builder.set_alignment(Alignment::LEFT);
    assert_eq!(built(&builder), "ab   1  \nabcd 100");
    builder.set_alignment(Alignment::RIGHT);
    assert_eq!(built(&builder), "  ab   1\nabcd 100");
    builder.set_alignment(Alignment::CENTER);
    assert_eq!(built(&builder), " ab   1 \nabcd 100");
}

#[test]
fn thousands_and_decimal_separators() {
    let mut builder = TableBuilder::new(Some("1234567.5;x\n-1234,25;y".to_string()));
    builder
        .set_ifs(";".to_string())
        .set_header_index(0)
        .set_no_divider(true)
        .set_decimal_separator(',')
        .set_thousand_separator('.')
        .set_use_thousand_separator(true);
    let cells = builder.cells_to_read();
    assert_eq!(cells[0][0], "12345675");
    assert_eq!(cells[1][0], "-1234.25");
    assert_eq!(built(&builder), "12.345.675 x\n -1.234,25 y");
}

#[test]
fn divider_can_be_left_out_or_changed() {
    let mut builder = TableBuilder::new(Some("ab cd\n1 2".to_string()));
    builder.set_divider_char('=');
    assert_eq!(built(&builder), "ab cd\n== ==\n 1  2");
    builder.set_no_divider(true);
    assert_eq!(built(&builder), "ab cd\n 1  2");
}

#[test]
fn wide_characters_count_two_columns() {
    let mut builder = TableBuilder::new(Some("日本 x\nab y".to_string()));
    builder.set_header_index(0).set_no_divider(true);
    let read = readings(&builder.cells_to_read(), false, 2);
    assert_eq!(builder.column_widths(&read), vec![4, 1]);
    assert_eq!(builder.build(&read), "日本 x\nab   y");
}

#[test]
fn new_builder_cleans_its_input() {
    let builder = TableBuilder::new(Some("\n\n  a b  \n\n c d\n\n".to_string()));
    assert_eq!(builder.input, Some("a b\nc d".to_string()));
    assert_eq!(builder.header_index, 1);
    assert_eq!(builder.header_count, 1);
    assert_eq!(builder.max_cell_width, 80);
    let none = TableBuilder::new(None);
    assert_eq!(none.input, None);
    assert_eq!(built(&none), "");
}

#[test]
fn header_count_is_one_at_least() {
    let mut builder = TableBuilder::new(None);
    builder.set_header_count(0);
    assert_eq!(builder.header_count, 1);
    builder.set_header_index(0).set_header_count(5);
    assert_eq!(builder.header_count, 1);
    builder.set_header_index(2).set_header_count(3);
    assert_eq!((builder.header_index, builder.header_count), (2, 3));
}

#[test]
fn a_header_row_may_hold_the_limits() {
    let mut builder = TableBuilder::new(Some("4,x\nabcdefgh,abcdefgh\nab,cd".to_string()));
    builder
        .set_ifs(",".to_string())
        .set_column_width_limits_index(1)
        .set_max_cell_width(6)
        .set_no_ellipsis(true);
    assert_eq!(builder.column_width_limits(), vec![4, 6]);
    assert_eq!(builder.headers(), vec![vec!["4".to_string(), "x".to_string()]]);
    assert_eq!(built(&builder), "4    x     \n---- ------\nabcd abcdef\nab   cd");
}

#[test]
fn text_cells_fill_their_columns_exactly() {
    let mut builder = TableBuilder::new(Some(
        "name|city|note\nAlexander|Rio|a very long note indeed\n日本語の名前|東京|x\nB|Ulaanbaatar|".to_string(),
    ));
    builder.set_ifs("|".to_string()).set_ofs("|".to_string()).set_max_cell_width(8);
    let read = readings(&builder.cells_to_read(), false, 2);
    let widths = builder.column_widths(&read);
    assert_eq!(widths, vec![8, 8, 8]);
    let limits = builder.column_width_limits();
    for (width, limit) in widths.iter().zip(limits.iter()) {
        assert!(width <= limit);
    }
    let table = builder.build(&read) + " ";
    for line in table.lines() {
        let cells: Vec<&str> = line.split('|').collect();
        assert_eq!(cells.len(), 3);
        for (cell, width) in cells.iter().zip(widths.iter()) {
            assert!(display_width(cell.trim_end()) <= *width, "{:?}", cell);
        }
    }
    assert_eq!(
        builder.build(&read),
        "name    |city    |note    \n--------|--------|--------\nAlexa...|Rio     |a ver...\n日本... |東京    |x       \nB       |Ulaan...|"
    );
}

#[test]
fn column_width_is_the_wider_of_headers_and_data() {
    let mut builder = TableBuilder::new(Some("long header,h\nab,wide data".to_string()));
    builder.set_ifs(",".to_string());
    let read = readings(&builder.cells_to_read(), false, 2);
    assert_eq!(builder.header_column_widths(), vec![11, 1]);
    assert_eq!(builder.data_column_widths(&read), vec![2, 9]);
    assert_eq!(builder.column_widths(&read), vec![11, 9]);
    builder.set_frame(Frame::NONE);
    assert_eq!(builder.column_widths(&read), vec![11, 9]);
    builder.set_frame(Frame::WRAP);
    assert_eq!(builder.column_widths(&read), vec![2, 9]);
}

#[test]
fn wrapped_headers_follow_the_data_width() {
    let mut builder = TableBuilder::new(Some("first name,n\nAl,1\nBo,22".to_string()));
    builder.set_ifs(",".to_string()).set_frame(Frame::WRAP);
    assert_eq!(
        built(&builder),
        "fi  n\nrs   \nt    \nna   \nme   \n-- --\nAl  1\nBo 22"
    );
}

#[test]
fn numbers_are_never_cut() {
    let mut builder = TableBuilder::new(Some("n\n1234567.25\n1".to_string()));
    builder.set_max_cell_width(4).set_use_thousand_separator(true);
    let read = readings(&builder.cells_to_read(), false, 2);
    assert_eq!(builder.column_widths(&read), vec![4]);
    assert_eq!(builder.build(&read), "   n\n----\n1,234,567.25\n   1");
}

#[test]
fn missing_readings_count_as_text() {
    let builder = TableBuilder::new(Some("a b\n1 2\n3 4".to_string()));
    let none: Vec<Vec<Option<String>>> = Vec::new();
    assert_eq!(builder.numeric_columns(&none), vec![false, false]);
    assert_eq!(builder.build(&none), "a b\n- -\n1 2\n3 4");
    let some = vec![vec![], vec![Some("1".to_string())], vec![Some("3".to_string())]];
    assert_eq!(builder.numeric_columns(&some), vec![true, false]);
}

#[test]
fn a_column_without_data_is_numeric() {
    let builder = TableBuilder::new(Some("only header".to_string()));
    let read = readings(&builder.cells_to_read(), false, 2);
    assert_eq!(builder.numeric_columns(&read), vec![true, true]);
    assert_eq!(builder.build(&read), "only header\n---- ------");
}

#[test]
fn empty_separator_splits_between_characters() {
    let grid = parse("abc", "");
    assert_eq!(
        grid,
        vec![vec![
            String::new(),
            "a".to_string(),
            "b".to_string(),
            "c".to_string(),
            String::new()
        ]]
    );
}

#[test]
fn builder_defaults() {
    let builder = Builder::new("a b");
    assert_eq!(builder.ifs, " ");
    assert_eq!(builder.ofs, " ");
    assert_eq!(builder.header_row, 0);
    assert_eq!(builder.max_width_row, 0);
    assert_eq!(builder.format_string_row, 0);
    assert!(!builder.no_divider);
    assert_eq!(builder.divider_char, '-');
    assert_eq!(builder.max_text_width, 40);
    assert!(!builder.pad_decimal_digits);
    assert_eq!(builder.max_decimal_digits, 2);
    assert_eq!(builder.decimal_separator, '.');
    assert!(!builder.add_thousand_separator);
    assert_eq!(builder.thousand_separator, ',');
    let read = readings(&builder.cells_to_read(), false, 2);
    assert_eq!(builder.format(&read), "- -\na b");
}

#[test]
fn builder_settings() {
    let builder = Builder::new("n;w\n3;9\n1234,5;some long text")
        .ifs(";")
        .ofs(" | ")
        .header_row(1)
        .max_width_row(2)
        .no_divider(false)
        .divider_char('=')
        .max_text_width(12)
        .pad_decimal_digits(true)
        .max_decimal_digits(1)
        .decimal_separator(',')
        .add_thousand_separator(true)
        .thousand_separator('.');
    let cells = builder.cells_to_read();
    assert_eq!(cells[2][0], "1234.5");
    let read = readings(&cells, true, 1);
    assert_eq!(
        builder.format(&read),
        "  n | w        \n=== | =========\n1.234,5 | some l..."
    );
}

#[test]
fn table_builder_default() {
    let builder = TableBuilder::default();
    assert_eq!(builder.input, None);
    assert_eq!(builder.ifs, " ");
    assert_eq!(builder.ofs, " ");
    assert_eq!(builder.header_index, 1);
    assert_eq!(builder.header_count, 1);
    assert_eq!(builder.column_width_limits_index, 0);
    assert!(!builder.no_divider);
    assert_eq!(builder.divider_char, '-');
    assert_eq!(builder.max_cell_width, 80);
    assert_eq!(builder.frame, Frame::TRUNCATE);
    assert_eq!(builder.alignment, Alignment::AUTO);
}

#[test]
fn run_without_a_text_width_has_no_limit() {
    let input = "Name Price\nA-very-long-name-indeed 9.5";
    let cells = tablefmt::columnizer::cells_to_read(input, " ", '.', ',');
    let read = readings(&cells, false, 2);
    let table = run(input, " ", " ", 1, 0, 0, false, '-', 0, '.', false, ',', &read);
    assert_eq!(
        table,
        "Name                    Price\n----------------------- -----\nA-very-long-name-indeed   9.5"
    );
    let builder = Builder::new(input).header_row(1).max_text_width(0);
    assert_eq!(builder.format(&read), table);
    let mut same = TableBuilder::new(Some(input.to_string()));
    same.set_max_cell_width(usize::MAX);
    assert_eq!(same.column_width_limits(), vec![usize::MAX, usize::MAX]);
    assert_eq!(same.column_widths(&read), vec![23, 5]);
    assert_eq!(same.build(&read), table);
}

#[test]
fn a_limit_of_zero_leaves_no_width() {
    let mut builder = TableBuilder::new(Some("Name Price\nA-very-long-name-indeed 9.5".to_string()));
    builder.set_max_cell_width(0);
    let read = readings(&builder.cells_to_read(), false, 2);
    assert_eq!(builder.column_width_limits(), vec![0, 0]);
    assert_eq!(builder.header_column_widths(), vec![0, 0]);
    assert_eq!(builder.data_column_widths(&read), vec![0, 0]);
    assert_eq!(builder.column_widths(&read), vec![0, 0]);
    assert_eq!(builder.build(&read), " \n \n 9.5");
}

#[test]
fn no_column_is_wider_than_its_limit() {
    let input = "3 0 x 12\nname city note n\nAlexander Rio something 1234567\nBo Ulaanbaatar - 2";
    for max in [0, 1, 4, 7, 80, usize::MAX] {
        for frame in [Frame::TRUNCATE, Frame::WRAP, Frame::NONE] {
            for limits_index in [0, 1] {
                let mut builder = TableBuilder::new(Some(input.to_string()));
                builder
                    .set_header_index(2)
                    .set_column_width_limits_index(limits_index)
                    .set_max_cell_width(max)
                    .set_frame(frame);
                let read = readings(&builder.cells_to_read(), false, 2);
                let limits = builder.column_width_limits();
                let widths = builder.column_widths(&read);
                assert_eq!(limits.len(), widths.len());
                for (width, limit) in widths.iter().zip(limits.iter()) {
                    assert!(width <= limit, "{} {}", width, limit);
                }
                assert_eq!(builder.column_widths(&read), widths);
            }
        }
    }
}

#[test]
fn templates_take_the_cells() {
    let input = "item,price\n<{}>,$ {} ({})\nnut,1.5\nbolt,12";
    let cells = tablefmt::columnizer::cells_to_read(input, ",", '.', ',');
    let read = readings(&cells, true, 2);
    let table = run(input, ",", " | ", 1, 0, 2, false, '-', 40, '.', false, ',', &read);
    assert_eq!(
        table,
        "<item> | $ price (price)\n---- | -----\n<nut> | $ 1.50 (1.50)\n<bolt> | $ 12.00 (12.00)"
    );
    let builder = Builder::new(input).ifs(",").header_row(1).format_string_row(2);
    assert_eq!(builder.format_string_row, 2);
    let read = readings(&builder.cells_to_read(), false, 2);
    assert_eq!(
        builder.format(&read),
        "<item> $ price (price)\n---- -----\n<nut> $ 1.5 (1.5)\n<bolt> $ 12 (12)"
    );
}

#[test]
fn a_column_without_a_template_is_padded() {
    let mut builder = TableBuilder::new(Some("a b\n[{}]\nxyz 1\nq 22".to_string()));
    builder.set_header_index(1).set_format_string_index(2);
    let read = readings(&builder.cells_to_read(), false, 2);
    assert_eq!(builder.numeric_columns(&read), vec![false, true]);
    assert_eq!(
        builder.data(&read),
        vec![
            vec!["xyz".to_string(), "1".to_string()],
            vec!["q".to_string(), "22".to_string()],
        ]
    );
    assert_eq!(builder.build(&read), "[a]  b\n--- --\n[xyz]  1\n[q] 22");
}

#[test]
fn every_line_is_as_wide_as_the_columns() {
    let mut builder = TableBuilder::new(Some(
        "name;amount;note\nAlexander the Great;12.5;a very long note indeed\n日本語;1234567;x\nB;7;".to_string(),
    ));
    builder
        .set_ifs(";".to_string())
        .set_ofs(" | ".to_string())
        .set_max_cell_width(10)
        .set_use_thousand_separator(true);
    let read = readings(&builder.cells_to_read(), false, 2);
    let widths = builder.column_widths(&read);
    assert_eq!(widths, vec![10, 9, 10]);
    let full: usize = widths.iter().sum::<usize>() + (widths.len() - 1) * display_width(" | ");
    let table = builder.build(&read);
    let lines: Vec<&str> = table.lines().collect();
    assert_eq!(lines.len(), 5);
    for line in &lines[..4] {
        assert_eq!(display_width(line), full, "{:?}", line);
    }
    assert!(display_width(lines[4]) <= full);
    assert_eq!(lines[1], "---------- | --------- | ----------");
    assert_eq!(lines[2], "Alexand... |      12.5 | a very... ");
    assert_eq!(lines[0].len(), full);
}
