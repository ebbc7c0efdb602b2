use rowgen::parse::char_digit;
use rowgen::parse::parse_row_count;
use rowgen::render::generate_csv;
use rowgen::render::header_line;
use rowgen::render::render_row;
use rowgen::render::WriteStrategy;
use rowgen::rows::generate_rows;
use rowgen::rows::Row;
use rowgen::rows::Rows;
use rowgen::text::digit_str;
use rowgen::text::usize_to_string;
use rowgen::text::zeros_string;

#[test]
fn three_rows_manual() {
    let out = generate_csv(3, WriteStrategy::ManualFormat);
    assert_eq!(out, "line,message\n1,0\n2,00\n3,000\n");
}

#[test]
fn three_rows_encoder() {
    let out = generate_csv(3, WriteStrategy::GenericRecord);
    assert_eq!(out, "line,message\n1,0\n2,00\n3,000\n");
}

#[test]
fn strategies_agree() {
    for n in 0..20 {
        assert_eq!(
            generate_csv(n, WriteStrategy::ManualFormat),
            generate_csv(n, WriteStrategy::GenericRecord)
        );
    }
}

#[test]
fn zero_rows_header_only() {
    assert_eq!(generate_csv(0, WriteStrategy::ManualFormat), "line,message\n");
    assert_eq!(generate_csv(0, WriteStrategy::GenericRecord), "line,message\n");
}

#[test]
fn line_count_is_rows_plus_header() {
    for n in [0usize, 1, 2, 7, 40] {
        let out = generate_csv(n, WriteStrategy::ManualFormat);
        assert_eq!(out.lines().count(), n + 1);
    }
}

#[test]
fn each_data_line_has_index_and_zeros() {
    let n = 12;
    let out = generate_csv(n, WriteStrategy::GenericRecord);
    let lines: Vec<&str> = out.lines().collect();
    assert_eq!(lines[0], "line,message");
    for i in 1..=n {
        assert_eq!(lines[i], format!("{},{}", i, "0".repeat(i)));
    }
}

#[test]
fn rerun_produces_identical_content() {
    let first = generate_csv(9, WriteStrategy::ManualFormat);
    let second = generate_csv(9, WriteStrategy::ManualFormat);
    assert_eq!(first, second);
}

#[test]
fn generated_rows_are_in_order() {
    let rows = generate_rows(4);
    assert_eq!(rows.len(), 4);
    let items = rows.iter();
    for (k, row) in items.iter().enumerate() {
        assert_eq!(row.line, k + 1);
        assert_eq!(row.message, "0".repeat(k + 1));
    }
}

#[test]
fn rows_collects_in_insertion_order() {
    let mut rows = Rows::new();
    assert_eq!(rows.len(), 0);
    rows.add(Row { line: 1, message: String::from("0") });
    rows.add(Row { line: 2, message: String::from("00") });
    assert_eq!(rows.len(), 2);
    assert_eq!(rows.iter()[0].line, 1);
    assert_eq!(rows.iter()[1].message, "00");
}

#[test]
fn render_row_both_strategies() {
    let row = Row { line: 2, message: String::from("00") };
    assert_eq!(render_row(&row, WriteStrategy::ManualFormat), "2,00\n");
    assert_eq!(render_row(&row, WriteStrategy::GenericRecord), "2,00\n");
}

#[test]
fn header_text() {
    assert_eq!(header_line(), "line,message");
}

#[test]
fn decimal_formatting() {
    assert_eq!(usize_to_string(0), "0");
    assert_eq!(usize_to_string(7), "7");
    assert_eq!(usize_to_string(10), "10");
    assert_eq!(usize_to_string(907), "907");
    assert_eq!(usize_to_string(usize::MAX), usize::MAX.to_string());
}

#[test]
fn zeros_strings() {
    assert_eq!(zeros_string(0), "");
    assert_eq!(zeros_string(5), "00000");
}

#[test]
fn digit_pieces() {
    assert_eq!(digit_str(0), "0");
    assert_eq!(digit_str(9), "9");
    assert_eq!(char_digit('4'), Some(4));
    assert_eq!(char_digit('x'), None);
}

#[test]
fn parse_accepts_digit_strings() {
    assert_eq!(parse_row_count("0"), Some(0));
    assert_eq!(parse_row_count("3"), Some(3));
    assert_eq!(parse_row_count("0042"), Some(42));
    assert_eq!(parse_row_count(&usize::MAX.to_string()), Some(usize::MAX));
}

#[test]
fn parse_rejects_bad_row_counts() {
    assert_eq!(parse_row_count(""), None);
    assert_eq!(parse_row_count("abc"), None);
    assert_eq!(parse_row_count("-5"), None);
    assert_eq!(parse_row_count("+5"), None);
    assert_eq!(parse_row_count("1 2"), None);
    assert_eq!(parse_row_count("12x"), None);
    let too_big = (usize::MAX as u128 + 1).to_string();
    assert_eq!(parse_row_count(&too_big), None);
}

#[test]
fn round_trip_format_then_parse() {
    for n in [0usize, 1, 9, 10, 99, 100, 123456] {
        assert_eq!(parse_row_count(&usize_to_string(n)), Some(n));
    }
}
