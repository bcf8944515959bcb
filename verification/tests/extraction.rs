use prometheus_csv_adapter::{
    extract, parse_input, Config, Destination, ExtractionError, Input, Output,
};

fn config(
    delimiter: Option<char>,
    has_headers: bool,
    prefix: &str,
    numeric_values_only: bool,
    skip_duplicate_headers: bool,
) -> Config {
    Config {
        input: Input { file: String::from("metrics.csv"), delimiter, has_headers },
        output: Output {
            destination: Destination::Socket(String::from("127.0.0.1:9000")),
            prefix: String::from(prefix),
            numeric_values_only,
            skip_duplicate_headers,
        },
    }
}

#[test]
fn last_row_is_rendered_under_the_headers() {
    let cfg = config(None, true, "app_", false, false);
    let text = parse_input(b"a,b\n1,2\n3,4\n", &cfg).unwrap();
    assert_eq!(text, "# a\napp_a  3\n\n# b\napp_b  4\n\n");
}

#[test]
fn numeric_filter_applies_to_the_last_row() {
    let cfg = config(None, true, "app_", true, false);
    let text = parse_input(b"a,b\n1,x\n3,oops\n", &cfg).unwrap();
    assert_eq!(text, "# a\napp_a  3\n\n# skipped: 'b' 'oops'\n\n");
    assert!(text.contains("app_a  3\n"));
    assert!(!text.contains("app_b"));
}

#[test]
fn appended_row_replaces_the_one_before() {
    let cfg = config(None, true, "", false, false);
    let before = parse_input(b"a,b\n1,2\n3,4\n", &cfg).unwrap();
    let after = parse_input(b"a,b\n1,2\n3,4\n5,6\n", &cfg).unwrap();
    assert_eq!(before, "# a\na  3\n\n# b\nb  4\n\n");
    assert_eq!(after, "# a\na  5\n\n# b\nb  6\n\n");
    assert!(!after.contains('3') && !after.contains('4'));
    let alone = parse_input(b"a,b\n5,6\n", &cfg).unwrap();
    assert_eq!(after, alone);
}

#[test]
fn last_row_without_a_line_end_counts() {
    let cfg = config(None, true, "", false, false);
    assert_eq!(parse_input(b"a,b\n1,2\n3,4", &cfg).unwrap(), "# a\na  3\n\n# b\nb  4\n\n");
}

#[test]
fn empty_source_gives_an_empty_snapshot() {
    assert_eq!(parse_input(b"", &config(None, true, "app_", false, false)), Ok(String::new()));
    assert_eq!(parse_input(b"", &config(None, false, "app_", false, false)), Ok(String::new()));
}

#[test]
fn headers_without_rows_give_an_empty_snapshot() {
    let cfg = config(None, true, "app_", false, false);
    assert_eq!(parse_input(b"a,b\n", &cfg), Ok(String::new()));
    assert_eq!(parse_input(b"a\xff,b\n", &cfg), Ok(String::new()));
}

#[test]
fn without_a_header_row_the_first_row_names_the_columns() {
    let cfg = config(None, false, "", false, false);
    assert_eq!(parse_input(b"1,2\n3,4\n", &cfg).unwrap(), "# 1\n1  3\n\n# 2\n2  4\n\n");
    assert_eq!(parse_input(b"a,b\n", &cfg).unwrap(), "# a\na  a\n\n# b\nb  b\n\n");
}

#[test]
fn configured_delimiter_separates_the_fields() {
    let semicolon = config(Some(';'), true, "", false, false);
    assert_eq!(parse_input(b"a;b\n1,5;2\n", &semicolon).unwrap(), "# a\na  1,5\n\n# b\nb  2\n\n");
    let tab = config(Some('\t'), true, "", false, false);
    assert_eq!(parse_input(b"a\tb\n1\t2\n", &tab).unwrap(), "# a\na  1\n\n# b\nb  2\n\n");
    let comma = config(None, true, "", false, false);
    assert_eq!(parse_input(b"a;b\n1;2\n", &comma).unwrap(), "# a;b\na_b  1;2\n\n");
}

#[test]
fn delimiter_is_the_low_byte_of_the_configured_character() {
    let cfg = config(Some('\u{13b}'), true, "", false, false);
    assert_eq!(cfg.input.delimiter_byte(), b';');
    assert_eq!(parse_input(b"a;b\n1;2\n", &cfg).unwrap(), "# a\na  1\n\n# b\nb  2\n\n");
    assert_eq!(config(None, true, "", false, false).input.delimiter_byte(), b',');
    assert_eq!(config(Some('|'), true, "", false, false).input.delimiter_byte(), b'|');
}

#[test]
fn quoted_fields_are_unquoted() {
    let cfg = config(None, true, "", false, false);
    let text = parse_input(b"\"first, second\",b\n\"say \"\"hi\"\"\",\"2\"\n", &cfg).unwrap();
    assert_eq!(text, "# first, second\nfirst_second  say \"hi\"\n\n# b\nb  2\n\n");
}

#[test]
fn blank_lines_are_no_rows() {
    let cfg = config(None, true, "", false, false);
    assert_eq!(parse_input(b"a\n1\n\n\n2\n\n", &cfg).unwrap(), "# a\na  2\n\n");
}

#[test]
fn row_of_another_length_fails_the_extraction() {
    let cfg = config(None, true, "", false, false);
    assert_eq!(parse_input(b"a,b\n1,2\n3\n", &cfg), Err(ExtractionError::MalformedRecord));
    assert_eq!(parse_input(b"a,b\n1,2,3\n", &cfg), Err(ExtractionError::MalformedRecord));
}

#[test]
fn malformed_row_fails_the_extraction_wherever_it_stands() {
    let cfg = config(None, true, "", false, false);
    assert_eq!(parse_input(b"a,b\n1\n3,4\n", &cfg), Err(ExtractionError::MalformedRecord));
    assert_eq!(parse_input(b"a,b\n1,\xff\n3,4\n", &cfg), Err(ExtractionError::MalformedRecord));
}

#[test]
fn row_that_is_not_utf8_fails_the_extraction() {
    let cfg = config(None, true, "", false, false);
    assert_eq!(parse_input(b"a,b\n1,\xff\xfe\n", &cfg), Err(ExtractionError::MalformedRecord));
    let bare = config(None, false, "", false, false);
    assert_eq!(parse_input(b"\xff,b\n1,2\n", &bare), Err(ExtractionError::MalformedRecord));
}

#[test]
fn header_that_is_not_utf8_fails_the_extraction_once_there_are_rows() {
    let cfg = config(None, true, "", false, false);
    assert_eq!(parse_input(b"a\xff,b\n1,2\n", &cfg), Err(ExtractionError::MalformedHeader));
}

#[test]
fn repeated_headers_are_skipped_in_the_last_row() {
    let cfg = config(None, true, "", false, true);
    assert_eq!(
        parse_input(b"x,y,x\n1,2,3\n4,5,6\n", &cfg).unwrap(),
        "# x\nx  4\n\n# y\ny  5\n\n# skipped: 'x' '6'\n\n"
    );
}

#[test]
fn text_beyond_ascii_is_kept() {
    let cfg = config(None, true, "", false, false);
    let source = "Größe,温度,ÉTÉ\n1,2,3\n".as_bytes();
    assert_eq!(
        parse_input(source, &cfg).unwrap(),
        "# Größe\ngröße  1\n\n# 温度\n温度  2\n\n# ÉTÉ\nété  3\n\n"
    );
}

#[test]
fn extraction_reads_the_rows_and_not_the_bytes() {
    let cfg = config(None, true, "", false, false);
    let source = b"a,b\n1,2\n3,4\n";
    let text = parse_input(source, &cfg).unwrap();
    assert_ne!(text.as_bytes(), source);
    assert_eq!(text.lines().filter(|l| l.starts_with("# ")).count(), 2);
    assert!(!text.contains("1") && !text.contains("2"));
}

#[test]
fn unreadable_source_is_an_error() {
    let cfg = config(None, true, "", false, false);
    assert_eq!(extract(None, &cfg), Err(ExtractionError::SourceUnavailable));
}

#[test]
fn readable_source_is_parsed() {
    let cfg = config(None, true, "app_", false, false);
    let source: &[u8] = b"a,b\n1,2\n3,4\n";
    assert_eq!(extract(Some(source), &cfg), parse_input(source, &cfg));
    assert_eq!(extract(Some(source), &cfg).unwrap(), "# a\napp_a  3\n\n# b\napp_b  4\n\n");
}

#[test]
fn every_byte_can_be_the_delimiter() {
    let source = b"a,b;c\td\"e\"f\r\ng\n1,2;3\t4\"5\"6\r\n7\n\xff\n";
    for byte in 0u32..256 {
        let delimiter = char::from_u32(byte).unwrap();
        let cfg = config(Some(delimiter), true, "", false, false);
        assert_eq!(cfg.input.delimiter_byte() as u32, byte);
        let _ = parse_input(source, &cfg);
        let bare = config(Some(delimiter), false, "", true, true);
        let _ = parse_input(source, &bare);
        assert_eq!(parse_input(b"", &cfg), Ok(String::new()));
    }
}

#[test]
fn header_does_not_depend_on_the_header_flag() {
    let with = config(None, true, "", false, false);
    let without = config(None, false, "", false, false);
    let source = b"x,y\n1,2\n";
    assert_eq!(parse_input(source, &with), parse_input(source, &without));
    assert_eq!(parse_input(source, &with).unwrap(), "# x\nx  1\n\n# y\ny  2\n\n");
}
