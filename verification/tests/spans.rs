use rust_csv_reader::parser::fields::RowSpanIterator;
use rust_csv_reader::parser::{
    try_parse, try_parse_with, BoolParser, FieldParser, ParseContext, ParseError, StringParser,
};
use rust_csv_reader::span::{find_from, is_whitespace_byte, trim};
use rust_csv_reader::{RowIterator, COMMA, NEWLINE, SEMICOLON};

fn rows(data: &[u8]) -> Vec<&[u8]> {
    RowIterator::new(data).collect()
}

fn fields(row: &[u8], delimiter: u8) -> Vec<Vec<u8>> {
    let context = ParseContext::new(delimiter);
    RowSpanIterator::new(&context, row)
        .collect()
        .iter()
        .map(|field| field.to_vec())
        .collect()
}

#[test]
fn feature() {
    let data = b"header1,header-2\nvalue-1,value2\n";
    let iterator = RowIterator::new(data);

    let lines: Vec<_> = iterator.collect();

    assert_eq!(lines[0], b"header1,header-2");
    assert_eq!(lines[1], b"value-1,value2");
}

#[test]
fn parse_true_value_returns_ok() {
    let result = BoolParser::parse(b" true  ");
    assert!(result.is_ok());
    assert_eq!(true, result.unwrap());
}

#[test]
fn parse_false_value_returns_ok() {
    let result = BoolParser::parse(b"  false ");
    assert!(result.is_ok());
    assert_eq!(false, result.unwrap());
}

#[test]
fn mod_parse_when_valid_string_returns_ok() {
    let result = StringParser::parse(b"Hello, world!");

    assert!(result.is_ok());

    let value = result.unwrap();

    assert_eq!(value, "Hello, world!");
}

#[test]
fn mod_parse_when_invalid_utf8_string_returns_err() {
    let result = StringParser::parse(b"AB\xfc");

    assert!(result.is_err());
}

#[test]
fn reader_parse_when_valid_string_returns_ok() {
    let result = StringParser::parse(b"Hello, world!");

    assert!(result.is_ok());

    let value = result.unwrap();

    assert_eq!(value, "Hello, world!");
}

#[test]
fn reader_parse_when_invalid_utf8_string_returns_err() {
    let result = StringParser::parse(b"AB\xfc");

    assert!(result.is_err());
}

#[test]
fn rows_end_at_each_newline() {
    assert_eq!(rows(b"a\nbc\n"), vec![&b"a"[..], &b"bc"[..]]);
    assert_eq!(rows(b"\n\n"), vec![&b""[..], &b""[..]]);
}

#[test]
fn rows_of_an_empty_buffer_are_none() {
    assert!(rows(b"").is_empty());
}

#[test]
fn rows_drop_an_unfinished_last_line() {
    assert_eq!(rows(b"a\nb"), vec![&b"a"[..]]);
    assert!(rows(b"no newline at all").is_empty());
}

#[test]
fn rows_hold_no_newline() {
    let data = b"one;1\ntwo;2\n\nthree;3\nrest";
    let lines = rows(data);
    assert_eq!(lines.len(), data.iter().filter(|b| **b == NEWLINE).count());
    for line in lines {
        assert!(!line.contains(&NEWLINE));
    }
}

#[test]
fn row_iterator_steps_one_row_at_a_time() {
    let mut iterator = RowIterator::new(b"a\nb\nc");
    assert_eq!(iterator.next(), Some(&b"a"[..]));
    assert_eq!(iterator.next(), Some(&b"b"[..]));
    assert_eq!(iterator.next(), None);
    assert_eq!(iterator.next(), None);
}

#[test]
fn fields_are_one_more_than_delimiters() {
    assert_eq!(fields(b"a;b;c", SEMICOLON), vec![b"a".to_vec(), b"b".to_vec(), b"c".to_vec()]);
    assert_eq!(fields(b"a;b;", SEMICOLON), vec![b"a".to_vec(), b"b".to_vec(), b"".to_vec()]);
    assert_eq!(fields(b";", SEMICOLON), vec![b"".to_vec(), b"".to_vec()]);
    assert_eq!(fields(b"", SEMICOLON), vec![b"".to_vec()]);
    assert_eq!(fields(b"abc", SEMICOLON), vec![b"abc".to_vec()]);
}

#[test]
fn fields_between_adjacent_delimiters_are_empty() {
    assert_eq!(fields(b"a,,b", COMMA), vec![b"a".to_vec(), b"".to_vec(), b"b".to_vec()]);
}

#[test]
fn fields_follow_the_delimiter_of_the_context() {
    assert_eq!(fields(b"a,b;c", COMMA), vec![b"a".to_vec(), b"b;c".to_vec()]);
    assert_eq!(fields(b"a,b;c", SEMICOLON), vec![b"a,b".to_vec(), b"c".to_vec()]);
}

#[test]
fn field_iterator_ends_after_the_last_field() {
    let context = ParseContext::default();
    let mut iterator = RowSpanIterator::new(&context, b"x;");
    assert_eq!(iterator.next(), Some(&b"x"[..]));
    assert_eq!(iterator.next(), Some(&b""[..]));
    assert_eq!(iterator.next(), None);
    assert_eq!(iterator.next(), None);
}

#[test]
fn default_context_separates_by_semicolon() {
    assert_eq!(ParseContext::default().delimiter, SEMICOLON);
    assert_eq!(ParseContext::default().delimiter, b';');
    assert_eq!(ParseContext::new(COMMA).delimiter, b',');
    assert_eq!(NEWLINE, b'\n');
}

#[test]
fn find_from_gives_the_first_occurrence_behind_the_start() {
    assert_eq!(find_from(b"a;b;c", 0, b';'), Some(1));
    assert_eq!(find_from(b"a;b;c", 1, b';'), Some(1));
    assert_eq!(find_from(b"a;b;c", 2, b';'), Some(3));
    assert_eq!(find_from(b"a;b;c", 4, b';'), None);
    assert_eq!(find_from(b"a;b;c", 5, b';'), None);
}

#[test]
fn trim_removes_whitespace_at_both_ends_only() {
    assert_eq!(trim(b"  a b \t\r\n"), b"a b");
    assert_eq!(trim(b"\x0b\x0ca"), b"a");
    assert_eq!(trim(b"a"), b"a");
    assert_eq!(trim(b""), b"");
    assert_eq!(trim(b" \t "), b"");
}

#[test]
fn whitespace_is_the_space_and_the_tab_to_carriage_return_range() {
    for byte in 0u8..=255 {
        let expected = byte == b' ' || (9..=13).contains(&byte);
        assert_eq!(is_whitespace_byte(byte), expected);
    }
}

#[test]
fn trim_keeps_whitespace_that_is_not_ascii() {
    let text = "\u{a0}x\u{a0}".as_bytes();
    assert_eq!(trim(text), text);
}

#[test]
fn string_is_trimmed() {
    assert_eq!(StringParser::parse(b"  world! "), Ok("world!".to_string()));
    assert_eq!(StringParser::parse(b"   "), Ok(String::new()));
    assert_eq!(StringParser::parse(b""), Ok(String::new()));
}

#[test]
fn string_keeps_characters_beyond_ascii() {
    assert_eq!(StringParser::parse("  gr\u{fc}n ".as_bytes()), Ok("gr\u{fc}n".to_string()));
}

#[test]
fn string_fails_on_invalid_utf8_with_its_own_error() {
    assert_eq!(StringParser::parse(b"AB\xfc"), Err(ParseError::InvalidText));
    assert_eq!(StringParser::parse(b" \xff "), Err(ParseError::InvalidText));
}

#[test]
fn bool_reads_exactly_true_and_false() {
    assert_eq!(BoolParser::parse(b" true "), Ok(true));
    assert_eq!(BoolParser::parse(b" false"), Ok(false));
    assert_eq!(BoolParser::parse(b"nope"), Err(ParseError::InvalidBool));
    assert_eq!(BoolParser::parse(b"True"), Err(ParseError::InvalidBool));
    assert_eq!(BoolParser::parse(b"FALSE"), Err(ParseError::InvalidBool));
    assert_eq!(BoolParser::parse(b"truee"), Err(ParseError::InvalidBool));
    assert_eq!(BoolParser::parse(b"tru"), Err(ParseError::InvalidBool));
    assert_eq!(BoolParser::parse(b"t rue"), Err(ParseError::InvalidBool));
    assert_eq!(BoolParser::parse(b""), Err(ParseError::InvalidBool));
}

#[test]
fn try_parse_gives_no_value_where_decoding_fails() {
    assert_eq!(try_parse::<bool>(b" true "), Some(true));
    assert_eq!(try_parse::<bool>(b" false"), Some(false));
    assert_eq!(try_parse::<bool>(b"nope"), None);
    assert_eq!(try_parse::<String>(b" foo "), Some("foo".to_string()));
    assert_eq!(try_parse::<String>(b"AB\xfc"), None);
    assert_eq!(try_parse_with::<bool, BoolParser>(b"false"), Some(false));
    assert_eq!(try_parse_with::<String, StringParser>(b"\xfc"), None);
}

#[test]
fn error_messages_name_the_failure() {
    assert_eq!(ParseError::InvalidText.message(), "Parse error: the field is not valid UTF-8");
    assert_eq!(ParseError::InvalidNumber.message(), "Parse error: the field is not a number");
    assert_eq!(
        ParseError::InvalidBool.message(),
        "Parse error: the field is neither true nor false"
    );
}
