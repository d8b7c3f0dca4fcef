use http_field::field::{Field, ParseError};
use http_field::text::{contains_whitespace, decimal_string, find_char, is_whitespace, trim_whitespace};

fn assert_field_eq(name: &str, value: &str, actual: &Field) {
    assert_eq!(String::from(name), actual.name);
    assert_eq!(String::from(value), actual.value);
}

fn assert_parse_error(message: &str, result: Result<Field, ParseError>) {
    match result {
        Ok(field) => panic!("expected a parse error, got {:?}", field),
        Err(e) => {
            assert_eq!(ParseError::InvalidField, e);
            assert_eq!(message, e.to_string());
        }
    }
}

#[test]
fn new() {
    let field = Field::new(String::from("foo"), String::from("bar"));
    assert_field_eq("foo", "bar", &field);
}

#[test]
fn new_contentlength() {
    let field = Field::new_contentlength(42);
    assert_field_eq("Content-Length", "42", &field);
}

#[test]
fn from_empty_string() {
    let result = Field::from(String::from(""));
    assert_parse_error("HTTP parsing error: Invalid field", result);
}

#[test]
fn from_invalid_name_string() {
    let result = Field::from(String::from("Invalid Foo: Bar"));
    assert_parse_error("HTTP parsing error: Invalid field", result);
}

#[test]
fn from_invalid_value_string() {
    let result = Field::from(String::from("Foo: Invalid\nBar"));
    assert_parse_error("HTTP parsing error: Invalid field", result);
}

#[test]
fn from_valid_string() {
    // Without whitespace.
    let field = Field::from(String::from("Foo:Bar")).unwrap();
    assert_field_eq("Foo", "Bar", &field);

    // Whitespace around the value is removed.
    let field = Field::from(String::from("Foo: \t bar bug \t ")).unwrap();
    assert_field_eq("Foo", "bar bug", &field);
}

#[test]
fn display() {
    let field = Field::new(String::from("foo"), String::from("bar"));
    assert_eq!("foo: bar", field.to_string());
}

#[test]
fn from_without_colon() {
    for line in ["Foo", "Foo Bar", "   ", "\n", "Content-Length 42"] {
        assert_parse_error("HTTP parsing error: Invalid field", Field::from(String::from(line)));
    }
}

#[test]
fn from_tab_in_name() {
    assert_parse_error("HTTP parsing error: Invalid field", Field::from(String::from("Fo\to: bar")));
}

#[test]
fn from_unicode_space_in_name() {
    assert_parse_error(
        "HTTP parsing error: Invalid field",
        Field::from(String::from("Fo\u{3000}o: bar")),
    );
}

#[test]
fn from_leading_space_in_name() {
    assert_parse_error("HTTP parsing error: Invalid field", Field::from(String::from(" Foo: bar")));
}

#[test]
fn from_empty_name() {
    let field = Field::from(String::from(":bar")).unwrap();
    assert_field_eq("", "bar", &field);
}

#[test]
fn from_empty_value() {
    let field = Field::from(String::from("Foo: \t ")).unwrap();
    assert_field_eq("Foo", "", &field);
}

#[test]
fn from_splits_at_first_colon() {
    let field = Field::from(String::from("Host: example.com:8080")).unwrap();
    assert_field_eq("Host", "example.com:8080", &field);
}

#[test]
fn from_carriage_return_in_value() {
    let field = Field::from(String::from("Foo: a\rb")).unwrap();
    assert_field_eq("Foo", "a\rb", &field);
}

#[test]
fn from_trailing_line_feed_is_trimmed() {
    let field = Field::from(String::from("Foo: bar\r\n")).unwrap();
    assert_field_eq("Foo", "bar", &field);
}

#[test]
fn from_unicode_characters() {
    let field = Field::from(String::from("X-Grüße:\u{a0}héllo wörld\u{2003}")).unwrap();
    assert_field_eq("X-Grüße", "héllo wörld", &field);
}

#[test]
fn render_then_parse() {
    let field = Field::new(String::from("Accept"), String::from("text/html, */*"));
    let line = field.to_string();
    assert_eq!("Accept: text/html, */*", line);
    assert_eq!(field, Field::from(line).unwrap());
}

#[test]
fn render_empty_value() {
    let field = Field::new(String::from("X"), String::new());
    assert_eq!("X: ", field.to_string());
}

#[test]
fn contentlength_edges() {
    assert_field_eq("Content-Length", "0", &Field::new_contentlength(0));
    assert_field_eq("Content-Length", "10", &Field::new_contentlength(10));
    assert_field_eq("Content-Length", "1000", &Field::new_contentlength(1000));
    let max = Field::new_contentlength(usize::MAX);
    assert_field_eq("Content-Length", &usize::MAX.to_string(), &max);
    assert_eq!(format!("Content-Length: {}", usize::MAX), max.to_string());
}

#[test]
fn decimal_digits() {
    assert_eq!("7", decimal_string(7));
    assert_eq!("42", decimal_string(42));
    assert_eq!("100", decimal_string(100));
    assert_eq!("18446744073709551615", decimal_string(18446744073709551615));
}

#[test]
fn whitespace_class() {
    for c in ['\t', '\n', '\u{b}', '\u{c}', '\r', ' ', '\u{85}', '\u{a0}', '\u{1680}', '\u{2000}',
        '\u{200a}', '\u{2028}', '\u{2029}', '\u{202f}', '\u{205f}', '\u{3000}'] {
        assert!(is_whitespace(c));
        assert_eq!(c.is_whitespace(), is_whitespace(c));
    }
    for c in ['a', ':', '\u{0}', '\u{8}', '\u{e}', '\u{1f}', '\u{200b}', '\u{feff}', 'é'] {
        assert!(!is_whitespace(c));
        assert_eq!(c.is_whitespace(), is_whitespace(c));
    }
}

#[test]
fn whitespace_class_matches_std() {
    for x in 0u32..0x3100 {
        if let Some(c) = char::from_u32(x) {
            assert_eq!(c.is_whitespace(), is_whitespace(c), "U+{:04X}", x);
        }
    }
}

#[test]
fn trim_and_search() {
    assert_eq!("a b", trim_whitespace(" \t a b \u{3000}"));
    assert_eq!("", trim_whitespace(" \t "));
    assert_eq!("", trim_whitespace(""));
    assert_eq!(Some(2), find_char("ab:c:d", ':'));
    assert_eq!(Some(0), find_char("éé:", 'é'));
    assert_eq!(Some(2), find_char("éé:", ':'));
    assert_eq!(None, find_char("abc", ':'));
    assert!(contains_whitespace("a\u{2028}b"));
    assert!(!contains_whitespace("Content-Length"));
}

#[test]
fn round_trip_of_name_and_value() {
    let value = "  some value\twith tabs  ";
    let field = Field::from(format!("{}:{}", "X-Name", value)).unwrap();
    assert_field_eq("X-Name", value.trim(), &field);
}
