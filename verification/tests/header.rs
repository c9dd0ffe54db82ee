use aspeak::{parse_header, ArgsError, Header};

fn parts(header: &Header) -> (&str, &str) {
    (header.name(), header.value())
}

#[test]
fn header_is_split_at_the_first_equals_sign() {
    assert_eq!(parts(&parse_header("key=value").unwrap()), ("key", "value"));
    assert_eq!(parts(&parse_header("key=a=b=c").unwrap()), ("key", "a=b=c"));
    assert_eq!(parts(&parse_header("key==").unwrap()), ("key", "="));
    assert_eq!(parts(&parse_header("key=").unwrap()), ("key", ""));
}

#[test]
fn header_name_comes_out_in_lower_case() {
    assert_eq!(parts(&parse_header("Content-Type=Text/Plain").unwrap()), ("content-type", "Text/Plain"));
    assert_eq!(parts(&parse_header("X-ABC_z9=1").unwrap()), ("x-abc_z9", "1"));
    assert_eq!(parts(&Header::new("ACCEPT", "A").unwrap()), ("accept", "A"));
    assert_eq!(parts(&parse_header("!#$%&'*+-.^_`|~=1").unwrap()), ("!#$%&'*+-.^_`|~", "1"));
}

#[test]
fn header_without_equals_sign() {
    assert_eq!(parse_header("key").unwrap_err(), ArgsError::HeaderSyntax("key".to_owned()));
    assert_eq!(parse_header("").unwrap_err(), ArgsError::HeaderSyntax("".to_owned()));
}

fn bad_name(name: &str, value: &str) -> ArgsError {
    ArgsError::HeaderName { name: name.to_owned(), value: value.to_owned() }
}

fn bad_value(name: &str, value: &str) -> ArgsError {
    ArgsError::HeaderValue { name: name.to_owned(), value: value.to_owned() }
}

#[test]
fn header_name_must_be_a_token() {
    assert_eq!(parse_header("=value").unwrap_err(), bad_name("", "value"));
    assert_eq!(parse_header("a b=1").unwrap_err(), bad_name("a b", "1"));
    assert_eq!(parse_header("a:b=1").unwrap_err(), bad_name("a:b", "1"));
    assert_eq!(parse_header("é=1").unwrap_err(), bad_name("é", "1"));
    assert_eq!(parse_header("a\"=1").unwrap_err(), bad_name("a\"", "1"));
    for sign in "\"(),/:;<>?@[\\]{} \t\u{7f}".chars() {
        let name = format!("a{sign}");
        assert_eq!(Header::new(&name, "1").unwrap_err(), bad_name(&name, "1"));
    }
}

#[test]
fn header_name_is_looked_at_first() {
    assert_eq!(parse_header("a b=\n").unwrap_err(), bad_name("a b", "\n"));
    assert_eq!(Header::new("", "\n").unwrap_err(), bad_name("", "\n"));
}

#[test]
fn header_name_has_a_greatest_length() {
    let longest = "a".repeat(65535);
    assert_eq!(Header::new(&longest, "1").unwrap().name(), longest);
    let too_long = "a".repeat(65536);
    assert_eq!(Header::new(&too_long, "1").unwrap_err(), bad_name(&too_long, "1"));
    let longer_than_the_short_path = "B".repeat(65);
    assert_eq!(
        Header::new(&longer_than_the_short_path, "1").unwrap().name(),
        "b".repeat(65)
    );
    let entry = format!("{too_long}=1");
    assert_eq!(parse_header(&entry).unwrap_err(), bad_name(&too_long, "1"));
}

#[test]
fn header_value_may_hold_what_can_be_seen() {
    assert_eq!(parts(&parse_header("a=b c\td").unwrap()), ("a", "b c\td"));
    assert_eq!(parts(&parse_header("a=grüße").unwrap()), ("a", "grüße"));
    assert_eq!(parts(&Header::new("a", "grüße ~").unwrap()), ("a", "grüße ~"));
    assert_eq!(parse_header("a=b\nc").unwrap_err(), bad_value("a", "b\nc"));
    assert_eq!(parse_header("a=\u{7f}").unwrap_err(), bad_value("a", "\u{7f}"));
    assert_eq!(parse_header("a=\u{0}").unwrap_err(), bad_value("a", "\u{0}"));
    assert_eq!(Header::new("a", "\r").unwrap_err(), bad_value("a", "\r"));
    assert_eq!(Header::new("a", "\u{1f}").unwrap_err(), bad_value("a", "\u{1f}"));
}

#[test]
fn header_copy_holds_the_same() {
    let header = parse_header("Key=Value").unwrap();
    let copy = header.clone();
    assert_eq!(parts(&copy), ("key", "Value"));
    assert_eq!(parts(&header), parts(&copy));
}
