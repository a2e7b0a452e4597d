use ts3_query_api::definitions::Status;
use ts3_query_api::error::ParseError;
use ts3_query_api::parser::escape::{escape_into, unescape};
use ts3_query_api::parser::number::{parse_flag, parse_i32};
use ts3_query_api::parser::text::{find, to_chars, to_text};
use ts3_query_api::parser::{Command, DecodeCustomInto, DecodeInto, Decoder, Properties};

fn chars(s: &str) -> Vec<char> {
    s.chars().collect()
}

fn escaped(s: &str) -> String {
    let mut line = String::new();
    escape_into(s, &mut line);
    line
}

#[test]
fn every_special_character_is_escaped() {
    assert_eq!(
        escaped("\\/ |\u{7}\u{8}\u{c}\n\r\t\u{b}x"),
        "\\\\\\/\\s\\p\\a\\b\\f\\n\\r\\t\\vx"
    );
}

#[test]
fn unescape_undoes_escape() {
    for value in ["", "plain", "a b|c", "\\s", "\\\\/\n\r\t", "\u{1f600} |"] {
        assert_eq!(unescape(&chars(&escaped(value))).as_deref(), Some(value));
    }
}

#[test]
fn escaping_appends() {
    let mut line = "msg=".to_string();
    escape_into("a b", &mut line);
    assert_eq!(line, "msg=a\\sb");
}

#[test]
fn bad_escapes_are_refused() {
    assert_eq!(unescape(&chars("a\\")), None);
    assert_eq!(unescape(&chars("a\\x")), None);
}

#[test]
fn numbers_are_read() {
    assert_eq!(parse_i32(&chars("0")), Some(0));
    assert_eq!(parse_i32(&chars("007")), Some(7));
    assert_eq!(parse_i32(&chars("+12")), Some(12));
    assert_eq!(parse_i32(&chars("-12")), Some(-12));
    assert_eq!(parse_i32(&chars("2147483647")), Some(i32::MAX));
    assert_eq!(parse_i32(&chars("-2147483648")), Some(i32::MIN));
}

#[test]
fn what_is_no_number_is_refused() {
    for s in ["", "-", "+", "1a", "a", "--1", "2147483648", "-2147483649", "99999999999999999999"] {
        assert_eq!(parse_i32(&chars(s)), None);
    }
}

#[test]
fn flags_are_read() {
    assert_eq!(parse_flag(&chars("1")), Some(true));
    assert_eq!(parse_flag(&chars("0")), Some(false));
    assert_eq!(parse_flag(&chars("")), None);
    assert_eq!(parse_flag(&chars("2")), None);
    assert_eq!(parse_flag(&chars("01")), None);
}

#[test]
fn text_is_taken_apart_and_put_together() {
    assert_eq!(to_chars("a\u{fc}"), vec!['a', '\u{fc}']);
    assert_eq!(to_text(&['a', '\u{fc}']), "a\u{fc}");
    assert_eq!(find(&chars("a b c"), ' ', 0), 1);
    assert_eq!(find(&chars("a b c"), ' ', 2), 3);
    assert_eq!(find(&chars("a b c"), '|', 0), 5);
}

#[test]
fn rows_are_read() {
    let row = Properties::parse(&chars("  cid=1  name=a\\sb flag x=y=z ")).unwrap();
    let pairs: Vec<(&str, &str)> = row
        .entries
        .iter()
        .map(|p| (p.key.as_str(), p.value.as_str()))
        .collect();
    assert_eq!(pairs, vec![("cid", "1"), ("name", "a b"), ("flag", ""), ("x", "y=z")]);
    assert_eq!(row.number("cid").unwrap(), 1);
    assert_eq!(row.text("name").unwrap(), "a b");
    assert_eq!(row.flag("cid").unwrap(), Some(true));
    assert_eq!(row.flag("missing").unwrap(), None);
    assert!(matches!(row.number("missing"), Err(ParseError::MissingProperty { .. })));
    assert!(matches!(row.number("name"), Err(ParseError::InvalidNumber { .. })));
}

#[test]
fn the_first_of_two_equal_keys_counts() {
    let row = Properties::parse(&chars("a=1 a=2")).unwrap();
    assert_eq!(row.get("a").unwrap(), "1");
}

#[test]
fn row_reads_back() {
    let command = Command::new("banadd").arg("ip", "203.0.113.7").arg("banreason", "a | b");
    let line = command.to_line();
    assert_eq!(line, "banadd ip=203.0.113.7 banreason=a\\s\\p\\sb");
    let row = Properties::parse(&chars(&line[7..])).unwrap();
    assert_eq!(row.text("ip").unwrap(), "203.0.113.7");
    assert_eq!(row.text("banreason").unwrap(), "a | b");
}

#[test]
fn command_without_arguments_is_its_name() {
    assert_eq!(Command::new("version").to_line(), "version");
}

#[test]
fn no_value_ends_a_line() {
    let line = Command::new("gm").arg("msg", "a\n\rquit").to_line();
    assert_eq!(line, "gm msg=a\\n\\rquit");
    assert!(!line.contains('\n') && !line.contains('\r'));
}

#[test]
fn lists_read_back() {
    let mut decoder = Decoder::new(b"id=1 msg=a|id=2 msg=b\\p");
    let list: Vec<Status> = DecodeInto::decode_into(Vec::new(), &mut decoder).unwrap();
    assert_eq!(list.len(), 2);
    assert_eq!(list[1].id, 2);
    assert_eq!(list[1].message, "b|");
    let mut decoder = Decoder::new(b"id=3 msg=c");
    let list = DecodeInto::decode_into(list, &mut decoder).unwrap();
    assert_eq!(list.iter().map(|s| s.id).collect::<Vec<_>>(), vec![1, 2, 3]);
    let mut decoder = Decoder::new(b"");
    let list = DecodeInto::decode_into(list, &mut decoder).unwrap();
    assert_eq!(list.len(), 3);
}

#[test]
fn a_bad_row_fails_the_list() {
    let mut decoder = Decoder::new(b"id=1 msg=a|id=x msg=b|id=3 msg=c");
    let list: Result<Vec<Status>, ParseError> = DecodeInto::decode_into(Vec::new(), &mut decoder);
    assert!(matches!(list, Err(ParseError::InvalidNumber { .. })));
    let rest: Status = decoder.decode().unwrap();
    assert_eq!(rest.id, 3);
}

#[test]
fn custom_lists_see_one_row_each() {
    let mut decoder = Decoder::new(b"cid x|cpid y");
    let names = DecodeCustomInto::decode_into(vec!["first".to_string()], &mut decoder, |d| {
        let name = d.decode_name()?;
        let rest = d.decode_name()?;
        Ok(format!("{name}/{rest}"))
    })
    .unwrap();
    assert_eq!(names, vec!["first", "cid/x", "cpid/y"]);
}
