use rover_link::number::push_decimal;
use rover_link::protocol::{command_line, parse_command, push_invalid, push_status};

#[test]
fn parses_two_integers() {
    assert_eq!(parse_command("10 -10\n"), Some((10, -10)));
    assert_eq!(parse_command("0 0\n"), Some((0, 0)));
    assert_eq!(parse_command("100 -100\n"), Some((100, -100)));
}

#[test]
fn parses_without_line_feed_and_with_trailing_text() {
    assert_eq!(parse_command("10 -10"), Some((10, -10)));
    assert_eq!(parse_command("10 -10 extra\n"), Some((10, -10)));
    assert_eq!(parse_command("10\t-10\r\n"), Some((10, -10)));
}

#[test]
fn accepts_signs_and_unicode_separators() {
    assert_eq!(parse_command("+5 -0\n"), Some((5, 0)));
    assert_eq!(parse_command("7\u{a0}8\n"), Some((7, 8)));
    assert_eq!(parse_command("7\u{3000}-8\u{2028}"), Some((7, -8)));
}

#[test]
fn accepts_the_i32_range_limits() {
    assert_eq!(
        parse_command("-2147483648 2147483647\n"),
        Some((i32::MIN, i32::MAX))
    );
}

#[test]
fn rejects_malformed_lines() {
    assert_eq!(parse_command("abc\n"), None);
    assert_eq!(parse_command(""), None);
    assert_eq!(parse_command("\n"), None);
    assert_eq!(parse_command("10\n"), None);
    assert_eq!(parse_command("10"), None);
    assert_eq!(parse_command("10  -10\n"), None);
    assert_eq!(parse_command(" 10 -10\n"), None);
    assert_eq!(parse_command("+ 5\n"), None);
    assert_eq!(parse_command("5 -\n"), None);
    assert_eq!(parse_command("1x 2\n"), None);
    assert_eq!(parse_command("1 2x\n"), None);
    assert_eq!(parse_command("+-1 2\n"), None);
}

#[test]
fn rejects_values_outside_i32() {
    assert_eq!(parse_command("2147483648 0\n"), None);
    assert_eq!(parse_command("0 -2147483649\n"), None);
    assert_eq!(parse_command("99999999999999999999 0\n"), None);
}

#[test]
fn writes_command_lines() {
    assert_eq!(command_line(60, 30), b"60 30\n".to_vec());
    assert_eq!(command_line(-20, 0), b"-20 0\n".to_vec());
    assert_eq!(
        command_line(i32::MIN, i32::MAX),
        b"-2147483648 2147483647\n".to_vec()
    );
}

#[test]
fn written_commands_parse_back() {
    for (l, r) in [(0, 0), (60, -30), (-100, 100), (i32::MIN, i32::MAX), (7, -1234567)] {
        let bytes = command_line(l, r);
        let text = String::from_utf8(bytes).unwrap();
        assert_eq!(parse_command(&text), Some((l, r)));
    }
}

#[test]
fn writes_status_and_invalid_lines() {
    let mut out = Vec::new();
    push_invalid(&mut out);
    push_status(&mut out, 10, -10);
    assert_eq!(out, b"invalid command\nl=10 r=-10\n".to_vec());
}

#[test]
fn writes_decimals() {
    let mut out = Vec::new();
    push_decimal(&mut out, 0);
    push_decimal(&mut out, -7);
    push_decimal(&mut out, 1380);
    assert_eq!(out, b"0-71380".to_vec());
}
