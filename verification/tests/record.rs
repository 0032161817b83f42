use password_gate::record::format_record;
use password_gate::text::{chars_of, string_of, without_line_end};

#[test]
fn record_is_three_fields_and_a_line_feed() {
    assert_eq!(format_record("mail", "ada", "s3cret"), "mail|ada|s3cret\n");
}

#[test]
fn record_of_empty_fields_keeps_the_bars() {
    assert_eq!(format_record("", "", ""), "||\n");
    assert_eq!(format_record("a", "", "c"), "a||c\n");
}

#[test]
fn record_writes_fields_as_they_are() {
    assert_eq!(format_record("a|b", "c d", "é\n"), "a|b|c d|é\n\n");
}

#[test]
fn chars_and_string_are_inverse() {
    assert_eq!(chars_of("aé b"), vec!['a', 'é', ' ', 'b']);
    assert_eq!(chars_of(""), Vec::<char>::new());
    assert_eq!(string_of(&vec!['x', 'ß', '!']), "xß!");
    assert_eq!(string_of(&vec![]), "");
    assert_eq!(string_of(&chars_of("round trip")), "round trip");
}

#[test]
fn line_end_is_a_line_feed_with_or_without_a_carriage_return() {
    assert_eq!(without_line_end("secret\n"), "secret");
    assert_eq!(without_line_end("secret\r\n"), "secret");
    assert_eq!(without_line_end("secret"), "secret");
    assert_eq!(without_line_end("\n"), "");
    assert_eq!(without_line_end("\r\n"), "");
    assert_eq!(without_line_end(""), "");
}

#[test]
fn line_end_is_all_that_is_taken_off() {
    assert_eq!(without_line_end("  two words  \n"), "  two words  ");
    assert_eq!(without_line_end("\tx \r\n"), "\tx ");
    assert_eq!(without_line_end("a\n\n"), "a\n");
    assert_eq!(without_line_end("a\r"), "a\r");
    assert_eq!(without_line_end("a\r\r\n"), "a\r");
    assert_eq!(without_line_end("a\nb"), "a\nb");
    assert_eq!(without_line_end("é\n"), "é");
}
