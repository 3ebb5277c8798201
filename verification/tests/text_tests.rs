use cgu_notices::structs::NoticeElement;
use cgu_notices::text::{i64_to_decimal, u64_to_decimal};
use cgu_notices::utils::{format_entries_into_message, sanitize};

fn notice(title: &str, date: &str, file_url: &str) -> NoticeElement {
    NoticeElement {
        hash: String::from("0"),
        title: title.to_string(),
        date: date.to_string(),
        file_url: file_url.to_string(),
    }
}

#[test]
fn sanitize_replaces_escaped_ampersand() {
    assert_eq!(sanitize(&"A &#038; B".to_string()), "A %26 B");
}

#[test]
fn sanitize_replaces_every_occurrence() {
    assert_eq!(sanitize(&"&#038;&#038;x&#038;".to_string()), "%26%26x%26");
}

#[test]
fn sanitize_keeps_other_text() {
    assert_eq!(sanitize(&"Fees & dues &#03 &amp;".to_string()), "Fees & dues &#03 &amp;");
    assert_eq!(sanitize(&String::new()), "");
}

#[test]
fn sanitize_is_idempotent_on_example() {
    let once = sanitize(&"x&#038;#038;y".to_string());
    assert_eq!(once, "x%26#038;y");
    assert_eq!(sanitize(&once), once);
}

#[test]
fn sanitize_scans_left_to_right() {
    assert_eq!(sanitize(&"&#&#038;".to_string()), "&#%26");
}

#[test]
fn message_of_no_entries_is_empty() {
    assert_eq!(format_entries_into_message(&Vec::new()), "");
}

#[test]
fn message_of_one_entry() {
    let entries = vec![notice("Exam &#038; results", "01/02/2024", "https://x/a.pdf")];
    assert_eq!(
        format_entries_into_message(&entries),
        "Exam %26 results%0A01/02/2024%0ALink : https://x/a.pdf"
    );
}

#[test]
fn message_of_two_entries_has_blank_line_between() {
    let entries = vec![notice("T1", "D1", "L1"), notice("T2", "D2", "None")];
    assert_eq!(
        format_entries_into_message(&entries),
        "T1%0AD1%0ALink : L1%0A%0AT2%0AD2%0ALink : None"
    );
}

#[test]
fn decimal_of_unsigned() {
    assert_eq!(u64_to_decimal(0), "0");
    assert_eq!(u64_to_decimal(7), "7");
    assert_eq!(u64_to_decimal(10), "10");
    assert_eq!(u64_to_decimal(1234567890), "1234567890");
    assert_eq!(u64_to_decimal(u64::MAX), u64::MAX.to_string());
}

#[test]
fn decimal_of_signed() {
    assert_eq!(i64_to_decimal(0), "0");
    assert_eq!(i64_to_decimal(-5), "-5");
    assert_eq!(i64_to_decimal(123456789), "123456789");
    assert_eq!(i64_to_decimal(i64::MIN), i64::MIN.to_string());
    assert_eq!(i64_to_decimal(i64::MAX), i64::MAX.to_string());
}

#[test]
fn different_numbers_have_different_notations() {
    assert_ne!(u64_to_decimal(12), u64_to_decimal(21));
    assert_ne!(u64_to_decimal(1), u64_to_decimal(10));
}
