use std::collections::hash_map::DefaultHasher;
use std::hash::{Hash, Hasher};

use cgu_notices::notifier::plan_notifications;
use cgu_notices::parse_env::default_site_url;
use cgu_notices::structs::DbMetaData;
use cgu_notices::site_scraper::{
    compute_notice_hash, get_notice_elements, notice_from_cells, notice_with_hash,
    try_get_notice_elements,
};

fn expected_hash(date: &str, title: &str) -> String {
    let mut hasher = DefaultHasher::new();
    (date.to_string() + title).hash(&mut hasher);
    hasher.finish().to_string()
}

fn row(title: &str, date: &str, link: &str) -> String {
    format!(
        "<tr><td>1</td><td>a</td><td>{}</td><td>b</td><td>{}</td><td>c<a href=\"{}\">View</a></td></tr>",
        title, date, link
    )
}

fn page(rows: &[String]) -> String {
    let header = "<tr><th>No</th><th>x</th><th>Title</th><th>y</th><th>Date</th><th>File</th></tr>";
    format!("<html><body><table>{}{}</table></body></html>", header, rows.concat())
}

#[test]
fn default_site_url_is_the_notice_board() {
    assert_eq!(default_site_url(), "https://cgu-odisha.ac.in/notice/");
}

#[test]
fn notice_hash_is_decimal_default_hash_of_date_then_title() {
    let h = compute_notice_hash(&"12/03/2024".to_string(), &"Holiday".to_string());
    assert_eq!(h, expected_hash("12/03/2024", "Holiday"));
    let other = compute_notice_hash(&"Holiday".to_string(), &"12/03/2024".to_string());
    assert_ne!(h, other);
}

#[test]
fn notice_with_hash_writes_hash_and_default_link() {
    let n = notice_with_hash("T".to_string(), "D".to_string(), None, 42);
    assert_eq!(n.hash, "42");
    assert_eq!(n.title, "T");
    assert_eq!(n.date, "D");
    assert_eq!(n.file_url, "None");
    let m = notice_with_hash("T".to_string(), "D".to_string(), Some("u".to_string()), 0);
    assert_eq!(m.file_url, "u");
    assert_eq!(m.hash, "0");
}

#[test]
fn notice_from_cells_hashes_date_and_title() {
    let n = notice_from_cells("Title".to_string(), "Date".to_string(), Some("L".to_string()));
    assert_eq!(n.hash, expected_hash("Date", "Title"));
    assert_eq!(n.file_url, "L");
}

#[test]
fn notices_are_read_from_rows_after_the_header() {
    let html = page(&[
        row("Exam schedule", "01/02/2024", "https://x/exam.pdf"),
        row("Holiday &#038; leave", "30/01/2024", "https://x/holiday.pdf"),
    ]);
    let notices = get_notice_elements(&html);
    assert_eq!(notices.len(), 2);
    assert_eq!(notices[0].title, "Exam schedule");
    assert_eq!(notices[0].date, "01/02/2024");
    assert_eq!(notices[0].file_url, "https://x/exam.pdf");
    assert_eq!(notices[0].hash, expected_hash("01/02/2024", "Exam schedule"));
    assert_eq!(notices[1].title, "Holiday &#038; leave");
    assert_eq!(notices[1].file_url, "https://x/holiday.pdf");
    assert_eq!(notices[1].hash, expected_hash("30/01/2024", "Holiday &#038; leave"));
}

#[test]
fn link_without_href_is_none() {
    let r = "<tr><td>1</td><td>a</td><td>T</td><td>b</td><td>D</td><td>c<a>View</a></td></tr>".to_string();
    let notices = get_notice_elements(&page(&[r]));
    assert_eq!(notices.len(), 1);
    assert_eq!(notices[0].file_url, "None");
}

#[test]
fn page_with_only_a_header_has_no_notices() {
    assert_eq!(get_notice_elements(&page(&[])).len(), 0);
    assert_eq!(get_notice_elements(&"<p>no table</p>".to_string()).len(), 0);
}

#[test]
fn try_reads_a_well_formed_page() {
    let html = page(&[row("A", "B", "C")]);
    let notices = try_get_notice_elements(&html).expect("well-formed page");
    assert_eq!(notices.len(), 1);
    assert_eq!(notices[0].title, "A");
    assert_eq!(notices[0].date, "B");
    assert_eq!(notices[0].file_url, "C");
}

#[test]
fn try_refuses_a_row_with_too_few_cells() {
    let short = "<tr><td>only</td><td>two</td></tr>".to_string();
    assert!(try_get_notice_elements(&page(&[row("A", "B", "C"), short])).is_none());
}

#[test]
fn unchanged_page_read_twice_has_nothing_new() {
    let html = page(&[row("New", "02", "L2"), row("Old", "01", "L1")]);
    let mut metadata = DbMetaData { latest_hash: expected_hash("01", "Old"), subscribed_users: vec!["9".to_string()] };
    let first = plan_notifications(&metadata, get_notice_elements(&html), &"B".to_string());
    assert_eq!(first.new_notices.len(), 1);
    assert_eq!(first.new_notices[0].title, "New");
    metadata.latest_hash = first.latest_hash.unwrap();
    let second = plan_notifications(&metadata, get_notice_elements(&html), &"B".to_string());
    assert_eq!(second.new_notices.len(), 0);
}
