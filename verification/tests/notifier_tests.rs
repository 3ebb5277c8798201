use cgu_notices::notifier::{
    bot_url_with_token, notification_url, notification_urls, plan_notifications,
    rate_limit_step, select_new_notices, should_back_off,
};
use cgu_notices::site_scraper::notice_from_cells;
use cgu_notices::structs::{DbMetaData, NoticeElement};

fn notice(title: &str, date: &str) -> NoticeElement {
    notice_from_cells(title.to_string(), date.to_string(), Some(format!("https://x/{}", title)))
}

fn scraped() -> Vec<NoticeElement> {
    vec![notice("N3", "03"), notice("N2", "02"), notice("N1", "01")]
}

#[test]
fn bot_url_appends_token() {
    assert_eq!(bot_url_with_token(&"123:abc".to_string()), "https://api.telegram.org/bot123:abc");
}

#[test]
fn notification_url_has_chat_text_and_no_preview() {
    let url = notification_url(&"B".to_string(), &"42".to_string(), &"hi%0Athere".to_string());
    assert_eq!(url, "B/sendmessage?chat_id=42&text=hi%0Athere&disable_web_page_preview=true");
}

#[test]
fn one_request_per_user() {
    let entries = vec![notice_from_cells("T".to_string(), "D".to_string(), None)];
    let users = vec!["1".to_string(), "-7".to_string()];
    let urls = notification_urls(&entries, &users, &"B".to_string());
    assert_eq!(urls.len(), 2);
    assert_eq!(urls[0], "B/sendmessage?chat_id=1&text=T%0AD%0ALink : None&disable_web_page_preview=true");
    assert_eq!(urls[1], "B/sendmessage?chat_id=-7&text=T%0AD%0ALink : None&disable_web_page_preview=true");
}

#[test]
fn new_notices_stop_at_the_stored_hash() {
    let latest = scraped()[1].hash.clone();
    let new = select_new_notices(scraped(), &latest);
    assert_eq!(new.len(), 1);
    assert_eq!(new[0].title, "N3");
}

#[test]
fn all_notices_are_new_when_the_hash_is_unknown() {
    let new = select_new_notices(scraped(), &"unknown".to_string());
    assert_eq!(new.len(), 3);
    assert_eq!(new[2].title, "N1");
}

#[test]
fn nothing_is_new_when_the_first_is_stored() {
    let latest = scraped()[0].hash.clone();
    assert_eq!(select_new_notices(scraped(), &latest).len(), 0);
}

#[test]
fn plan_with_new_notices_stores_first_hash_and_notifies_everyone() {
    let metadata = DbMetaData {
        latest_hash: scraped()[2].hash.clone(),
        subscribed_users: vec!["10".to_string(), "20".to_string(), "30".to_string()],
    };
    let plan = plan_notifications(&metadata, scraped(), &"B".to_string());
    assert_eq!(plan.new_notices.len(), 2);
    assert_eq!(plan.latest_hash, Some(scraped()[0].hash.clone()));
    assert_eq!(plan.requests.len(), 3);
    assert!(plan.requests[1].starts_with("B/sendmessage?chat_id=20&text=N3%0A03%0ALink : https://x/N3%0A%0AN2"));
}

#[test]
fn second_round_over_same_page_finds_nothing() {
    let mut metadata = DbMetaData { latest_hash: "none".to_string(), subscribed_users: vec!["1".to_string()] };
    let first = plan_notifications(&metadata, scraped(), &"B".to_string());
    assert_eq!(first.new_notices.len(), 3);
    metadata.latest_hash = first.latest_hash.unwrap();
    let second = plan_notifications(&metadata, scraped(), &"B".to_string());
    assert_eq!(second.new_notices.len(), 0);
    assert_eq!(second.latest_hash, None);
    assert!(second.requests.is_empty());
}

#[test]
fn pause_after_every_ten_requests() {
    let mut counter = 0u32;
    let mut pauses = Vec::new();
    for k in 0..35u32 {
        let (next, pause) = rate_limit_step(counter);
        if pause {
            pauses.push(k);
        }
        counter = next;
    }
    assert_eq!(pauses, vec![10, 20, 30]);
}

#[test]
fn back_off_only_on_too_many_requests() {
    assert!(should_back_off(429));
    assert!(!should_back_off(200));
    assert!(!should_back_off(500));
}
