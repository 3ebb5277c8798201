use cgu_notices::bot::{chat_id_text, plan_reply, Command, SubscriptionChange};
use cgu_notices::db::{
    add_user_to_subscribers, get_metadata_collection, get_notices_collection,
    remove_user_from_subscribers,
};
use cgu_notices::structs::DbMetaData;

fn metadata(users: &[&str]) -> DbMetaData {
    DbMetaData {
        latest_hash: "h".to_string(),
        subscribed_users: users.iter().map(|u| u.to_string()).collect(),
    }
}

#[test]
fn help_lists_commands_and_changes_nothing() {
    let plan = plan_reply(Command::Help);
    assert_eq!(plan.change, SubscriptionChange::Unchanged);
    assert!(plan.text.is_none());
}

#[test]
fn subscribe_adds_and_confirms() {
    let plan = plan_reply(Command::Subscribe);
    assert_eq!(plan.change, SubscriptionChange::AddUser);
    assert_eq!(
        plan.text.unwrap(),
        "Congratulations!\nYou're now subscribed to cgu notices notifications, I will send you the notice everytime CGU posts something on their website notice board."
    );
}

#[test]
fn unsubscribe_removes_and_confirms() {
    let plan = plan_reply(Command::Unsubscribe);
    assert_eq!(plan.change, SubscriptionChange::RemoveUser);
    assert_eq!(
        plan.text.unwrap(),
        "You've been unsubscribed from CGU notices notificaitons, I won't send you notices anymore.\nTo subscribe again just send /subscribe"
    );
}

#[test]
fn chat_ids_are_written_in_decimal() {
    assert_eq!(chat_id_text(123456), "123456");
    assert_eq!(chat_id_text(-1001234567890), "-1001234567890");
}

#[test]
fn subscribing_appends_once() {
    let mut m = metadata(&["1", "2"]);
    add_user_to_subscribers(&mut m, &"3".to_string());
    assert_eq!(m.subscribed_users, vec!["1", "2", "3"]);
    add_user_to_subscribers(&mut m, &"3".to_string());
    assert_eq!(m.subscribed_users, vec!["1", "2", "3"]);
    assert_eq!(m.latest_hash, "h");
}

#[test]
fn unsubscribing_removes_every_entry_and_keeps_order() {
    let mut m = metadata(&["1", "2", "1", "3"]);
    remove_user_from_subscribers(&mut m, &"1".to_string());
    assert_eq!(m.subscribed_users, vec!["2", "3"]);
    remove_user_from_subscribers(&mut m, &"9".to_string());
    assert_eq!(m.subscribed_users, vec!["2", "3"]);
}

#[test]
fn subscribe_then_unsubscribe_restores() {
    let mut m = metadata(&["5", "6"]);
    add_user_to_subscribers(&mut m, &"7".to_string());
    remove_user_from_subscribers(&mut m, &"7".to_string());
    assert_eq!(m.subscribed_users, vec!["5", "6"]);
}

#[test]
fn collections_are_named_in_the_given_database() {
    let runtime = tokio::runtime::Runtime::new().unwrap();
    runtime.block_on(async {
        let options = mongodb::options::ClientOptions::parse("mongodb://localhost:27017")
            .await
            .unwrap();
        let client = mongodb::Client::with_options(options).unwrap();
        let meta = get_metadata_collection(&client, &"cgu-notice-db".to_string());
        assert_eq!(meta.name(), "metadata-col");
        assert_eq!(meta.namespace().db, "cgu-notice-db");
        let notices = get_notices_collection(&client, &"cgu-notice-db".to_string());
        assert_eq!(notices.name(), "all-notices-col");
    });
}
