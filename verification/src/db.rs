//! The database side of the notifier: where its two collections live, and
//! how a command changes the subscribers in the metadata document.
use vstd::prelude::*;
use crate::structs::{DbMetaData, NoticeElement, texts_view};

verus! {

#[verifier::external_type_specification]
#[verifier::external_body]
pub struct ExMongoClient(mongodb::Client);

#[verifier::external_type_specification]
#[verifier::external_body]
#[verifier::reject_recursive_types(T)]
pub struct ExMongoCollection<T>(mongodb::Collection<T>);

/// The database name and the collection name of a handle on the metadata
/// collection (`Collection::namespace`: its `db` and `coll`).
pub uninterp spec fn metadata_namespace(collection: mongodb::Collection<DbMetaData>) -> (Seq<char>, Seq<char>);

/// The database name and the collection name of a handle on the notices
/// collection (`Collection::namespace`: its `db` and `coll`).
pub uninterp spec fn notices_namespace(collection: mongodb::Collection<NoticeElement>) -> (Seq<char>, Seq<char>);

/// The handle on the collection named `collection` in the database named
/// `database` (`Client::database` then `Database::collection`, which store
/// the two names as given); making it sends nothing to the server. What is
/// left unsaid: the client that the handle uses, and its options, which it
/// takes from the client.
#[verifier::external_body]
fn metadata_collection_handle(client: &mongodb::Client, database: &str, collection: &str) -> (r: mongodb::Collection<DbMetaData>)
    ensures
        metadata_namespace(r) == (database@, collection@),
{
    client.database(database).collection(collection)
}

/// The handle on the collection named `collection` in the database named
/// `database`, as `metadata_collection_handle` makes it, for notices (a
/// name of the designated collection cannot be generic in the documents'
/// type, hence one such item per type).
#[verifier::external_body]
fn notices_collection_handle(client: &mongodb::Client, database: &str, collection: &str) -> (r: mongodb::Collection<NoticeElement>)
    ensures
        notices_namespace(r) == (database@, collection@),
{
    client.database(database).collection(collection)
}

/// The name of the collection that holds the metadata document.
pub open spec fn metadata_collection_name() -> Seq<char> {
    "metadata-col"@
}

/// The name of the collection that holds the notices.
pub open spec fn notices_collection_name() -> Seq<char> {
    "all-notices-col"@
}

/// The collection that holds the metadata document: `metadata-col` in the
/// given database.
pub fn get_metadata_collection(db_client: &mongodb::Client, database_name: &String) -> (r: mongodb::Collection<DbMetaData>)
    ensures
        metadata_namespace(r) == (database_name@, metadata_collection_name()),
{
    metadata_collection_handle(db_client, database_name.as_str(), "metadata-col")
}

/// The collection that holds one document per notice: `all-notices-col` in
/// the given database.
pub fn get_notices_collection(db_client: &mongodb::Client, database_name: &String) -> (r: mongodb::Collection<NoticeElement>)
    ensures
        notices_namespace(r) == (database_name@, notices_collection_name()),
{
    notices_collection_handle(db_client, database_name.as_str(), "all-notices-col")
}

/// The subscribers after `chat_id` subscribes: it is appended unless it is
/// already there.
pub open spec fn with_subscriber(users: Seq<Seq<char>>, chat_id: Seq<char>) -> Seq<Seq<char>> {
    if users.contains(chat_id) {
        users
    } else {
        users.push(chat_id)
    }
}

/// The subscribers after `chat_id` unsubscribes: every entry equal to it is
/// removed, the others keep their order.
pub open spec fn without_subscriber(users: Seq<Seq<char>>, chat_id: Seq<char>) -> Seq<Seq<char>> {
    users.filter(other_than(chat_id))
}

/// Holds of every chat id but `chat_id`.
pub open spec fn other_than(chat_id: Seq<char>) -> spec_fn(Seq<char>) -> bool {
    |u: Seq<char>| u != chat_id
}

fn contains_text(users: &Vec<String>, chat_id: &String) -> (r: bool)
    ensures
        r == texts_view(users@).contains(chat_id@),
{
    let mut i: usize = 0;
    while i < users.len()
        invariant
            i <= users.len(),
            forall|j: int| 0 <= j < i ==> users@[j]@ != chat_id@,
        decreases users.len() - i,
    {
        if users[i] == *chat_id {
            assert(texts_view(users@)[i as int] == chat_id@);
            return true;
        }
        i = i + 1;
    }
    assert forall|j: int| 0 <= j < texts_view(users@).len() implies texts_view(users@)[j] != chat_id@ by {}
    false
}

/// Adds `chat_id` to the subscribers of the metadata document.
pub fn add_user_to_subscribers(metadata: &mut DbMetaData, chat_id: &String)
    ensures
        final(metadata).latest_hash == old(metadata).latest_hash,
        texts_view(final(metadata).subscribed_users@) == with_subscriber(
            texts_view(old(metadata).subscribed_users@),
            chat_id@,
        ),
{
    if !contains_text(&metadata.subscribed_users, chat_id) {
        let ghost before = metadata.subscribed_users@;
        metadata.subscribed_users.push(chat_id.clone());
        assert(texts_view(metadata.subscribed_users@) =~= texts_view(before).push(chat_id@));
    }
}

/// Removes `chat_id` from the subscribers of the metadata document.
pub fn remove_user_from_subscribers(metadata: &mut DbMetaData, chat_id: &String)
    ensures
        final(metadata).latest_hash == old(metadata).latest_hash,
        texts_view(final(metadata).subscribed_users@) == without_subscriber(
            texts_view(old(metadata).subscribed_users@),
            chat_id@,
        ),
{
    let ghost all = texts_view(metadata.subscribed_users@);
    let mut kept: Vec<String> = Vec::new();
    let mut i: usize = 0;
    while i < metadata.subscribed_users.len()
        invariant
            i <= metadata.subscribed_users.len(),
            all == texts_view(metadata.subscribed_users@),
            texts_view(kept@) == without_subscriber(all.take(i as int), chat_id@),
        decreases metadata.subscribed_users.len() - i,
    {
        proof {
            reveal_with_fuel(Seq::filter, 1);
            assert(all.take(i + 1).drop_last() =~= all.take(i as int));
        }
        if metadata.subscribed_users[i] != *chat_id {
            let ghost before = kept@;
            kept.push(metadata.subscribed_users[i].clone());
            assert(texts_view(kept@) =~= texts_view(before).push(all[i as int]));
        }
        i = i + 1;
    }
    assert(all.take(i as int) =~= all);
    metadata.subscribed_users = kept;
}

/// After subscribing, the chat is among the subscribers.
pub proof fn lemma_subscribed_after_add(users: Seq<Seq<char>>, chat_id: Seq<char>)
    ensures
        with_subscriber(users, chat_id).contains(chat_id),
{
    if !users.contains(chat_id) {
        assert(users.push(chat_id)[users.len() as int] == chat_id);
    }
}

/// After unsubscribing, the chat is not among the subscribers.
pub proof fn lemma_not_subscribed_after_remove(users: Seq<Seq<char>>, chat_id: Seq<char>)
    ensures
        !without_subscriber(users, chat_id).contains(chat_id),
{
    let pred = other_than(chat_id);
    if without_subscriber(users, chat_id).contains(chat_id) {
        let i = choose|i: int| 0 <= i < users.filter(pred).len() && users.filter(pred)[i] == chat_id;
        users.lemma_filter_pred(pred, i);
    }
}

/// Unsubscribing leaves every other chat's subscription as it was.
pub proof fn lemma_remove_keeps_others(users: Seq<Seq<char>>, chat_id: Seq<char>, other: Seq<char>)
    requires
        other != chat_id,
    ensures
        without_subscriber(users, chat_id).contains(other) == users.contains(other),
{
    let pred = other_than(chat_id);
    if users.contains(other) {
        let i = choose|i: int| 0 <= i < users.len() && users[i] == other;
        users.lemma_filter_contains(pred, i);
    }
    if users.filter(pred).contains(other) {
        users.lemma_filter_contains_rev(pred, other);
    }
}

/// Subscribing never lists a chat twice.
pub proof fn lemma_add_keeps_no_duplicates(users: Seq<Seq<char>>, chat_id: Seq<char>)
    requires
        users.no_duplicates(),
    ensures
        with_subscriber(users, chat_id).no_duplicates(),
{
    if !users.contains(chat_id) {
        let r = users.push(chat_id);
        assert forall|i: int, j: int| 0 <= i < r.len() && 0 <= j < r.len() && i != j implies r[i]
            != r[j] by {
            if i == users.len() as int {
                assert(users[j] == r[j]);
            } else if j == users.len() as int {
                assert(users[i] == r[i]);
            }
        }
    }
}

/// A chat that subscribes and then unsubscribes leaves the subscribers as
/// they were before.
pub proof fn lemma_add_then_remove_restores(users: Seq<Seq<char>>, chat_id: Seq<char>)
    requires
        !users.contains(chat_id),
    ensures
        without_subscriber(with_subscriber(users, chat_id), chat_id) == users,
    decreases users.len(),
{
    reveal_with_fuel(Seq::filter, 1);
    assert(users.push(chat_id).drop_last() =~= users);
    lemma_filter_keeps_all(users, chat_id);
}

proof fn lemma_filter_keeps_all(users: Seq<Seq<char>>, chat_id: Seq<char>)
    requires
        !users.contains(chat_id),
    ensures
        without_subscriber(users, chat_id) == users,
    decreases users.len(),
{
    reveal_with_fuel(Seq::filter, 1);
    if users.len() > 0 {
        assert(!users.drop_last().contains(chat_id)) by {
            if users.drop_last().contains(chat_id) {
                let i = choose|i: int| 0 <= i < users.drop_last().len() && users.drop_last()[i] == chat_id;
                assert(users[i] == chat_id);
            }
        }
        lemma_filter_keeps_all(users.drop_last(), chat_id);
        assert(users.last() != chat_id) by {
            assert(users[users.len() - 1] == users.last());
        }
        assert(users.drop_last().push(users.last()) =~= users);
    }
}

} // verus!
