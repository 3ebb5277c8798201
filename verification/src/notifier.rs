//! The decisions of the notification loop: which scraped notices are new,
//! what to store, and which requests tell the subscribers about them; when
//! to pause between requests.
use vstd::prelude::*;
use crate::structs::{NoticeElement, NoticeView, DbMetaData, notices_view, texts_view};
use crate::html::DomNode;
use crate::site_scraper::{notice_hash, compute_notice_hash, page_notices, lemma_page_notices_hash_consistent};
use crate::utils::{message_text, format_entries_into_message};

verus! {

/// Seconds the loop waits between two rounds.
pub const ROUND_PAUSE_SECS: u64 = 300;

/// Seconds the loop waits after every ten requests.
pub const BATCH_PAUSE_SECS: u64 = 1;

/// Seconds the loop waits after the chat service asked it to slow down.
pub const BACK_OFF_SECS: u64 = 10;

/// The address of the chat bot service, to which the token is appended.
pub open spec fn bot_api_prefix() -> Seq<char> {
    "https://api.telegram.org/bot"@
}

/// The address of the chat bot service for the bot with the given token.
pub fn bot_url_with_token(bot_token: &String) -> (r: String)
    ensures
        r@ == bot_api_prefix() + bot_token@,
{
    let mut url = String::from_str("https://api.telegram.org/bot");
    url.append(bot_token.as_str());
    url
}

/// The request that sends `message` to the chat `user_chat_id`, without a
/// preview of the linked pages.
pub open spec fn request_url(bot_url: Seq<char>, user_chat_id: Seq<char>, message: Seq<char>) -> Seq<char> {
    bot_url + "/sendmessage?chat_id="@ + user_chat_id + "&text="@ + message
        + "&disable_web_page_preview=true"@
}

/// The request that sends `message` to the chat `user_chat_id`.
pub fn notification_url(bot_url: &String, user_chat_id: &String, message: &String) -> (r: String)
    ensures
        r@ == request_url(bot_url@, user_chat_id@, message@),
{
    let mut url = bot_url.clone();
    url.append("/sendmessage?chat_id=");
    url.append(user_chat_id.as_str());
    url.append("&text=");
    url.append(message.as_str());
    url.append("&disable_web_page_preview=true");
    url
}

/// The requests that send the message about `entries` to each user, in the
/// order of the users.
pub open spec fn notification_requests(
    entries: Seq<NoticeView>,
    users: Seq<Seq<char>>,
    bot_url: Seq<char>,
) -> Seq<Seq<char>> {
    users.map_values(|u: Seq<char>| request_url(bot_url, u, message_text(entries)))
}

/// One request per subscriber, each sending the message about `entries`.
pub fn notification_urls(entries: &Vec<NoticeElement>, users: &Vec<String>, bot_url: &String) -> (r: Vec<String>)
    ensures
        texts_view(r@) == notification_requests(notices_view(entries@), texts_view(users@), bot_url@),
{
    let message = format_entries_into_message(entries);
    let ghost expected = notification_requests(notices_view(entries@), texts_view(users@), bot_url@);
    let mut urls: Vec<String> = Vec::new();
    let mut i: usize = 0;
    while i < users.len()
        invariant
            i <= users.len(),
            message@ == message_text(notices_view(entries@)),
            expected == notification_requests(notices_view(entries@), texts_view(users@), bot_url@),
            texts_view(urls@) == expected.take(i as int),
        decreases users.len() - i,
    {
        let url = notification_url(bot_url, &users[i], &message);
        let ghost before = urls@;
        urls.push(url);
        proof {
            assert(texts_view(urls@) =~= texts_view(before).push(url@));
            assert(expected.take(i + 1) =~= expected.take(i as int).push(expected[i as int]));
        }
        i = i + 1;
    }
    assert(expected.take(i as int) =~= expected);
    urls
}

/// The notice is the one whose hash was stored last.
pub open spec fn is_latest(n: NoticeView, latest_hash: Seq<char>) -> bool {
    notice_hash(n.date, n.title) == latest_hash
}

/// `count` is the number of notices before the first one whose hash is the
/// stored one (all of them when there is none).
pub open spec fn is_new_count(notices: Seq<NoticeView>, latest_hash: Seq<char>, count: int) -> bool {
    &&& 0 <= count <= notices.len()
    &&& forall|j: int| 0 <= j < count ==> !is_latest(#[trigger] notices[j], latest_hash)
    &&& count < notices.len() ==> is_latest(notices[count], latest_hash)
}

/// Keeps the notices that come before the one whose hash was stored last:
/// the page lists the newest first, so these are the new ones.
pub fn select_new_notices(notices: Vec<NoticeElement>, latest_hash: &String) -> (r: Vec<NoticeElement>)
    ensures
        is_new_count(notices_view(notices@), latest_hash@, r.len() as int),
        notices_view(r@) == notices_view(notices@).take(r.len() as int),
{
    let mut notices = notices;
    let ghost all = notices_view(notices@);
    let mut count: usize = 0;
    while count < notices.len()
        invariant
            all == notices_view(notices@),
            count <= notices.len(),
            forall|j: int| 0 <= j < count ==> !is_latest(#[trigger] all[j], latest_hash@),
        ensures
            all == notices_view(notices@),
            count <= notices.len(),
            forall|j: int| 0 <= j < count ==> !is_latest(#[trigger] all[j], latest_hash@),
            count < notices.len() ==> is_latest(all[count as int], latest_hash@),
        decreases notices.len() - count,
    {
        let current_hash = compute_notice_hash(&notices[count].date, &notices[count].title);
        if current_hash == *latest_hash {
            break;
        }
        count = count + 1;
    }
    notices.truncate(count);
    proof {
        assert(notices_view(notices@) =~= all.take(count as int));
    }
    notices
}

/// What one round of the loop does with the notices it read.
pub struct NotifyPlan {
    /// The new notices, newest first, to be stored.
    pub new_notices: Vec<NoticeElement>,
    /// The hash to store as the latest, when there are new notices.
    pub latest_hash: Option<String>,
    /// The requests that tell each subscriber about the new notices.
    pub requests: Vec<String>,
}

/// Decides a round: the notices read before the one with the stored hash are
/// new; when there are any, the first one's hash becomes the stored hash and
/// each subscriber gets one message about all of them; else nothing happens.
pub fn plan_notifications(metadata: &DbMetaData, scraped: Vec<NoticeElement>, bot_url: &String) -> (r: NotifyPlan)
    ensures
        is_new_count(notices_view(scraped@), metadata.latest_hash@, r.new_notices.len() as int),
        notices_view(r.new_notices@) == notices_view(scraped@).take(r.new_notices.len() as int),
        r.new_notices.len() == 0 ==> r.latest_hash is None && r.requests.len() == 0,
        r.new_notices.len() > 0 ==> r.latest_hash is Some && r.latest_hash->0@ == r.new_notices@[0].hash@,
        r.new_notices.len() > 0 ==> texts_view(r.requests@) == notification_requests(
            notices_view(r.new_notices@),
            texts_view(metadata.subscribed_users@),
            bot_url@,
        ),
{
    let new_notices = select_new_notices(scraped, &metadata.latest_hash);
    if new_notices.len() == 0 {
        return NotifyPlan { new_notices, latest_hash: None, requests: Vec::new() };
    }
    let latest_hash = new_notices[0].hash.clone();
    let requests = notification_urls(&new_notices, &metadata.subscribed_users, bot_url);
    NotifyPlan { new_notices, latest_hash: Some(latest_hash), requests }
}

/// One step of the request counter: the counter before a request, the
/// counter after it, and whether to pause first.
pub open spec fn rate_step(counter: u32) -> (u32, bool) {
    if counter == 10 {
        (1, true)
    } else {
        ((counter + 1) as u32, false)
    }
}

/// Counts the requests sent since the last pause; every tenth request is
/// followed by a pause before the next one.
pub fn rate_limit_step(counter: u32) -> (r: (u32, bool))
    requires
        counter <= 10,
    ensures
        r == rate_step(counter),
{
    if counter == 10 {
        (1, true)
    } else {
        (counter + 1, false)
    }
}

/// The counter before request `k` of a run that starts with counter 0.
pub open spec fn counter_before(k: nat) -> u32
    decreases k,
{
    if k == 0 {
        0
    } else {
        rate_step(counter_before((k - 1) as nat)).0
    }
}

/// Whether the chat service answered with "too many requests" (status 429),
/// after which the loop waits before the next request.
pub fn should_back_off(status: u16) -> (r: bool)
    ensures
        r == (status == 429),
{
    status == 429
}

/// The notice's stored hash is the hash of its date and title, as for every
/// notice read from a page.
pub open spec fn hash_consistent(n: NoticeView) -> bool {
    n.hash == notice_hash(n.date, n.title)
}

/// There is one number of new notices for a list and a stored hash.
pub proof fn lemma_new_count_unique(notices: Seq<NoticeView>, latest_hash: Seq<char>, c1: int, c2: int)
    requires
        is_new_count(notices, latest_hash, c1),
        is_new_count(notices, latest_hash, c2),
    ensures
        c1 == c2,
{
    if c1 < c2 {
        assert(!is_latest(notices[c1], latest_hash));
    } else if c2 < c1 {
        assert(!is_latest(notices[c2], latest_hash));
    }
}

/// Once a round has stored the hash of the first new notice, a round over the
/// same notices finds none new: no notice is announced twice.
pub proof fn lemma_round_is_idempotent(
    scraped: Seq<NoticeView>,
    latest_hash: Seq<char>,
    c1: int,
    c2: int,
)
    requires
        forall|k: int| 0 <= k < scraped.len() ==> hash_consistent(#[trigger] scraped[k]),
        is_new_count(scraped, latest_hash, c1),
        c1 > 0,
        is_new_count(scraped, scraped.take(c1)[0].hash, c2),
    ensures
        c2 == 0,
{
    assert(scraped.take(c1)[0] == scraped[0]);
    assert(hash_consistent(scraped[0]));
    assert(is_latest(scraped[0], scraped.take(c1)[0].hash));
}

/// The counter stays within 0..=10, counts the requests since the last
/// pause, and the loop pauses before request `k` exactly when `k` is a
/// positive multiple of ten.
pub proof fn lemma_pause_every_tenth(k: nat)
    ensures
        counter_before(k) <= 10,
        k > 0 ==> counter_before(k) == (k - 1) % 10 + 1,
        rate_step(counter_before(k)).1 == (k > 0 && k % 10 == 0),
    decreases k,
{
    if k > 0 {
        lemma_pause_every_tenth((k - 1) as nat);
        if k > 1 {
            assert((k - 2) % 10 == 9 ==> (k - 1) % 10 == 0);
            assert((k - 2) % 10 != 9 ==> (k - 1) % 10 == (k - 2) % 10 + 1);
        }
        assert(((k - 1) % 10 + 1 == 10) == (k % 10 == 0));
    }
}

/// A page read again unchanged, after the round that read it stored the hash
/// of its first new notice, holds no new notice.
pub proof fn lemma_unchanged_page_has_nothing_new(
    nodes: Seq<DomNode>,
    latest_hash: Seq<char>,
    c1: int,
    c2: int,
)
    requires
        is_new_count(page_notices(nodes), latest_hash, c1),
        c1 > 0,
        is_new_count(page_notices(nodes), page_notices(nodes).take(c1)[0].hash, c2),
    ensures
        c2 == 0,
{
    lemma_page_notices_hash_consistent(nodes);
    let scraped = page_notices(nodes);
    assert forall|k: int| 0 <= k < scraped.len() implies hash_consistent(#[trigger] scraped[k]) by {}
    lemma_round_is_idempotent(scraped, latest_hash, c1, c2);
}

/// The new notices are exactly those before the first notice whose hash (of
/// its date followed by its title) is the stored hash; when no notice has that
/// hash, every notice is new, however many there are.
pub proof fn lemma_new_notices_end_at_stored_hash(notices: Seq<NoticeView>, latest_hash: Seq<char>, count: int)
    requires
        is_new_count(notices, latest_hash, count),
    ensures
        0 <= count <= notices.len(),
        forall|j: int| 0 <= j < count ==> notice_hash(#[trigger] notices[j].date, notices[j].title)
            != latest_hash,
        count == notices.len() || notice_hash(notices[count].date, notices[count].title) == latest_hash,
        (forall|j: int| 0 <= j < notices.len() ==> notice_hash(#[trigger] notices[j].date, notices[j].title)
            != latest_hash) ==> count == notices.len(),
{
    assert forall|j: int| 0 <= j < count implies notice_hash(#[trigger] notices[j].date, notices[j].title)
        != latest_hash by {
        assert(!is_latest(notices[j], latest_hash));
    }
}

/// For every list and stored hash, the count that stops at the first notice
/// with the stored hash (or at the end) is a number of new notices.
pub proof fn lemma_first_match_is_new_count(notices: Seq<NoticeView>, latest_hash: Seq<char>, count: int)
    requires
        0 <= count <= notices.len(),
        forall|j: int| 0 <= j < count ==> notice_hash(#[trigger] notices[j].date, notices[j].title)
            != latest_hash,
        count == notices.len() || notice_hash(notices[count].date, notices[count].title) == latest_hash,
    ensures
        is_new_count(notices, latest_hash, count),
{
    assert forall|j: int| 0 <= j < count implies !is_latest(#[trigger] notices[j], latest_hash) by {
        assert(notice_hash(notices[j].date, notices[j].title) != latest_hash);
    }
}

/// There is one request per subscriber, in the subscribers' order: request
/// `k` sends the message about the entries to subscriber `k`, whatever the
/// number of subscribers.
pub proof fn lemma_one_request_per_subscriber(
    entries: Seq<NoticeView>,
    users: Seq<Seq<char>>,
    bot_url: Seq<char>,
)
    ensures
        notification_requests(entries, users, bot_url).len() == users.len(),
        forall|k: int|
            0 <= k < users.len() ==> #[trigger] notification_requests(entries, users, bot_url)[k]
                == bot_url + "/sendmessage?chat_id="@ + users[k] + "&text="@ + message_text(entries)
                + "&disable_web_page_preview=true"@,
{
}

} // verus!
