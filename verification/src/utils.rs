//! Turning notices into the text of a chat message.
use vstd::prelude::*;
use crate::structs::{NoticeElement, NoticeView, notices_view};
use crate::text::{
    replace_all, replace_chars, chars_of, string_from_chars, occurs_at,
    lemma_replace_all_leaves_no_pattern, lemma_replace_all_without_pattern,
};

verus! {

/// What the notice board writes for an ampersand.
pub open spec fn escaped_ampersand() -> Seq<char> {
    "&#038;"@
}

/// The URL-encoded ampersand that replaces it.
pub open spec fn encoded_ampersand() -> Seq<char> {
    "%26"@
}

/// `s` with every `&#038;` replaced by `%26`.
pub open spec fn sanitized(s: Seq<char>) -> Seq<char> {
    replace_all(s, escaped_ampersand(), encoded_ampersand())
}

/// The text of one notice in a message: title, date and link on three lines
/// (`%0A` is an encoded line break).
pub open spec fn entry_text(n: NoticeView) -> Seq<char> {
    sanitized(n.title) + "%0A"@ + sanitized(n.date) + "%0ALink : "@ + sanitized(n.file_url)
}

/// The parts joined, with `sep` between each two neighbours.
pub open spec fn join_with(parts: Seq<Seq<char>>, sep: Seq<char>) -> Seq<char>
    decreases parts.len(),
{
    if parts.len() == 0 {
        Seq::empty()
    } else if parts.len() == 1 {
        parts[0]
    } else {
        join_with(parts.drop_last(), sep) + sep + parts.last()
    }
}

/// The message for a list of notices: their texts separated by a blank line.
pub open spec fn message_text(entries: Seq<NoticeView>) -> Seq<char> {
    join_with(entries.map_values(|n: NoticeView| entry_text(n)), "%0A%0A"@)
}

/// Replaces each `&#038;` in `entry` by `%26`.
pub fn sanitize(entry: &String) -> (r: String)
    ensures
        r@ == sanitized(entry@),
{
    let s = chars_of(entry.as_str());
    let pat = chars_of("&#038;");
    let rep = chars_of("%26");
    proof {
        reveal_strlit("&#038;");
    }
    let out = replace_chars(&s, &pat, &rep);
    string_from_chars(&out)
}

/// The message text for `entries`, as sent to the subscribers.
pub fn format_entries_into_message(entries: &Vec<NoticeElement>) -> (r: String)
    ensures
        r@ == message_text(notices_view(entries@)),
{
    let ghost texts = notices_view(entries@).map_values(|n: NoticeView| entry_text(n));
    let mut res = String::new();
    let mut i: usize = 0;
    while i < entries.len()
        invariant
            i <= entries.len(),
            texts == notices_view(entries@).map_values(|n: NoticeView| entry_text(n)),
            texts.len() == entries.len(),
            res@ == join_with(texts.take(i as int), "%0A%0A"@),
        decreases entries.len() - i,
    {
        let entry = &entries[i];
        if i > 0 {
            res.append("%0A%0A");
        }
        let title = sanitize(&entry.title);
        let date = sanitize(&entry.date);
        let url = sanitize(&entry.file_url);
        res.append(title.as_str());
        res.append("%0A");
        res.append(date.as_str());
        res.append("%0ALink : ");
        res.append(url.as_str());
        proof {
            assert(texts[i as int] == entry_text(entries@[i as int]@));
            assert(texts.take(i + 1).drop_last() =~= texts.take(i as int));
        }
        i = i + 1;
    }
    assert(texts.take(i as int) =~= texts);
    res
}

proof fn lemma_ampersand_literals()
    ensures
        escaped_ampersand().len() == 6,
        escaped_ampersand()[0] == '&',
        encoded_ampersand().len() == 3,
        encoded_ampersand()[0] == '%',
        forall|k: int| 0 <= k < 3 ==> #[trigger] encoded_ampersand()[k] != '&',
        forall|k: int| 1 <= k < 6 ==> #[trigger] escaped_ampersand()[k] != '%',
{
    reveal_strlit("&#038;");
    reveal_strlit("%26");
}

/// A sanitized text holds no `&#038;`.
pub proof fn lemma_sanitized_has_no_escaped_ampersand(s: Seq<char>)
    ensures
        forall|i: int| !#[trigger] occurs_at(sanitized(s), escaped_ampersand(), i),
{
    lemma_ampersand_literals();
    lemma_replace_all_leaves_no_pattern(s, escaped_ampersand(), encoded_ampersand());
}

/// Sanitizing twice gives what sanitizing once gives.
pub proof fn lemma_sanitize_idempotent(s: Seq<char>)
    ensures
        sanitized(sanitized(s)) == sanitized(s),
{
    lemma_sanitized_has_no_escaped_ampersand(s);
    lemma_ampersand_literals();
    lemma_replace_all_without_pattern(sanitized(s), escaped_ampersand(), encoded_ampersand());
}

/// A text without `&` is left as it is.
pub proof fn lemma_sanitize_keeps_text_without_ampersand(s: Seq<char>)
    requires
        !s.contains('&'),
    ensures
        sanitized(s) == s,
{
    lemma_ampersand_literals();
    assert forall|i: int| !#[trigger] occurs_at(s, escaped_ampersand(), i) by {
        if occurs_at(s, escaped_ampersand(), i) {
            assert(s.subrange(i, i + 6)[0] == '&');
            assert(s[i] == '&');
        }
    }
    lemma_replace_all_without_pattern(s, escaped_ampersand(), encoded_ampersand());
}

/// `c` is not one of the characters of `&#038;`.
spec fn outside_escape(c: char) -> bool {
    forall|k: int| 0 <= k < escaped_ampersand().len() ==> #[trigger] escaped_ampersand()[k] != c
}

/// `&#038;` occurs nowhere in `x`.
spec fn escape_free(x: Seq<char>) -> bool {
    forall|i: int| !#[trigger] occurs_at(x, escaped_ampersand(), i)
}

proof fn lemma_escape_literal()
    ensures
        escaped_ampersand() == seq!['&', '#', '0', '3', '8', ';'],
{
    reveal_strlit("&#038;");
    assert(escaped_ampersand() =~= seq!['&', '#', '0', '3', '8', ';']);
}

/// Two texts free of `&#038;` stay so when joined, if the character on one
/// side of the joint cannot be part of it.
proof fn lemma_concat_escape_free(x: Seq<char>, y: Seq<char>)
    requires
        escape_free(x),
        escape_free(y),
        (x.len() > 0 && outside_escape(x.last())) || (y.len() > 0 && outside_escape(y[0])),
    ensures
        escape_free(x + y),
{
    lemma_escape_literal();
    let p = escaped_ampersand();
    let xy = x + y;
    assert forall|i: int| !#[trigger] occurs_at(xy, p, i) by {
        if occurs_at(xy, p, i) {
            if i + p.len() <= x.len() {
                assert(x.subrange(i, i + p.len()) =~= xy.subrange(i, i + p.len()));
                assert(occurs_at(x, p, i));
            } else if i >= x.len() {
                assert(y.subrange(i - x.len(), i - x.len() + p.len()) =~= xy.subrange(i, i + p.len()));
                assert(occurs_at(y, p, i - x.len()));
            } else if x.len() > 0 && outside_escape(x.last()) {
                let k = x.len() - 1 - i;
                assert(xy.subrange(i, i + p.len())[k] == p[k]);
                assert(xy[x.len() - 1] == x.last());
            } else {
                let k = x.len() - i;
                assert(xy.subrange(i, i + p.len())[k] == p[k]);
                assert(xy[x.len() as int] == y[0]);
            }
        }
    }
}

/// A text without `&` holds no `&#038;`.
proof fn lemma_no_ampersand_escape_free(x: Seq<char>)
    requires
        forall|k: int| 0 <= k < x.len() ==> #[trigger] x[k] != '&',
    ensures
        escape_free(x),
{
    lemma_escape_literal();
    assert forall|i: int| !#[trigger] occurs_at(x, escaped_ampersand(), i) by {
        if occurs_at(x, escaped_ampersand(), i) {
            assert(x.subrange(i, i + 6)[0] == '&');
        }
    }
}

proof fn lemma_separator_literals()
    ensures
        escape_free("%0A"@),
        escape_free("%0ALink : "@),
        escape_free("%0A%0A"@),
        "%0A"@.len() == 3 && "%0A"@[0] == '%' && "%0A"@[2] == 'A',
        "%0ALink : "@.len() == 10 && "%0ALink : "@[0] == '%' && "%0ALink : "@[9] == ' ',
        "%0A%0A"@.len() == 6 && "%0A%0A"@[0] == '%' && "%0A%0A"@[5] == 'A',
        outside_escape('%'),
        outside_escape('A'),
        outside_escape(' '),
{
    reveal_strlit("%0A");
    reveal_strlit("%0ALink : ");
    reveal_strlit("%0A%0A");
    lemma_escape_literal();
    lemma_no_ampersand_escape_free("%0A"@);
    lemma_no_ampersand_escape_free("%0ALink : "@);
    lemma_no_ampersand_escape_free("%0A%0A"@);
}

proof fn lemma_entry_text_escape_free(n: NoticeView)
    ensures
        escape_free(entry_text(n)),
        entry_text(n).len() > 0,
{
    lemma_separator_literals();
    lemma_sanitized_has_no_escaped_ampersand(n.title);
    lemma_sanitized_has_no_escaped_ampersand(n.date);
    lemma_sanitized_has_no_escaped_ampersand(n.file_url);
    let a = sanitized(n.title) + "%0A"@;
    lemma_concat_escape_free(sanitized(n.title), "%0A"@);
    let b = a + sanitized(n.date);
    assert(a.last() == 'A');
    lemma_concat_escape_free(a, sanitized(n.date));
    let c = b + "%0ALink : "@;
    lemma_concat_escape_free(b, "%0ALink : "@);
    assert(c.last() == ' ');
    lemma_concat_escape_free(c, sanitized(n.file_url));
}

proof fn lemma_join_escape_free(parts: Seq<Seq<char>>)
    requires
        forall|k: int| 0 <= k < parts.len() ==> escape_free(#[trigger] parts[k]) && parts[k].len() > 0,
    ensures
        escape_free(join_with(parts, "%0A%0A"@)),
    decreases parts.len(),
{
    lemma_separator_literals();
    if parts.len() == 0 {
        lemma_escape_literal();
        assert forall|i: int| !#[trigger] occurs_at(Seq::<char>::empty(), escaped_ampersand(), i) by {}
    } else if parts.len() > 1 {
        let front = join_with(parts.drop_last(), "%0A%0A"@);
        assert forall|k: int| 0 <= k < parts.drop_last().len() implies escape_free(
            #[trigger] parts.drop_last()[k],
        ) && parts.drop_last()[k].len() > 0 by {
            assert(parts.drop_last()[k] == parts[k]);
        }
        lemma_join_escape_free(parts.drop_last());
        lemma_concat_escape_free(front, "%0A%0A"@);
        let with_sep = front + "%0A%0A"@;
        assert(with_sep.last() == 'A');
        assert(escape_free(parts[parts.len() - 1]));
        lemma_concat_escape_free(with_sep, parts.last());
    }
}

/// The message holds no `&#038;`: every title, date and link in it is
/// sanitized, and what joins them cannot form one.
pub proof fn lemma_message_has_no_escaped_ampersand(entries: Seq<NoticeView>)
    ensures
        forall|i: int| !#[trigger] occurs_at(message_text(entries), "&#038;"@, i),
{
    let parts = entries.map_values(|n: NoticeView| entry_text(n));
    assert forall|k: int| 0 <= k < parts.len() implies escape_free(#[trigger] parts[k]) && parts[k].len()
        > 0 by {
        lemma_entry_text_escape_free(entries[k]);
    }
    lemma_join_escape_free(parts);
    assert(escaped_ampersand() == "&#038;"@);
}

/// Every entry is in the message, in order: the message of no entry is empty,
/// that of one entry is its text, and appending an entry to a non-empty list
/// appends a blank line and the entry's sanitized title, date and link.
pub proof fn lemma_message_of_appended_entry(entries: Seq<NoticeView>, e: NoticeView)
    ensures
        message_text(Seq::empty()) == Seq::<char>::empty(),
        message_text(seq![e]) == sanitized(e.title) + "%0A"@ + sanitized(e.date) + "%0ALink : "@
            + sanitized(e.file_url),
        entries.len() > 0 ==> message_text(entries.push(e)) == message_text(entries) + "%0A%0A"@
            + sanitized(e.title) + "%0A"@ + sanitized(e.date) + "%0ALink : "@ + sanitized(e.file_url),
{
    let f = |n: NoticeView| entry_text(n);
    assert(Seq::<NoticeView>::empty().map_values(f) =~= Seq::<Seq<char>>::empty());
    assert(seq![e].map_values(f) =~= seq![entry_text(e)]);
    if entries.len() > 0 {
        let parts = entries.push(e).map_values(f);
        assert(parts.drop_last() =~= entries.map_values(f));
        assert(parts.last() == entry_text(e));
    }
}

} // verus!
