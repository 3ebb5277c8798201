//! Reading the notices from the notice board page.
//!
//! The notices are the rows (`tr` elements) of the page's table, in page
//! order, after the first row, which holds the column headers. Within a row,
//! the descendants in document order hold the title at position 5, the date
//! at position 8 and the link to the notice's file at position 12.
use vstd::prelude::*;
use vstd::string::*;
use crate::html::{
    DomNode, tag_positions, tag_positions_upto, is_plain_tag_name, parse_html, node_count,
    select_tag, node_is_tag, node_inner_text, tag_attribute, descendant_bounds,
    parsed_nodes, dom_nodes,
};
use crate::structs::{NoticeElement, NoticeView, notices_view};
use crate::text::{decimal, u64_to_decimal};

verus! {

/// The value of `DefaultHasher::new()` after hashing a text as a `str` and
/// finishing. `DefaultHasher::new()` takes no seed: its documentation says
/// that every hasher it makes gives the same value for the same input (for a
/// given release of the standard library), which is what lets a notice's
/// hash be stored and compared with one computed later.
pub uninterp spec fn default_hash(text: Seq<char>) -> u64;

/// Hashes a text with a fresh `std::collections::hash_map::DefaultHasher`:
/// `Hash::hash` of the `str`, then `Hasher::finish`. Its value is named
/// `default_hash`.
#[verifier::external_body]
pub(crate) fn hash_text(text: &str) -> (h: u64)
    ensures
        h == default_hash(text@),
{
    let mut hasher = std::collections::hash_map::DefaultHasher::new();
    std::hash::Hash::hash(text, &mut hasher);
    std::hash::Hasher::finish(&hasher)
}

/// The hash of a notice: the decimal notation of the hash of its date
/// followed by its title.
pub open spec fn notice_hash(date: Seq<char>, title: Seq<char>) -> Seq<char> {
    decimal(default_hash(date + title) as nat)
}

/// The link of a notice: the `href` value when there is one, else `None`.
pub open spec fn link_or_none(link: Option<Seq<char>>) -> Seq<char> {
    match link {
        Some(l) => l,
        None => "None"@,
    }
}

/// The name of a table row element.
pub open spec fn tr_name() -> Seq<u8> {
    seq![116u8, 114u8]
}

/// The rows that hold notices: every `tr` element but the first.
pub open spec fn page_rows(nodes: Seq<DomNode>) -> Seq<u32> {
    let rows = tag_positions(nodes, tr_name());
    if rows.len() == 0 {
        rows
    } else {
        rows.drop_first()
    }
}

/// Row `r` has at least 13 descendants, all inside the node table.
pub open spec fn row_cells_ok(nodes: Seq<DomNode>, r: u32) -> bool {
    match nodes[r as int].3 {
        Some((first, last)) => first + 12 <= last && last < nodes.len(),
        None => false,
    }
}

/// The table index of the first descendant of node `r`.
pub open spec fn first_descendant(nodes: Seq<DomNode>, r: u32) -> int {
    match nodes[r as int].3 {
        Some((first, _)) => first as int,
        None => 0,
    }
}

/// Every notice row of the page has the cells that a notice is read from,
/// and the node table is indexed by `u32` handles.
pub open spec fn page_well_formed(nodes: Seq<DomNode>) -> bool {
    &&& nodes.len() <= u32::MAX
    &&& forall|k: int| 0 <= k < page_rows(nodes).len() ==> row_cells_ok(nodes, #[trigger] page_rows(nodes)[k])
}

/// The link held by node `c`: the value of its `href` attribute when it is
/// an element with such an attribute that has a value.
pub open spec fn cell_link(nodes: Seq<DomNode>, c: int) -> Option<Seq<char>> {
    if nodes[c].0 is Some && nodes[c].2.contains_key("href"@) {
        nodes[c].2["href"@]
    } else {
        None
    }
}

/// The notice read from the cells of a notice, given the hash value.
pub open spec fn notice_of(title: Seq<char>, date: Seq<char>, link: Option<Seq<char>>, hash: u64) -> NoticeView {
    NoticeView { hash: decimal(hash as nat), title, date, file_url: link_or_none(link) }
}

/// The notice that row `r` holds.
pub open spec fn row_notice(nodes: Seq<DomNode>, r: u32) -> NoticeView {
    let s = first_descendant(nodes, r);
    let title = nodes[s + 5].1;
    let date = nodes[s + 8].1;
    notice_of(title, date, cell_link(nodes, s + 12), default_hash(date + title))
}

/// The notices of a page, in page order.
pub open spec fn page_notices(nodes: Seq<DomNode>) -> Seq<NoticeView> {
    page_rows(nodes).map_values(|r: u32| row_notice(nodes, r))
}

/// The UTF-8 length of a text fits in a `u32`, as the parser demands.
pub open spec fn fits_parser(text: Seq<char>) -> bool {
    vstd::utf8::encode_utf8(text).len() <= u32::MAX
}

proof fn lemma_tag_positions(nodes: Seq<DomNode>, name: Seq<u8>, k: nat)
    requires
        k <= nodes.len(),
        nodes.len() <= u32::MAX,
    ensures
        forall|j: int|
            0 <= j < tag_positions_upto(nodes, name, k).len() ==> {
                &&& #[trigger] tag_positions_upto(nodes, name, k)[j] < k
                &&& nodes[tag_positions_upto(nodes, name, k)[j] as int].0 == Some(name)
            },
    decreases k,
{
    if k > 0 {
        lemma_tag_positions(nodes, name, (k - 1) as nat);
    }
}

proof fn lemma_tr_bytes()
    ensures
        "tr".spec_bytes() == tr_name(),
        is_plain_tag_name(tr_name()),
{
    reveal_strlit("tr");
    assert(is_ascii("tr"));
    is_ascii_spec_bytes("tr");
    assert("tr".spec_bytes() =~= tr_name());
}

/// The notice made of a title, a date, a link and the hash value of the
/// date followed by the title: the hash is written in decimal, and a missing
/// link is written `None`.
pub fn notice_with_hash(title: String, date: String, link: Option<String>, hash: u64) -> (r: NoticeElement)
    ensures
        r@ == notice_of(title@, date@, crate::html::opt_text(link), hash),
{
    let file_url = match link {
        Some(l) => l,
        None => String::from_str("None"),
    };
    NoticeElement { hash: u64_to_decimal(hash), title, date, file_url }
}

/// The notice made of a title, a date and a link; its hash is that of the
/// date followed by the title.
pub fn notice_from_cells(title: String, date: String, link: Option<String>) -> (r: NoticeElement)
    ensures
        r@ == notice_of(title@, date@, crate::html::opt_text(link), default_hash(date@ + title@)),
{
    let mut hash_string = date.clone();
    hash_string.append(title.as_str());
    let hash = hash_text(hash_string.as_str());
    notice_with_hash(title, date, link, hash)
}

/// The hash of a notice with the given date and title, as text.
pub fn compute_notice_hash(date: &String, title: &String) -> (r: String)
    ensures
        r@ == notice_hash(date@, title@),
{
    let mut hash_string = date.clone();
    hash_string.append(title.as_str());
    u64_to_decimal(hash_text(hash_string.as_str()))
}

/// Reads the notice of row `tr`; `None` when the node is not an element.
fn parse_tr_to_notice(dom: &tl::VDom, tr: u32) -> (r: Option<NoticeElement>)
    requires
        tr < dom_nodes(*dom).len(),
        dom_nodes(*dom)[tr as int].0 is Some ==> row_cells_ok(dom_nodes(*dom), tr),
    ensures
        r is Some <==> dom_nodes(*dom)[tr as int].0 is Some,
        r matches Some(n) ==> n@ == row_notice(dom_nodes(*dom), tr),
{
    if !node_is_tag(dom, tr) {
        return None;
    }
    match descendant_bounds(dom, tr) {
        Some((start, _end)) => {
            let title = node_inner_text(dom, start + 5);
            let date = node_inner_text(dom, start + 8);
            let link_cell = start + 12;
            let link = if node_is_tag(dom, link_cell) {
                match tag_attribute(dom, link_cell, "href") {
                    Some(Some(value)) => Some(value),
                    _ => None,
                }
            } else {
                None
            };
            Some(notice_from_cells(title, date, link))
        },
        None => None,
    }
}

/// Appends the notices of a page to `tables_vec`.
fn get_table_element(site_text: &String, tables_vec: &mut Vec<NoticeElement>)
    requires
        fits_parser(site_text@),
        page_well_formed(parsed_nodes(site_text@)),
    ensures
        notices_view(final(tables_vec)@) == notices_view(old(tables_vec)@) + page_notices(
            parsed_nodes(site_text@),
        ),
{
    let parsed = parse_html(site_text.as_str());
    let dom = match parsed {
        Ok(dom) => dom,
        Err(_) => {
            return;
        },
    };
    let ghost nodes = parsed_nodes(site_text@);
    proof {
        lemma_tr_bytes();
        lemma_tag_positions(nodes, tr_name(), nodes.len());
    }
    let rows = match select_tag(&dom, "tr") {
        Some(rows) => rows,
        None => {
            return;
        },
    };
    let ghost notices = page_notices(nodes);
    proof {
        assert(notices.len() == page_rows(nodes).len());
    }
    let ghost start = notices_view(tables_vec@);
    let mut k: usize = 1;
    while k < rows.len()
        invariant
            dom_nodes(dom) == nodes,
            rows@ == tag_positions(nodes, tr_name()),
            page_well_formed(nodes),
            1 <= k,
            k <= rows.len() || k == 1,
            forall|j: int|
                0 <= j < rows@.len() ==> {
                    &&& #[trigger] rows@[j] < nodes.len()
                    &&& nodes[rows@[j] as int].0 == Some(tr_name())
                },
            notices == page_notices(nodes),
            rows.len() > 0 ==> notices.len() == rows.len() - 1,
            rows.len() == 0 ==> notices.len() == 0,
            notices_view(tables_vec@) == start + notices.take(k - 1),
        decreases rows.len() - k,
    {
        let r = rows[k];
        proof {
            assert(page_rows(nodes)[k - 1] == r);
            assert(row_cells_ok(nodes, page_rows(nodes)[k - 1]));
        }
        let ghost before = tables_vec@;
        match parse_tr_to_notice(&dom, r) {
            Some(notice) => {
                tables_vec.push(notice);
                proof {
                    assert(notices_view(tables_vec@) =~= notices_view(before).push(notice@));
                }
            },
            None => {},
        }
        proof {
            assert(notices[k - 1] == row_notice(nodes, r));
            assert(notices.take(k as int) =~= notices.take(k - 1).push(notices[k - 1]));
            assert(notices_view(tables_vec@) =~= start + notices.take(k as int));
        }
        k = k + 1;
    }
    proof {
        if rows.len() == 0 {
            assert(notices =~= Seq::<NoticeView>::empty());
        } else {
            assert(notices.take(k - 1) =~= notices);
        }
        assert(notices.take(k - 1) =~= notices);
    }
}

/// The notices of a notice board page, in page order: one per table row
/// after the header row.
pub fn get_notice_elements(site_text: &String) -> (r: Vec<NoticeElement>)
    requires
        fits_parser(site_text@),
        page_well_formed(parsed_nodes(site_text@)),
    ensures
        notices_view(r@) == page_notices(parsed_nodes(site_text@)),
{
    let mut tables_vec: Vec<NoticeElement> = Vec::new();
    get_table_element(site_text, &mut tables_vec);
    proof {
        assert(notices_view(Seq::<NoticeElement>::empty()) =~= Seq::<NoticeView>::empty());
        assert(Seq::<NoticeView>::empty() + page_notices(parsed_nodes(site_text@)) =~= page_notices(
            parsed_nodes(site_text@),
        ));
    }
    tables_vec
}

/// The notices of a page when the page can be read: `None` when the text is
/// too long for the parser or a notice row has fewer than 13 cells.
pub fn try_get_notice_elements(site_text: &String) -> (r: Option<Vec<NoticeElement>>)
    ensures
        r is Some <==> fits_parser(site_text@) && page_well_formed(parsed_nodes(site_text@)),
        r matches Some(v) ==> notices_view(v@) == page_notices(parsed_nodes(site_text@)),
{
    let dom = match parse_html(site_text.as_str()) {
        Ok(dom) => dom,
        Err(_) => {
            return None;
        },
    };
    let ghost nodes = parsed_nodes(site_text@);
    let count = node_count(&dom);
    if count > 4294967295usize {
        return None;
    }
    proof {
        lemma_tr_bytes();
        lemma_tag_positions(nodes, tr_name(), nodes.len());
    }
    let rows = match select_tag(&dom, "tr") {
        Some(rows) => rows,
        None => {
            return None;
        },
    };
    let mut k: usize = 1;
    while k < rows.len()
        invariant
            dom_nodes(dom) == nodes,
            nodes == parsed_nodes(site_text@),
            count == nodes.len(),
            nodes.len() <= u32::MAX,
            rows@ == tag_positions(nodes, tr_name()),
            1 <= k,
            k <= rows.len() || k == 1,
            forall|j: int| 0 <= j < rows@.len() ==> #[trigger] rows@[j] < nodes.len(),
            forall|j: int| 1 <= j < k ==> row_cells_ok(nodes, #[trigger] rows@[j]),
        decreases rows.len() - k,
    {
        let r = rows[k];
        let ok = match descendant_bounds(&dom, r) {
            Some((first, last)) => last >= 12 && first <= last - 12 && (last as usize) < count,
            None => false,
        };
        if !ok {
            proof {
                assert(page_rows(nodes)[k - 1] == r);
                assert(!row_cells_ok(nodes, r));
                assert(!row_cells_ok(nodes, page_rows(nodes)[k - 1]));
            }
            return None;
        }
        k = k + 1;
    }
    proof {
        assert forall|j: int| 0 <= j < page_rows(nodes).len() implies row_cells_ok(
            nodes,
            #[trigger] page_rows(nodes)[j],
        ) by {
            assert(page_rows(nodes)[j] == rows@[j + 1]);
        }
    }
    Some(get_notice_elements(site_text))
}

/// Every notice read from a page carries the hash of its date and title.
pub proof fn lemma_page_notices_hash_consistent(nodes: Seq<DomNode>)
    ensures
        forall|k: int|
            0 <= k < page_notices(nodes).len() ==> (#[trigger] page_notices(nodes)[k]).hash
                == notice_hash(page_notices(nodes)[k].date, page_notices(nodes)[k].title),
{
}

/// The page's notices are read from its `tr` elements after the first, one
/// notice per row and in page order; the notice of a row whose descendants
/// start at table index `s` has the inner text of descendant 5 as its title,
/// that of descendant 8 as its date, the `href` value of descendant 12 (or
/// `None`) as its link, and the hash of its date followed by its title.
pub proof fn lemma_notice_cells(nodes: Seq<DomNode>, k: int)
    requires
        0 <= k < page_notices(nodes).len(),
    ensures
        tag_positions(nodes, seq![116u8, 114u8]).len() == page_notices(nodes).len() + 1,
        ({
            let row = tag_positions(nodes, seq![116u8, 114u8])[k + 1];
            let notice = page_notices(nodes)[k];
            forall|s: u32, e: u32|
                nodes[row as int].3 == Some((s, e)) ==> {
                    &&& notice.title == nodes[s + 5].1
                    &&& notice.date == nodes[s + 8].1
                    &&& notice.file_url == (if nodes[s + 12].0 is Some && nodes[s + 12].2.contains_key(
                        "href"@,
                    ) && nodes[s + 12].2["href"@] is Some {
                        nodes[s + 12].2["href"@]->0
                    } else {
                        "None"@
                    })
                    &&& notice.hash == decimal(default_hash(nodes[s + 8].1 + nodes[s + 5].1) as nat)
                }
        }),
{
    let rows = tag_positions(nodes, tr_name());
    assert(rows.len() > 0);
    assert(page_rows(nodes)[k] == rows[k + 1]);
}

} // verus!
