//! The parsed HTML document, as the `tl` parser gives it.
//!
//! A document is the sequence of its nodes in document order (`tl` keeps them
//! in one table and refers to them by index). Each node is described by a
//! `DomNode`: the tag name (for an element), the inner text, the attributes
//! (for an element), and the first and last table index of its descendants.
use vstd::prelude::*;
use vstd::string::*;

verus! {

/// One node of a parsed document:
/// - `.0`: the tag name's bytes for an element, `None` for text and comments;
/// - `.1`: the inner text (`Node::inner_text`);
/// - `.2`: for an element, what `Attributes::get` gives for each key that it
///   finds: the value as lossily decoded text, or `None` for a key without value;
/// - `.3`: the table indices of the first and of the last descendant
///   (`Children::boundaries`), `None` for a node without descendants or that
///   is not an element.
pub type DomNode = (Option<Seq<u8>>, Seq<char>, Map<Seq<char>, Option<Seq<char>>>, Option<(u32, u32)>);

#[verifier::external_type_specification]
#[verifier::external_body]
pub struct ExVDom<'a>(tl::VDom<'a>);

#[verifier::external_type_specification]
#[verifier::external_body]
pub struct ExTlParseError(tl::ParseError);

/// The node table of a parsed document (`VDom::nodes`), in document order.
pub uninterp spec fn dom_nodes(dom: tl::VDom) -> Seq<DomNode>;

/// The node table that `tl::parse` with default options builds from a text.
pub uninterp spec fn parsed_nodes(html: Seq<char>) -> Seq<DomNode>;

/// The table indices, in increasing order, of the elements whose tag name is
/// `name`, among the first `k` nodes. Each index is written as `tl` writes a
/// node handle, truncated to a `u32`.
pub open spec fn tag_positions_upto(nodes: Seq<DomNode>, name: Seq<u8>, k: nat) -> Seq<u32>
    decreases k,
{
    if k == 0 {
        Seq::empty()
    } else {
        let prev = tag_positions_upto(nodes, name, (k - 1) as nat);
        if nodes[k - 1].0 == Some(name) {
            prev.push((k - 1) as u32)
        } else {
            prev
        }
    }
}

/// The table indices, in increasing order, of the elements named `name`.
pub open spec fn tag_positions(nodes: Seq<DomNode>, name: Seq<u8>) -> Seq<u32> {
    tag_positions_upto(nodes, name, nodes.len())
}

/// `name` is made of lower-case ASCII letters only, and is not empty.
pub open spec fn is_plain_tag_name(name: Seq<u8>) -> bool {
    name.len() > 0 && forall|i: int| 0 <= i < name.len() ==> 97 <= #[trigger] name[i] <= 122
}

/// An optional string as optional text.
pub open spec fn opt_text(v: Option<String>) -> Option<Seq<char>> {
    match v {
        Some(s) => Some(s@),
        None => None,
    }
}

/// Parses an HTML text with `tl::parse` and the default `ParserOptions`.
/// `tl::parse` fails exactly when the text's UTF-8 length does not fit in a
/// `u32`; the document it builds is named `parsed_nodes`.
#[verifier::external_body]
pub(crate) fn parse_html<'a>(html: &'a str) -> (r: Result<tl::VDom<'a>, tl::ParseError>)
    ensures
        r is Ok <==> html.spec_bytes().len() <= u32::MAX,
        r matches Ok(d) ==> dom_nodes(d) == parsed_nodes(html@),
{
    tl::parse(html, tl::ParserOptions::default())
}

/// The number of nodes in the document (`VDom::nodes().len()`).
#[verifier::external_body]
pub(crate) fn node_count(dom: &tl::VDom) -> (n: usize)
    ensures
        n == dom_nodes(*dom).len(),
{
    dom.nodes().len()
}

/// `VDom::query_selector` with a selector that is a bare tag name: `tl`
/// parses such a selector into a tag selector, walks the node table in order
/// and yields the handle of each element whose name equals it.
#[verifier::external_body]
pub(crate) fn select_tag(dom: &tl::VDom, name: &str) -> (r: Option<Vec<u32>>)
    requires
        is_plain_tag_name(name.spec_bytes()),
    ensures
        r is Some,
        r is Some ==> r->0@ == tag_positions(dom_nodes(*dom), name.spec_bytes()),
{
    match dom.query_selector(name) {
        Some(handles) => Some(handles.map(|h| h.get_inner()).collect()),
        None => None,
    }
}

/// Whether node `i` is an element (`Node::as_tag` gives `Some`).
#[verifier::external_body]
pub(crate) fn node_is_tag(dom: &tl::VDom, i: u32) -> (r: bool)
    requires
        i < dom_nodes(*dom).len(),
    ensures
        r == dom_nodes(*dom)[i as int].0 is Some,
{
    dom.nodes()[i as usize].as_tag().is_some()
}

/// The inner text of node `i` (`Node::inner_text`).
#[verifier::external_body]
pub(crate) fn node_inner_text(dom: &tl::VDom, i: u32) -> (r: String)
    requires
        i < dom_nodes(*dom).len(),
    ensures
        r@ == dom_nodes(*dom)[i as int].1,
{
    dom.nodes()[i as usize].inner_text(dom.parser()).into_owned()
}

/// `Attributes::get` on element `i`: `None` when the key is absent, `Some(None)`
/// when it has no value, else its value decoded lossily as UTF-8.
#[verifier::external_body]
pub(crate) fn tag_attribute(dom: &tl::VDom, i: u32, key: &str) -> (r: Option<Option<String>>)
    requires
        i < dom_nodes(*dom).len(),
        dom_nodes(*dom)[i as int].0 is Some,
    ensures
        match r {
            None => !dom_nodes(*dom)[i as int].2.contains_key(key@),
            Some(v) => dom_nodes(*dom)[i as int].2.contains_key(key@) && opt_text(v)
                == dom_nodes(*dom)[i as int].2[key@],
        },
{
    match dom.nodes()[i as usize].as_tag() {
        Some(tag) => tag.attributes().get(key).map(|v| v.map(|b| b.as_utf8_str().into_owned())),
        None => None,
    }
}

/// The first and last table index of the descendants of node `i`
/// (`Node::children` then `Children::boundaries`).
#[verifier::external_body]
pub(crate) fn descendant_bounds(dom: &tl::VDom, i: u32) -> (r: Option<(u32, u32)>)
    requires
        i < dom_nodes(*dom).len(),
    ensures
        r == dom_nodes(*dom)[i as int].3,
{
    match dom.nodes()[i as usize].children() {
        Some(children) => children.boundaries(dom.parser()),
        None => None,
    }
}

} // verus!
