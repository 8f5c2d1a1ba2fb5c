//! The document layer: thin trusted wrappers around the `select` crate's
//! DOM queries, and the verified field extractors built on them.
//!
//! A parsed document is opaque; a node is addressed by its index in the
//! document's node arena. Each query's result is given a name (an
//! uninterpreted function of the document value and the query arguments),
//! and every extractor's contract is exact in terms of those names.
//!
//! URL fields are extracted raw, exactly as the markup holds them.
//! Base-origin resolution happens one step later, when a record or a
//! reference is built: the classifier's tie-break compares the raw markup
//! values, record fields are resolved against the base origin, and
//! reference targets take the page-aware policy. Every URL that reaches a
//! catalogue record or the frontier is therefore resolved.

use vstd::prelude::*;

use select::predicate::Predicate;

use crate::model::{DecodeError, DecodedPage, IplayerSelection, ItemFields, ItemV, Programme, Reference};
use crate::page::{
    assemble_page, assemble_spec, next_page_refs, next_refs_spec, page_record_of,
    programme_page_records, selections_spec, series_refs, series_refs_spec, PageFields, PageFieldsV,
};
use crate::selection::{classify_spec, page_refs_spec, programme_pages};
use crate::text::{first_word_spec, normalize_ws, normalize_ws_spec};

verus! {

#[verifier::external_type_specification]
#[verifier::external_body]
pub struct ExDocument(select::document::Document);

/// The node indices matched by a class query over the whole document, in
/// document order.
pub uninterp spec fn doc_class_hits(d: select::document::Document, class: Seq<char>) -> Seq<usize>;

/// The node indices matched by a class query over a node's descendants,
/// in document order.
pub uninterp spec fn node_class_hits(
    d: select::document::Document,
    node: usize,
    class: Seq<char>,
) -> Seq<usize>;

/// The node indices matched by an element-name query over a node's
/// descendants, in document order.
pub uninterp spec fn node_name_hits(
    d: select::document::Document,
    node: usize,
    name: Seq<char>,
) -> Seq<usize>;

/// The node indices matched by a combined element-name and class query
/// over the whole document, in document order.
pub uninterp spec fn doc_name_class_hits(
    d: select::document::Document,
    name: Seq<char>,
    class: Seq<char>,
) -> Seq<usize>;

/// The descendants of a node, in document order.
pub uninterp spec fn descendants_of(d: select::document::Document, node: usize) -> Seq<usize>;

/// The direct children of a node, in document order.
pub uninterp spec fn children_of(d: select::document::Document, node: usize) -> Seq<usize>;

/// The combined text content of a node, when the node exists.
pub uninterp spec fn text_of(d: select::document::Document, node: usize) -> Option<Seq<char>>;

/// The value of a node's attribute, when the node exists and carries it.
pub uninterp spec fn attr_of(
    d: select::document::Document,
    node: usize,
    name: Seq<char>,
) -> Option<Seq<char>>;

/// The document's node arena is consistent: every child, sibling and
/// parent link is in range, and sibling chains only run forward, so the
/// node-walking queries return without panicking. The parser only ever
/// builds such arenas; a document whose public node list was edited
/// afterwards need not satisfy this.
pub uninterp spec fn arena_wf(d: select::document::Document) -> bool;

/// The plain page fields of the document parsed from the given text.
/// Parsing is deterministic, so they are a function of the text alone.
pub uninterp spec fn parsed_fields(html: Seq<char>) -> PageFieldsV;

/// The text fits the parser's buffers. select copies the input into a
/// tendril whose byte length is capped at the 32-bit maximum, and one
/// character encodes to at most four bytes, so this many characters
/// always fit.
pub open spec fn fits_parser_cap(html: Seq<char>) -> bool {
    html.len() <= 0x3fff_ffff
}

/// Relies on select's `Document::from(&str)`: html5ever parses leniently
/// and recovers from malformed input, so parsing never fails on input
/// that fits the parser's 32-bit buffers (a longer text is refused with a
/// panic, so the cap is required); the arena it builds has consistent
/// forward links, and the same text always parses to a document with the
/// same page fields.
#[verifier::external_body]
pub(crate) fn doc_parse(html: &str) -> (r: select::document::Document)
    requires
        fits_parser_cap(html@),
    ensures
        arena_wf(r),
        page_fields_v(r) == parsed_fields(html@),
{
    select::document::Document::from(html)
}

/// Relies on select's `Document::find` with a `Class` predicate: yields
/// the nodes whose class attribute contains the word, in document order.
#[verifier::external_body]
pub(crate) fn doc_find_class(doc: &select::document::Document, class: &str) -> (r: Vec<usize>)
    ensures
        r@ == doc_class_hits(*doc, class@),
{
    doc.find(select::predicate::Class(class)).map(|n| n.index()).collect()
}

/// Relies on select's `Node::find` with a `Class` predicate: yields the
/// matching descendants of the node, in document order; an out-of-range
/// node index yields nothing. The descendant walk follows the arena's
/// links, so it needs a consistent arena to return.
#[verifier::external_body]
pub(crate) fn node_find_class(doc: &select::document::Document, node: usize, class: &str) -> (r:
    Vec<usize>)
    requires
        arena_wf(*doc),
    ensures
        r@ == node_class_hits(*doc, node, class@),
{
    match doc.nth(node) {
        Some(n) => n.find(select::predicate::Class(class)).map(|m| m.index()).collect(),
        None => Vec::new(),
    }
}

/// Relies on select's `Node::find` with a `Name` predicate: yields the
/// matching descendants of the node, in document order; an out-of-range
/// node index yields nothing. The descendant walk follows the arena's
/// links, so it needs a consistent arena to return.
#[verifier::external_body]
pub(crate) fn node_find_name(doc: &select::document::Document, node: usize, name: &str) -> (r: Vec<
    usize,
>)
    requires
        arena_wf(*doc),
    ensures
        r@ == node_name_hits(*doc, node, name@),
{
    match doc.nth(node) {
        Some(n) => n.find(select::predicate::Name(name)).map(|m| m.index()).collect(),
        None => Vec::new(),
    }
}

/// Relies on select's `Document::find` with a `Name` and `Class`
/// conjunction: yields the elements of that name carrying the class, in
/// document order.
#[verifier::external_body]
pub(crate) fn doc_find_name_class(
    doc: &select::document::Document,
    name: &str,
    class: &str,
) -> (r: Vec<usize>)
    ensures
        r@ == doc_name_class_hits(*doc, name@, class@),
{
    doc.find(select::predicate::Name(name).and(select::predicate::Class(class))).map(
        |n| n.index(),
    ).collect()
}

/// Relies on select's `Node::descendants`: the node's transitive children
/// in document order; an out-of-range node index yields nothing. The walk
/// follows the arena's links, so it needs a consistent arena to return.
#[verifier::external_body]
pub(crate) fn node_descendants(doc: &select::document::Document, node: usize) -> (r: Vec<usize>)
    requires
        arena_wf(*doc),
    ensures
        r@ == descendants_of(*doc, node),
{
    match doc.nth(node) {
        Some(n) => n.descendants().map(|m| m.index()).collect(),
        None => Vec::new(),
    }
}

/// Relies on select's `Node::children`: the node's direct children in
/// document order; an out-of-range node index yields nothing. The walk
/// follows the sibling links, so it needs a consistent arena to return.
#[verifier::external_body]
pub(crate) fn node_children(doc: &select::document::Document, node: usize) -> (r: Vec<usize>)
    requires
        arena_wf(*doc),
    ensures
        r@ == children_of(*doc, node),
{
    match doc.nth(node) {
        Some(n) => n.children().map(|m| m.index()).collect(),
        None => Vec::new(),
    }
}

/// Relies on select's `Node::text`: the concatenated text content of the
/// node's subtree; an out-of-range node index yields nothing. The text
/// walk recurses through the arena's links, so it needs a consistent
/// arena to return.
#[verifier::external_body]
pub(crate) fn node_text(doc: &select::document::Document, node: usize) -> (r: Option<String>)
    requires
        arena_wf(*doc),
    ensures
        r.deep_view() == text_of(*doc, node),
{
    doc.nth(node).map(|n| n.text())
}

/// Relies on select's `Node::attr`: the value of the named attribute on
/// an element node; an out-of-range index or a missing attribute yields
/// nothing.
#[verifier::external_body]
pub(crate) fn node_attr(doc: &select::document::Document, node: usize, name: &str) -> (r: Option<
    String,
>)
    ensures
        r.deep_view() == attr_of(*doc, node, name@),
{
    match doc.nth(node) {
        Some(n) => n.attr(name).map(|v| v.to_owned()),
        None => None,
    }
}

/// The first hit of a query, when there is one.
pub open spec fn first_hit(hits: Seq<usize>) -> Option<usize> {
    if hits.len() == 0 {
        None
    } else {
        Some(hits[0])
    }
}

/// The last hit of a query, when there is one.
pub open spec fn last_hit(hits: Seq<usize>) -> Option<usize> {
    if hits.len() == 0 {
        None
    } else {
        Some(hits.last())
    }
}

fn first_of(v: &Vec<usize>) -> (r: Option<usize>)
    ensures
        r == first_hit(v@),
{
    if v.len() == 0 {
        None
    } else {
        Some(v[0])
    }
}

fn last_of(v: &Vec<usize>) -> (r: Option<usize>)
    ensures
        r == last_hit(v@),
{
    if v.len() == 0 {
        None
    } else {
        Some(v[v.len() - 1])
    }
}

/// The normalized text of an optionally located node.
pub open spec fn norm_text_at(d: select::document::Document, n: Option<usize>) -> Option<
    Seq<char>,
> {
    match n {
        Some(t) => match text_of(d, t) {
            Some(s) => Some(normalize_ws_spec(s)),
            None => None,
        },
        None => None,
    }
}

fn norm_text(doc: &select::document::Document, n: Option<usize>) -> (r: Option<String>)
    requires
        arena_wf(*doc),
    ensures
        r.deep_view() == norm_text_at(*doc, n),
{
    match n {
        Some(t) => match node_text(doc, t) {
            Some(s) => Some(normalize_ws(s.as_str())),
            None => None,
        },
        None => None,
    }
}

/// The title of an item node: the normalized text of its first title
/// element.
pub open spec fn title_v(d: select::document::Document, node: usize) -> Option<Seq<char>> {
    norm_text_at(d, first_hit(node_class_hits(d, node, "content-item__title"@)))
}

/// Extract an item's title.
pub fn node_title(doc: &select::document::Document, node: usize) -> (r: Option<String>)
    requires
        arena_wf(*doc),
    ensures
        r.deep_view() == title_v(*doc, node),
{
    let hits = node_find_class(doc, node, "content-item__title");
    norm_text(doc, first_of(&hits))
}

/// The normalized text of the first description element inside the first
/// wrapper under the item's first element of class `outer`.
pub open spec fn info_text_v(
    d: select::document::Document,
    node: usize,
    outer: Seq<char>,
) -> Option<Seq<char>> {
    match first_hit(node_class_hits(d, node, outer)) {
        Some(o) => match first_hit(descendants_of(d, o)) {
            Some(w) => norm_text_at(
                d,
                first_hit(node_class_hits(d, w, "content-item__description"@)),
            ),
            None => None,
        },
        None => None,
    }
}

fn info_text(doc: &select::document::Document, node: usize, outer: &str) -> (r: Option<String>)
    requires
        arena_wf(*doc),
    ensures
        r.deep_view() == info_text_v(*doc, node, outer@),
{
    let outers = node_find_class(doc, node, outer);
    match first_of(&outers) {
        Some(o) => {
            let wrappers = node_descendants(doc, o);
            match first_of(&wrappers) {
                Some(w) => {
                    let hits = node_find_class(doc, w, "content-item__description");
                    norm_text(doc, first_of(&hits))
                },
                None => None,
            }
        },
        None => None,
    }
}

/// The subtitle of an item node.
pub open spec fn subtitle_v(d: select::document::Document, node: usize) -> Option<Seq<char>> {
    info_text_v(d, node, "content-item__info__primary"@)
}

/// Extract an item's subtitle.
pub fn node_subtitle(doc: &select::document::Document, node: usize) -> (r: Option<String>)
    requires
        arena_wf(*doc),
    ensures
        r.deep_view() == subtitle_v(*doc, node),
{
    info_text(doc, node, "content-item__info__primary")
}

/// The synopsis of an item node.
pub open spec fn synopsis_v(d: select::document::Document, node: usize) -> Option<Seq<char>> {
    info_text_v(d, node, "content-item__info__secondary"@)
}

/// Extract an item's synopsis.
pub fn node_synopsis(doc: &select::document::Document, node: usize) -> (r: Option<String>)
    requires
        arena_wf(*doc),
    ensures
        r.deep_view() == synopsis_v(*doc, node),
{
    info_text(doc, node, "content-item__info__secondary")
}

/// The normalized text of one span under the item's sublabels element:
/// the last span when `last` is set, the first otherwise.
pub open spec fn sublabel_v(d: select::document::Document, node: usize, last: bool) -> Option<
    Seq<char>,
> {
    match first_hit(node_class_hits(d, node, "content-item__sublabels"@)) {
        Some(o) => match first_hit(descendants_of(d, o)) {
            Some(w) => {
                let spans = node_name_hits(d, w, "span"@);
                norm_text_at(
                    d,
                    if last {
                        last_hit(spans)
                    } else {
                        first_hit(spans)
                    },
                )
            },
            None => None,
        },
        None => None,
    }
}

fn sublabel(doc: &select::document::Document, node: usize, last: bool) -> (r: Option<String>)
    requires
        arena_wf(*doc),
    ensures
        r.deep_view() == sublabel_v(*doc, node, last),
{
    let outers = node_find_class(doc, node, "content-item__sublabels");
    match first_of(&outers) {
        Some(o) => {
            let wrappers = node_descendants(doc, o);
            match first_of(&wrappers) {
                Some(w) => {
                    let spans = node_find_name(doc, w, "span");
                    let pick = if last {
                        last_of(&spans)
                    } else {
                        first_of(&spans)
                    };
                    norm_text(doc, pick)
                },
                None => None,
            }
        },
        None => None,
    }
}

/// The availability label of an item node: the last sublabel span.
pub open spec fn available_v(d: select::document::Document, node: usize) -> Option<Seq<char>> {
    sublabel_v(d, node, true)
}

/// Extract an item's availability label.
pub fn node_available(doc: &select::document::Document, node: usize) -> (r: Option<String>)
    requires
        arena_wf(*doc),
    ensures
        r.deep_view() == available_v(*doc, node),
{
    sublabel(doc, node, true)
}

/// The duration label of an item node: the first sublabel span.
pub open spec fn duration_v(d: select::document::Document, node: usize) -> Option<Seq<char>> {
    sublabel_v(d, node, false)
}

/// Extract an item's duration label.
pub fn node_duration(doc: &select::document::Document, node: usize) -> (r: Option<String>)
    requires
        arena_wf(*doc),
    ensures
        r.deep_view() == duration_v(*doc, node),
{
    sublabel(doc, node, false)
}

/// The thumbnail of an item node: the first candidate of the source set
/// of the first source element under the item's responsive image, raw as
/// found in the markup (the record builder resolves it against the base
/// origin).
pub open spec fn thumbnail_v(d: select::document::Document, node: usize) -> Option<Seq<char>> {
    match first_hit(node_class_hits(d, node, "rs-image"@)) {
        Some(rs) => match first_hit(descendants_of(d, rs)) {
            Some(w) => match first_hit(node_class_hits(d, w, "picture"@)) {
                Some(pic) => match first_hit(node_class_hits(d, pic, "source"@)) {
                    Some(src) => match attr_of(d, src, "srcset"@) {
                        Some(ss) => Some(first_word_spec(ss)),
                        None => None,
                    },
                    None => None,
                },
                None => None,
            },
            None => None,
        },
        None => None,
    }
}

/// Extract an item's thumbnail URL.
pub fn node_thumbnail(doc: &select::document::Document, node: usize) -> (r: Option<String>)
    requires
        arena_wf(*doc),
    ensures
        r.deep_view() == thumbnail_v(*doc, node),
{
    let images = node_find_class(doc, node, "rs-image");
    match first_of(&images) {
        Some(rs) => {
            let wrappers = node_descendants(doc, rs);
            match first_of(&wrappers) {
                Some(w) => {
                    let pics = node_find_class(doc, w, "picture");
                    match first_of(&pics) {
                        Some(pic) => {
                            let sources = node_find_class(doc, pic, "source");
                            match first_of(&sources) {
                                Some(src) => match node_attr(doc, src, "srcset") {
                                    Some(ss) => Some(crate::text::first_word(ss.as_str())),
                                    None => None,
                                },
                                None => None,
                            }
                        },
                        None => None,
                    }
                },
                None => None,
            }
        },
        None => None,
    }
}

/// The detail link of an item node: the target of its first detail
/// anchor, raw as found in the markup.
pub open spec fn detail_href_v(d: select::document::Document, node: usize) -> Option<Seq<char>> {
    match first_hit(node_class_hits(d, node, "lnk"@)) {
        Some(l) => attr_of(d, l, "href"@),
        None => None,
    }
}

/// Extract an item's detail link (its programme-site pointer).
pub fn node_programme_site(doc: &select::document::Document, node: usize) -> (r: Option<String>)
    requires
        arena_wf(*doc),
    ensures
        r.deep_view() == detail_href_v(*doc, node),
{
    let hits = node_find_class(doc, node, "lnk");
    match first_of(&hits) {
        Some(l) => node_attr(doc, l, "href"),
        None => None,
    }
}

/// The primary link of an item node: the target of its first anchor, raw
/// as found in the markup.
pub open spec fn primary_href_v(d: select::document::Document, node: usize) -> Option<Seq<char>> {
    match first_hit(node_name_hits(d, node, "a"@)) {
        Some(a) => attr_of(d, a, "href"@),
        None => None,
    }
}

/// Extract an item's primary link, raw as found in the markup: the
/// record builder resolves it against the base origin, so the catalogue
/// only ever holds resolved URLs.
pub fn node_url(doc: &select::document::Document, node: usize) -> (r: Option<String>)
    requires
        arena_wf(*doc),
    ensures
        r.deep_view() == primary_href_v(*doc, node),
{
    let hits = node_find_name(doc, node, "a");
    match first_of(&hits) {
        Some(a) => node_attr(doc, a, "href"),
        None => None,
    }
}

/// All the typed fields of one item node, each extracted independently;
/// absence of any sub-structure yields an absent field, never an error.
/// URL fields stay raw here; resolution belongs to the record and
/// reference builders.
pub open spec fn item_v(d: select::document::Document, node: usize) -> ItemV {
    ItemV {
        title: title_v(d, node),
        subtitle: subtitle_v(d, node),
        synopsis: synopsis_v(d, node),
        thumbnail: thumbnail_v(d, node),
        url: primary_href_v(d, node),
        available: available_v(d, node),
        duration: duration_v(d, node),
        detail_href: detail_href_v(d, node),
    }
}

/// Extract every field of one item node.
pub fn extract_item(doc: &select::document::Document, node: usize) -> (r: ItemFields)
    requires
        arena_wf(*doc),
    ensures
        r@ == item_v(*doc, node),
{
    ItemFields {
        title: node_title(doc, node),
        subtitle: node_subtitle(doc, node),
        synopsis: node_synopsis(doc, node),
        thumbnail: node_thumbnail(doc, node),
        url: node_url(doc, node),
        available: node_available(doc, node),
        duration: node_duration(doc, node),
        detail_href: node_programme_site(doc, node),
    }
}

/// The `href` targets carried by the given anchor nodes, in order;
/// anchors without a target contribute nothing.
pub open spec fn anchor_hrefs_v(d: select::document::Document, anchors: Seq<usize>) -> Seq<
    Seq<char>,
>
    decreases anchors.len(),
{
    if anchors.len() == 0 {
        Seq::empty()
    } else {
        let rest = anchor_hrefs_v(d, anchors.drop_last());
        match attr_of(d, anchors.last(), "href"@) {
            Some(h) => rest.push(h),
            None => rest,
        }
    }
}

/// Collect the `href` targets of the given anchor nodes.
fn anchor_hrefs(doc: &select::document::Document, anchors: &Vec<usize>) -> (r: Vec<String>)
    ensures
        r.deep_view() == anchor_hrefs_v(*doc, anchors@),
{
    let mut r: Vec<String> = Vec::new();
    let mut i: usize = 0;
    while i < anchors.len()
        invariant
            i <= anchors@.len(),
            r.deep_view() == anchor_hrefs_v(*doc, anchors@.take(i as int)),
        decreases anchors@.len() - i,
    {
        match node_attr(doc, anchors[i], "href") {
            Some(h) => {
                r.push(h);
            },
            None => {},
        }
        proof {
            assert(anchors@.take(i as int + 1).drop_last() =~= anchors@.take(i as int));
            assert(anchors@.take(i as int + 1).last() == anchors@[i as int]);
        }
        i = i + 1;
    }
    proof {
        assert(anchors@.take(anchors@.len() as int) =~= anchors@);
    }
    r
}

/// The raw pagination targets of a page: the anchor targets under each
/// numbered-page element, in page order.
pub open spec fn pagination_rec_v(d: select::document::Document, pnodes: Seq<usize>) -> Seq<
    Seq<char>,
>
    decreases pnodes.len(),
{
    if pnodes.len() == 0 {
        Seq::empty()
    } else {
        pagination_rec_v(d, pnodes.drop_last()) + anchor_hrefs_v(
            d,
            node_name_hits(d, pnodes.last(), "a"@),
        )
    }
}

/// The raw pagination targets of a page.
pub open spec fn pagination_v(d: select::document::Document) -> Seq<Seq<char>> {
    pagination_rec_v(d, doc_class_hits(d, "pagination__number"@))
}

/// Collect the raw pagination targets of a page.
fn pagination_hrefs(doc: &select::document::Document) -> (r: Vec<String>)
    requires
        arena_wf(*doc),
    ensures
        r.deep_view() == pagination_v(*doc),
{
    let pnodes = doc_find_class(doc, "pagination__number");
    let mut r: Vec<String> = Vec::new();
    let mut i: usize = 0;
    while i < pnodes.len()
        invariant
            arena_wf(*doc),
            i <= pnodes@.len(),
            r.deep_view() == pagination_rec_v(*doc, pnodes@.take(i as int)),
        decreases pnodes@.len() - i,
    {
        let anchors = node_find_name(doc, pnodes[i], "a");
        let mut hrefs = anchor_hrefs(doc, &anchors);
        let ghost r0 = r.deep_view();
        let ghost h0 = hrefs.deep_view();
        r.append(&mut hrefs);
        proof {
            assert(r.deep_view() =~= r0 + h0);
            assert(pnodes@.take(i as int + 1).drop_last() =~= pnodes@.take(i as int));
            assert(pnodes@.take(i as int + 1).last() == pnodes@[i as int]);
        }
        i = i + 1;
    }
    proof {
        assert(pnodes@.take(pnodes@.len() as int) =~= pnodes@);
    }
    r
}

/// The raw series-link targets of a page: the targets of its series
/// navigation buttons, in page order.
pub open spec fn series_hrefs_v(d: select::document::Document) -> Seq<Seq<char>> {
    anchor_hrefs_v(d, doc_name_class_hits(d, "a"@, "series-nav__button"@))
}

/// Whether a page carries a series-navigation marker: it is then a
/// series (box-set) landing page.
pub open spec fn has_series_nav_v(d: select::document::Document) -> bool {
    doc_class_hits(d, "series-nav"@).len() > 0
}

/// The page heading, normalized, when the page has one.
pub open spec fn hero_title_v(d: select::document::Document) -> Option<Seq<char>> {
    norm_text_at(d, first_hit(doc_class_hits(d, "hero-header__title"@)))
}

/// The item-node indices of a page, in page order.
pub open spec fn item_nodes_v(d: select::document::Document) -> Seq<usize> {
    doc_class_hits(d, "content-item"@)
}

/// The fields of every item node of a page, in page order.
pub open spec fn items_v(d: select::document::Document) -> Seq<ItemV> {
    Seq::new(item_nodes_v(d).len(), |i: int| item_v(d, item_nodes_v(d)[i]))
}

/// Extract the fields of every item node of a page.
fn extract_items(doc: &select::document::Document) -> (r: Vec<ItemFields>)
    requires
        arena_wf(*doc),
    ensures
        r.deep_view() == items_v(*doc),
{
    let nodes = doc_find_class(doc, "content-item");
    let mut r: Vec<ItemFields> = Vec::new();
    let mut i: usize = 0;
    while i < nodes.len()
        invariant
            arena_wf(*doc),
            i <= nodes@.len(),
            nodes@ == item_nodes_v(*doc),
            r.deep_view().len() == i as int,
            forall|j: int| 0 <= j < i ==> r.deep_view()[j] == item_v(*doc, nodes@[j]),
        decreases nodes@.len() - i,
    {
        let item = extract_item(doc, nodes[i]);
        let ghost prev = r.deep_view();
        r.push(item);
        proof {
            assert forall|j: int| 0 <= j < i + 1 implies r.deep_view()[j] == item_v(
                *doc,
                nodes@[j],
            ) by {
                if j < i {
                    assert(r.deep_view()[j] == prev[j]);
                } else {
                    assert(r.deep_view()[j] == item@);
                }
            }
        }
        i = i + 1;
    }
    proof {
        assert(r.deep_view() =~= items_v(*doc));
    }
    r
}

/// The plain fields of a whole page, as a function of the document value.
pub open spec fn page_fields_v(d: select::document::Document) -> PageFieldsV {
    PageFieldsV {
        items: items_v(d),
        pagination_hrefs: pagination_v(d),
        series_hrefs: series_hrefs_v(d),
        has_series_nav: has_series_nav_v(d),
        hero_title: hero_title_v(d),
    }
}

/// Gather every plain value the assembler needs off one parsed page.
pub fn page_fields(doc: &select::document::Document) -> (r: PageFields)
    requires
        arena_wf(*doc),
    ensures
        r@ == page_fields_v(*doc),
{
    let items = extract_items(doc);
    let pagination = pagination_hrefs(doc);
    let series_nodes = doc_find_name_class(doc, "a", "series-nav__button");
    let series = anchor_hrefs(doc, &series_nodes);
    let nav = doc_find_class(doc, "series-nav");
    let heroes = doc_find_class(doc, "hero-header__title");
    let hero = norm_text(doc, first_of(&heroes));
    PageFields {
        items,
        pagination_hrefs: pagination,
        series_hrefs: series,
        has_series_nav: nav.len() > 0,
        hero_title: hero,
    }
}

/// Decode one fetched page: parse the raw text, gather the plain fields,
/// and assemble the selections and continuations. The input must fit the
/// parser's buffers, a machine limit the caller checks by byte length.
/// The one failure is an effectively empty input, which cannot safely
/// yield partial results; any other text decodes to the assembly of its
/// parse's fields.
pub fn decode_html(html: &str, page_url: &str, base: &str) -> (r: Result<DecodedPage, DecodeError>)
    requires
        fits_parser_cap(html@),
    ensures
        r is Err <==> normalize_ws_spec(html@).len() == 0,
        r matches Err(e) ==> e == DecodeError::EmptyDocument,
        r matches Ok(p) ==> p@ == assemble_spec(parsed_fields(html@), page_url@, base@),
{
    let trimmed = normalize_ws(html);
    if trimmed.as_str().unicode_len() == 0 {
        Err(DecodeError::EmptyDocument)
    } else {
        let doc = doc_parse(html);
        let f = page_fields(&doc);
        let p = assemble_page(&f, page_url, base);
        Ok(p)
    }
}

/// One parsed listing page together with the URL it was fetched from.
/// The fields are private: every value of this type was built by the
/// parser, so its node arena is consistent and the extractors can walk
/// it safely.
pub struct IplayerDocument {
    doc: select::document::Document,
    url: String,
}

impl IplayerDocument {
    /// Every held document came from the parser, whose arenas the
    /// node-walking queries can traverse.
    #[verifier::type_invariant]
    spec fn well_formed(self) -> bool {
        arena_wf(self.doc)
    }

    /// The parsed document this page holds.
    pub closed spec fn spec_doc(&self) -> select::document::Document {
        self.doc
    }

    /// The URL this page was fetched from.
    pub closed spec fn spec_url(&self) -> Seq<char> {
        self.url@
    }

    /// Parse raw page text fetched from `url`; the text must fit the
    /// parser's buffers, a machine limit the caller checks by byte
    /// length. Fails only on effectively empty input, and parses the
    /// same text to the same page fields.
    pub fn from_html(html: &str, url: String) -> (r: Result<IplayerDocument, DecodeError>)
        requires
            fits_parser_cap(html@),
        ensures
            r is Err <==> normalize_ws_spec(html@).len() == 0,
            r matches Err(e) ==> e == DecodeError::EmptyDocument,
            r matches Ok(d) ==> d.spec_url() == url@ && page_fields_v(d.spec_doc())
                == parsed_fields(html@),
    {
        let trimmed = normalize_ws(html);
        if trimmed.as_str().unicode_len() == 0 {
            Err(DecodeError::EmptyDocument)
        } else {
            Ok(IplayerDocument { doc: doc_parse(html), url })
        }
    }

    /// Whether this page is a series (box-set) landing page.
    pub fn is_boxset(&self) -> (r: bool)
        ensures
            r == has_series_nav_v(self.spec_doc()),
    {
        let nav = doc_find_class(&self.doc, "series-nav");
        nav.len() > 0
    }

    /// The item-node indices of this page, in page order.
    pub fn programme_nodes(&self) -> (r: Vec<usize>)
        ensures
            r@ == item_nodes_v(self.spec_doc()),
    {
        doc_find_class(&self.doc, "content-item")
    }

    /// Decode this page into its selections and continuations.
    pub fn decode(&self, base: &str) -> (p: DecodedPage)
        ensures
            p@ == assemble_spec(page_fields_v(self.spec_doc()), self.spec_url(), base@),
    {
        proof {
            use_type_invariant(&*self);
        }
        let f = page_fields(&self.doc);
        assemble_page(&f, self.url.as_str(), base)
    }

    /// The classification of every item node of this page, in page order.
    pub fn iplayer_selections(&self, base: &str) -> (r: Vec<IplayerSelection>)
        ensures
            r.deep_view() == selections_spec(
                items_v(self.spec_doc()),
                has_series_nav_v(self.spec_doc()),
                base@,
                self.spec_url(),
            ),
    {
        let p = self.decode(base);
        p.selections
    }

    /// The pagination references of this page: resolved, and kept only
    /// when they leave this page.
    pub fn next_pages(&self, base: &str) -> (r: Vec<Reference>)
        ensures
            r.deep_view() == next_refs_spec(pagination_v(self.spec_doc()), base@, self.spec_url()),
    {
        proof {
            use_type_invariant(&*self);
        }
        let hrefs = pagination_hrefs(&self.doc);
        next_page_refs(&hrefs, base, self.url.as_str())
    }

    /// The series references of this page, resolved, in page order.
    pub fn series_urls(&self, base: &str) -> (r: Vec<Reference>)
        ensures
            r.deep_view() == series_refs_spec(
                series_hrefs_v(self.spec_doc()),
                base@,
                self.spec_url(),
            ),
    {
        let series_nodes = doc_find_name_class(&self.doc, "a", "series-nav__button");
        let hrefs = anchor_hrefs(&self.doc, &series_nodes);
        series_refs(&hrefs, base, self.url.as_str())
    }

    /// The detail-page references among the given selections.
    pub fn programme_pages(&self, sels: &Vec<IplayerSelection>) -> (r: Vec<Reference>)
        ensures
            r.deep_view() == page_refs_spec(sels.deep_view()),
    {
        programme_pages(sels)
    }

    /// The classification of every direct child of one node, in order:
    /// used when one container node wraps a run of item nodes.
    pub fn node_selections(&self, node: usize, base: &str) -> (r: Vec<IplayerSelection>)
        ensures
            r.deep_view().len() == children_of(self.spec_doc(), node).len(),
            forall|j: int|
                0 <= j < children_of(self.spec_doc(), node).len() ==> r.deep_view()[j]
                    == classify_spec(
                    item_v(self.spec_doc(), children_of(self.spec_doc(), node)[j]),
                    has_series_nav_v(self.spec_doc()),
                    base@,
                    self.spec_url(),
                ),
    {
        proof {
            use_type_invariant(&*self);
        }
        let doc = &self.doc;
        let page = self.url.as_str();
        let has_series_nav = self.is_boxset();
        let kids = node_children(doc, node);
        let mut r: Vec<IplayerSelection> = Vec::new();
        let mut i: usize = 0;
        while i < kids.len()
            invariant
                arena_wf(*doc),
                i <= kids@.len(),
                kids@ == children_of(*doc, node),
                has_series_nav == has_series_nav_v(*doc),
                page@ == self.spec_url(),
                *doc == self.spec_doc(),
                r.deep_view().len() == i as int,
                forall|j: int|
                    0 <= j < i ==> r.deep_view()[j] == classify_spec(
                        item_v(*doc, kids@[j]),
                        has_series_nav,
                        base@,
                        page@,
                    ),
            decreases kids@.len() - i,
        {
            let item = extract_item(doc, kids[i]);
            let s = IplayerSelection::new(&item, has_series_nav, base, page);
            let ghost prev = r.deep_view();
            r.push(s);
            proof {
                assert forall|j: int| 0 <= j < i + 1 implies r.deep_view()[j] == classify_spec(
                    item_v(*doc, kids@[j]),
                    has_series_nav,
                    base@,
                    page@,
                ) by {
                    if j < i {
                        assert(r.deep_view()[j] == prev[j]);
                    } else {
                        assert(r.deep_view()[j] == s@);
                    }
                }
            }
            i = i + 1;
        }
        r
    }
}

/// One programme (detail) page: its heading becomes the title of every
/// record it yields.
pub struct ProgrammePage {
    pub idoc: IplayerDocument,
}

impl ProgrammePage {
    /// The records of this detail page, in page order.
    pub fn programmes(&self, base: &str) -> (r: Vec<Programme>)
        ensures
            r.deep_view().len() == items_v(self.idoc.spec_doc()).len(),
            forall|j: int|
                0 <= j < items_v(self.idoc.spec_doc()).len() ==> r.deep_view()[j]
                    == page_record_of(
                    hero_title_v(self.idoc.spec_doc()),
                    items_v(self.idoc.spec_doc())[j],
                    base@,
                ),
    {
        proof {
            use_type_invariant(&self.idoc);
        }
        let heroes = doc_find_class(&self.idoc.doc, "hero-header__title");
        let hero = norm_text(&self.idoc.doc, first_of(&heroes));
        let items = extract_items(&self.idoc.doc);
        programme_page_records(&hero, &items, base)
    }
}

} // verus!
