//! The selection classifier: decides whether one item node is a terminal
//! programme record, a pointer to a further page, or nothing usable.

use vstd::prelude::*;

use crate::model::{
    clone_opt_string, IplayerSelection, ItemFields, ItemV, Programme, ProgrammeV, RefKind, RefV,
    Reference, SelectionV,
};
use crate::text::{
    resolve_field_spec, resolve_field_url, resolve_ref_spec, resolve_reference_url, str_eq,
};

verus! {

/// An optional URL field resolved against the base origin.
pub open spec fn resolve_opt(base: Seq<char>, o: Option<Seq<char>>) -> Option<Seq<char>> {
    match o {
        Some(u) => Some(resolve_field_spec(base, u)),
        None => None,
    }
}

/// The programme record an item yields when it is terminal: text fields
/// kept as extracted, URL fields resolved, index unassigned.
pub open spec fn record_of_spec(item: ItemV, base: Seq<char>) -> ProgrammeV {
    ProgrammeV {
        title: item.title,
        subtitle: item.subtitle,
        synopsis: item.synopsis,
        thumbnail: resolve_opt(base, item.thumbnail),
        url: resolve_opt(base, item.url),
        index: None,
        available: item.available,
        duration: item.duration,
    }
}

/// A node without a usable detail link is a programme when it has at
/// least a title or a primary link, and is skipped otherwise.
pub open spec fn programme_or_skip_spec(item: ItemV, base: Seq<char>) -> SelectionV {
    if item.title is Some || item.url is Some {
        SelectionV::Programme(record_of_spec(item, base))
    } else {
        SelectionV::Skipped
    }
}

/// The classification of one item node. A detail link whose raw target
/// differs from the item's own primary link wins over any inline fields:
/// the node is a pointer, not a record. The pointer's kind follows the
/// page's series-navigation marker.
pub open spec fn classify_spec(
    item: ItemV,
    has_series_nav: bool,
    base: Seq<char>,
    page: Seq<char>,
) -> SelectionV {
    match item.detail_href {
        Some(d) => {
            if item.url is Some && item.url == Some(d) {
                programme_or_skip_spec(item, base)
            } else {
                SelectionV::PageRef(
                    RefV {
                        target: resolve_ref_spec(base, page, d),
                        kind: if has_series_nav {
                            RefKind::SeriesPage
                        } else {
                            RefKind::ProgrammePage
                        },
                    },
                )
            }
        },
        None => programme_or_skip_spec(item, base),
    }
}

/// Resolve an optional URL field against the base origin.
pub fn resolve_opt_url(base: &str, o: &Option<String>) -> (r: Option<String>)
    ensures
        r.deep_view() == resolve_opt(base@, o.deep_view()),
{
    match o {
        Some(u) => Some(resolve_field_url(base, u.as_str())),
        None => None,
    }
}

/// Build the terminal record for an item: URL fields resolved against the
/// base origin, text fields kept, index unassigned.
fn record_of(item: &ItemFields, base: &str) -> (p: Programme)
    ensures
        p@ == record_of_spec(item@, base@),
{
    let resolved = ItemFields {
        title: clone_opt_string(&item.title),
        subtitle: clone_opt_string(&item.subtitle),
        synopsis: clone_opt_string(&item.synopsis),
        thumbnail: resolve_opt_url(base, &item.thumbnail),
        url: resolve_opt_url(base, &item.url),
        available: clone_opt_string(&item.available),
        duration: clone_opt_string(&item.duration),
        detail_href: None,
    };
    Programme::new(clone_opt_string(&item.title), clone_opt_string(&item.subtitle), &resolved)
}

impl IplayerSelection {
    /// Classify one item node.
    ///
    /// `has_series_nav` is the page's series-navigation marker, `base` the
    /// configured base origin, and `page` the URL of the page the node was
    /// found on; the latter two fix how link targets are resolved.
    pub fn new(item: &ItemFields, has_series_nav: bool, base: &str, page: &str) -> (s:
        IplayerSelection)
        ensures
            s@ == classify_spec(item@, has_series_nav, base@, page@),
    {
        match &item.detail_href {
            Some(d) => {
                let same = match &item.url {
                    Some(u) => str_eq(u.as_str(), d.as_str()),
                    None => false,
                };
                if same {
                    Self::programme_or_skip(item, base)
                } else {
                    let kind = if has_series_nav {
                        RefKind::SeriesPage
                    } else {
                        RefKind::ProgrammePage
                    };
                    IplayerSelection::PageRef(
                        Reference { target: resolve_reference_url(base, page, d.as_str()), kind },
                    )
                }
            },
            None => Self::programme_or_skip(item, base),
        }
    }

    /// Classify an item that has no winning detail link.
    fn programme_or_skip(item: &ItemFields, base: &str) -> (s: IplayerSelection)
        ensures
            s@ == programme_or_skip_spec(item@, base@),
    {
        if item.title.is_some() || item.url.is_some() {
            IplayerSelection::Programme(record_of(item, base))
        } else {
            IplayerSelection::Skipped
        }
    }
}

/// Tie-break law: an item carrying both populated programme fields and a
/// detail link distinct from its primary link classifies as a page
/// reference, never as a programme record.
pub proof fn lemma_detail_link_wins(
    item: ItemV,
    has_series_nav: bool,
    base: Seq<char>,
    page: Seq<char>,
)
    requires
        item.title is Some,
        item.synopsis is Some,
        item.detail_href is Some,
        item.url != item.detail_href,
    ensures
        classify_spec(item, has_series_nav, base, page) matches SelectionV::PageRef(r)
            && r.target == resolve_ref_spec(base, page, item.detail_href->0),
{
}

/// Partial-field tolerance law: an item with no detail link and a title
/// still yields a programme record; absent fields stay absent and present
/// fields are kept (URL fields in resolved form).
pub proof fn lemma_partial_fields_tolerated(
    item: ItemV,
    has_series_nav: bool,
    base: Seq<char>,
    page: Seq<char>,
)
    requires
        item.detail_href is None,
        item.title is Some,
        item.subtitle is None,
        item.duration is None,
    ensures
        classify_spec(item, has_series_nav, base, page) matches SelectionV::Programme(p)
            && p.subtitle is None
            && p.duration is None
            && p.title == item.title
            && p.synopsis == item.synopsis
            && p.available == item.available
            && p.url == resolve_opt(base, item.url)
            && p.thumbnail == resolve_opt(base, item.thumbnail)
            && p.index is None,
{
}

/// The items of a page that carry a detail link, in page order.
pub open spec fn sites_spec(items: Seq<ItemV>) -> Seq<ItemV>
    decreases items.len(),
{
    if items.len() == 0 {
        Seq::empty()
    } else {
        let rest = sites_spec(items.drop_last());
        if items.last().detail_href is Some {
            rest.push(items.last())
        } else {
            rest
        }
    }
}

/// Keep the items that point at a programme site (carry a detail link).
pub fn programme_sites(items: &Vec<ItemFields>) -> (r: Vec<ItemFields>)
    ensures
        r.deep_view() == sites_spec(items.deep_view()),
{
    let mut r: Vec<ItemFields> = Vec::new();
    let mut i: usize = 0;
    while i < items.len()
        invariant
            i <= items@.len(),
            r.deep_view() == sites_spec(items.deep_view().take(i as int)),
        decreases items@.len() - i,
    {
        if items[i].detail_href.is_some() {
            r.push(items[i].duplicate());
        }
        proof {
            assert(items.deep_view().take(i as int + 1).drop_last() =~= items.deep_view().take(
                i as int,
            ));
            assert(items.deep_view().take(i as int + 1).last() == items.deep_view()[i as int]);
        }
        i = i + 1;
    }
    proof {
        assert(items.deep_view().take(items@.len() as int) =~= items.deep_view());
    }
    r
}

/// The page references among a page's selections, in page order.
pub open spec fn page_refs_spec(sels: Seq<SelectionV>) -> Seq<RefV>
    decreases sels.len(),
{
    if sels.len() == 0 {
        Seq::empty()
    } else {
        let rest = page_refs_spec(sels.drop_last());
        match sels.last() {
            SelectionV::PageRef(r) => rest.push(r),
            _ => rest,
        }
    }
}

/// Collect the detail-page references among a page's selections.
pub fn programme_pages(sels: &Vec<IplayerSelection>) -> (r: Vec<Reference>)
    ensures
        r.deep_view() == page_refs_spec(sels.deep_view()),
{
    let mut r: Vec<Reference> = Vec::new();
    let mut i: usize = 0;
    while i < sels.len()
        invariant
            i <= sels@.len(),
            r.deep_view() == page_refs_spec(sels.deep_view().take(i as int)),
        decreases sels@.len() - i,
    {
        match &sels[i] {
            IplayerSelection::PageRef(pr) => {
                r.push(Reference { target: pr.target.clone(), kind: pr.kind });
            },
            _ => {},
        }
        proof {
            assert(sels.deep_view().take(i as int + 1).drop_last() =~= sels.deep_view().take(
                i as int,
            ));
            assert(sels.deep_view().take(i as int + 1).last() == sels.deep_view()[i as int]);
        }
        i = i + 1;
    }
    proof {
        assert(sels.deep_view().take(sels@.len() as int) =~= sels.deep_view());
    }
    r
}

} // verus!
