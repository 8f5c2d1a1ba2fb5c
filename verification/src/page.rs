//! Pure page assembly: from the plain fields gathered off one fetched
//! page, build the ordered selections and continuation references that
//! the traversal engine consumes.

use vstd::prelude::*;

use crate::model::{
    clone_opt_string, DecodedPage, IplayerSelection, ItemFields, ItemV, PageV, Programme,
    ProgrammeV, RefKind, RefV, Reference,
};
use crate::selection::{classify_spec, resolve_opt, resolve_opt_url};
use crate::text::{normalize_key, resolve_ref_spec, resolve_reference_url, str_eq, strip_slash_spec};

verus! {

/// The plain values gathered off one page before assembly: the fields of
/// each item node in page order, the raw pagination and series link
/// targets, the series-navigation marker, and the page heading.
pub struct PageFields {
    pub items: Vec<ItemFields>,
    pub pagination_hrefs: Vec<String>,
    pub series_hrefs: Vec<String>,
    pub has_series_nav: bool,
    pub hero_title: Option<String>,
}

/// Mathematical view of [`PageFields`].
pub struct PageFieldsV {
    pub items: Seq<ItemV>,
    pub pagination_hrefs: Seq<Seq<char>>,
    pub series_hrefs: Seq<Seq<char>>,
    pub has_series_nav: bool,
    pub hero_title: Option<Seq<char>>,
}

impl View for PageFields {
    type V = PageFieldsV;

    open spec fn view(&self) -> PageFieldsV {
        PageFieldsV {
            items: self.items.deep_view(),
            pagination_hrefs: self.pagination_hrefs.deep_view(),
            series_hrefs: self.series_hrefs.deep_view(),
            has_series_nav: self.has_series_nav,
            hero_title: self.hero_title.deep_view(),
        }
    }
}

/// The classifications of a page's items, in page order.
pub open spec fn selections_spec(
    items: Seq<ItemV>,
    has_series_nav: bool,
    base: Seq<char>,
    page: Seq<char>,
) -> Seq<crate::model::SelectionV> {
    Seq::new(items.len(), |i: int| classify_spec(items[i], has_series_nav, base, page))
}

/// Pagination references: each numbered-page link resolved, kept only
/// when it leads somewhere other than the current page.
pub open spec fn next_refs_spec(hrefs: Seq<Seq<char>>, base: Seq<char>, page: Seq<char>) -> Seq<
    RefV,
>
    decreases hrefs.len(),
{
    if hrefs.len() == 0 {
        Seq::empty()
    } else {
        let rest = next_refs_spec(hrefs.drop_last(), base, page);
        let t = resolve_ref_spec(base, page, hrefs.last());
        if strip_slash_spec(t) == strip_slash_spec(page) {
            rest
        } else {
            rest.push(RefV { target: t, kind: RefKind::NextPage })
        }
    }
}

/// Series references: each series link resolved, in page order.
pub open spec fn series_refs_spec(hrefs: Seq<Seq<char>>, base: Seq<char>, page: Seq<char>) -> Seq<
    RefV,
>
    decreases hrefs.len(),
{
    if hrefs.len() == 0 {
        Seq::empty()
    } else {
        series_refs_spec(hrefs.drop_last(), base, page).push(
            RefV {
                target: resolve_ref_spec(base, page, hrefs.last()),
                kind: RefKind::SeriesPage,
            },
        )
    }
}

/// Everything the decoder yields for one page, as a function of the plain
/// fields gathered off it.
pub open spec fn assemble_spec(f: PageFieldsV, page: Seq<char>, base: Seq<char>) -> PageV {
    PageV {
        selections: selections_spec(f.items, f.has_series_nav, base, page),
        continuations: next_refs_spec(f.pagination_hrefs, base, page) + series_refs_spec(
            f.series_hrefs,
            base,
            page,
        ),
        is_boxset: f.has_series_nav,
    }
}

/// Resolve pagination links and keep those that leave the current page.
pub fn next_page_refs(hrefs: &Vec<String>, base: &str, page: &str) -> (r: Vec<Reference>)
    ensures
        r.deep_view() == next_refs_spec(hrefs.deep_view(), base@, page@),
{
    let page_key = normalize_key(page);
    let mut r: Vec<Reference> = Vec::new();
    let mut i: usize = 0;
    while i < hrefs.len()
        invariant
            i <= hrefs@.len(),
            page_key@ == strip_slash_spec(page@),
            r.deep_view() == next_refs_spec(hrefs.deep_view().take(i as int), base@, page@),
        decreases hrefs@.len() - i,
    {
        let t = resolve_reference_url(base, page, hrefs[i].as_str());
        let t_key = normalize_key(t.as_str());
        if !str_eq(t_key.as_str(), page_key.as_str()) {
            r.push(Reference { target: t, kind: RefKind::NextPage });
        }
        proof {
            assert(hrefs.deep_view().take(i as int + 1).drop_last() =~= hrefs.deep_view().take(
                i as int,
            ));
            assert(hrefs.deep_view().take(i as int + 1).last() == hrefs.deep_view()[i as int]);
        }
        i = i + 1;
    }
    proof {
        assert(hrefs.deep_view().take(hrefs@.len() as int) =~= hrefs.deep_view());
    }
    r
}

/// Resolve series links, in page order.
pub fn series_refs(hrefs: &Vec<String>, base: &str, page: &str) -> (r: Vec<Reference>)
    ensures
        r.deep_view() == series_refs_spec(hrefs.deep_view(), base@, page@),
{
    let mut r: Vec<Reference> = Vec::new();
    let mut i: usize = 0;
    while i < hrefs.len()
        invariant
            i <= hrefs@.len(),
            r.deep_view() == series_refs_spec(hrefs.deep_view().take(i as int), base@, page@),
        decreases hrefs@.len() - i,
    {
        let t = resolve_reference_url(base, page, hrefs[i].as_str());
        r.push(Reference { target: t, kind: RefKind::SeriesPage });
        proof {
            assert(hrefs.deep_view().take(i as int + 1).drop_last() =~= hrefs.deep_view().take(
                i as int,
            ));
            assert(hrefs.deep_view().take(i as int + 1).last() == hrefs.deep_view()[i as int]);
        }
        i = i + 1;
    }
    proof {
        assert(hrefs.deep_view().take(hrefs@.len() as int) =~= hrefs.deep_view());
    }
    r
}

/// Assemble one page: classify every item, resolve the continuation
/// links, and carry the series-landing marker through.
pub fn assemble_page(f: &PageFields, page: &str, base: &str) -> (p: DecodedPage)
    ensures
        p@ == assemble_spec(f@, page@, base@),
{
    let mut sels: Vec<IplayerSelection> = Vec::new();
    let mut i: usize = 0;
    while i < f.items.len()
        invariant
            i <= f.items@.len(),
            sels.deep_view().len() == i as int,
            forall|j: int|
                0 <= j < i ==> sels.deep_view()[j] == classify_spec(
                    f.items.deep_view()[j],
                    f.has_series_nav,
                    base@,
                    page@,
                ),
        decreases f.items@.len() - i,
    {
        let s = IplayerSelection::new(&f.items[i], f.has_series_nav, base, page);
        let ghost prev = sels.deep_view();
        sels.push(s);
        proof {
            assert forall|j: int|
                0 <= j < i + 1 implies sels.deep_view()[j] == classify_spec(
                f.items.deep_view()[j],
                f.has_series_nav,
                base@,
                page@,
            ) by {
                if j < i {
                    assert(sels.deep_view()[j] == prev[j]);
                } else {
                    assert(sels.deep_view()[j] == s@);
                    assert(f.items.deep_view()[j] == f.items@[j]@);
                }
            }
        }
        i = i + 1;
    }
    proof {
        assert(sels.deep_view() =~= selections_spec(
            f@.items,
            f.has_series_nav,
            base@,
            page@,
        ));
    }
    let mut conts = next_page_refs(&f.pagination_hrefs, base, page);
    let mut series = series_refs(&f.series_hrefs, base, page);
    let ghost c0 = conts.deep_view();
    let ghost s0 = series.deep_view();
    conts.append(&mut series);
    proof {
        assert(conts.deep_view() =~= c0 + s0);
    }
    DecodedPage { selections: sels, continuations: conts, is_boxset: f.has_series_nav }
}

/// The record one item of a programme (detail) page yields: the page
/// heading is the title of every record, the item's own first text is the
/// subtitle.
pub open spec fn page_record_of(hero: Option<Seq<char>>, item: ItemV, base: Seq<char>) -> ProgrammeV {
    ProgrammeV {
        title: hero,
        subtitle: item.subtitle,
        synopsis: item.synopsis,
        thumbnail: resolve_opt(base, item.thumbnail),
        url: resolve_opt(base, item.url),
        index: None,
        available: item.available,
        duration: item.duration,
    }
}

/// Build the records of a programme (detail) page from its heading and
/// its items.
pub fn programme_page_records(
    hero: &Option<String>,
    items: &Vec<ItemFields>,
    base: &str,
) -> (r: Vec<Programme>)
    ensures
        r.deep_view().len() == items@.len(),
        forall|j: int|
            0 <= j < items@.len() ==> r.deep_view()[j] == page_record_of(
                hero.deep_view(),
                items.deep_view()[j],
                base@,
            ),
{
    let mut r: Vec<Programme> = Vec::new();
    let mut i: usize = 0;
    while i < items.len()
        invariant
            i <= items@.len(),
            r.deep_view().len() == i as int,
            forall|j: int|
                0 <= j < i ==> r.deep_view()[j] == page_record_of(
                    hero.deep_view(),
                    items.deep_view()[j],
                    base@,
                ),
        decreases items@.len() - i,
    {
        let item = &items[i];
        let p = Programme {
            title: clone_opt_string(hero),
            subtitle: clone_opt_string(&item.subtitle),
            synopsis: clone_opt_string(&item.synopsis),
            thumbnail: resolve_opt_url(base, &item.thumbnail),
            url: resolve_opt_url(base, &item.url),
            index: None,
            available: clone_opt_string(&item.available),
            duration: clone_opt_string(&item.duration),
        };
        let ghost prev = r.deep_view();
        r.push(p);
        proof {
            assert forall|j: int|
                0 <= j < i + 1 implies r.deep_view()[j] == page_record_of(
                hero.deep_view(),
                items.deep_view()[j],
                base@,
            ) by {
                if j < i {
                    assert(r.deep_view()[j] == prev[j]);
                } else {
                    assert(r.deep_view()[j] == p@);
                    assert(items.deep_view()[j] == items@[j]@);
                }
            }
        }
        i = i + 1;
    }
    r
}

} // verus!
