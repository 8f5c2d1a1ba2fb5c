//! The traversal engine: a frontier of unvisited references, a visited
//! set keyed by normalized URL, and per-category accumulators of resolved
//! records in discovery order.
//!
//! Duplicates are filtered when a reference is enqueued, against both the
//! visited set and the frontier, so the frontier never holds two entries
//! with one key and a popped entry is always fresh: a URL is fetched at
//! most once per run, and pages are processed in the order their
//! references were discovered.

use vstd::prelude::*;

use crate::model::{
    Category, CategoryV, DecodeError, DecodedPage, FailureV, IplayerSelection, PageV, ProgrammeV,
    RefKind, RefV, TraversalErrorKind, TraversalFailure,
};
use crate::selection::{page_refs_spec, programme_pages};
use crate::text::{normalize_key, str_eq, strip_slash_spec};

verus! {

/// One frontier entry: a normalized target, the kind of page it leads
/// to, and the category whose crawl discovered it.
pub struct PendingRef {
    pub target: String,
    pub kind: RefKind,
    pub category: usize,
}

/// Mathematical view of a [`PendingRef`].
pub struct PendingV {
    pub target: Seq<char>,
    pub kind: RefKind,
    pub category: int,
}

impl View for PendingRef {
    type V = PendingV;

    open spec fn view(&self) -> PendingV {
        PendingV { target: self.target@, kind: self.kind, category: self.category as int }
    }
}

impl DeepView for PendingRef {
    type V = PendingV;

    open spec fn deep_view(&self) -> PendingV {
        self@
    }
}

/// A named crawl target: one category and the URL that seeds it.
pub struct Seed {
    pub name: String,
    pub url: String,
}

/// Mathematical view of a [`Seed`].
pub struct SeedV {
    pub name: Seq<char>,
    pub url: Seq<char>,
}

impl View for Seed {
    type V = SeedV;

    open spec fn view(&self) -> SeedV {
        SeedV { name: self.name@, url: self.url@ }
    }
}

impl DeepView for Seed {
    type V = SeedV;

    open spec fn deep_view(&self) -> SeedV {
        self@
    }
}

/// What one fetch-and-decode attempt produced for a popped reference.
pub enum PageResult {
    /// The page was fetched and decoded.
    Page(DecodedPage),
    /// The page was fetched but could not be decoded.
    DecodeFailed,
    /// The fetch collaborator could not produce the page.
    FetchFailed,
}

/// Mathematical view of a [`PageResult`].
pub enum PageResultV {
    Page(PageV),
    DecodeFailed,
    FetchFailed,
}

impl View for PageResult {
    type V = PageResultV;

    open spec fn view(&self) -> PageResultV {
        match self {
            PageResult::Page(p) => PageResultV::Page(p@),
            PageResult::DecodeFailed => PageResultV::DecodeFailed,
            PageResult::FetchFailed => PageResultV::FetchFailed,
        }
    }
}

impl DeepView for PageResult {
    type V = PageResultV;

    open spec fn deep_view(&self) -> PageResultV {
        self@
    }
}

/// Mathematical state of a traversal engine.
pub struct EngineV {
    pub frontier: Seq<PendingV>,
    pub visited: Seq<Seq<char>>,
    pub categories: Seq<CategoryV>,
    pub failures: Seq<FailureV>,
}

/// The normalized targets of the frontier, in queue order.
pub open spec fn frontier_targets(fr: Seq<PendingV>) -> Seq<Seq<char>> {
    fr.map_values(|p: PendingV| p.target)
}

/// Well-formedness of an engine state: the visited log holds no
/// duplicates, the frontier holds no duplicate targets, no frontier
/// target was already visited, and every frontier entry belongs to an
/// existing category.
pub open spec fn engine_wf(st: EngineV) -> bool {
    &&& st.visited.no_duplicates()
    &&& frontier_targets(st.frontier).no_duplicates()
    &&& forall|i: int| 0 <= i < st.frontier.len() ==> !st.visited.contains(#[trigger] st.frontier[i].target)
    &&& forall|i: int| 0 <= i < st.frontier.len() ==> 0 <= #[trigger] st.frontier[i].category < st.categories.len()
}

/// A key may be enqueued when it is neither visited nor already queued.
pub open spec fn can_enqueue(st: EngineV, key: Seq<char>) -> bool {
    !st.visited.contains(key) && !frontier_targets(st.frontier).contains(key)
}

/// Enqueue one reference: normalize its target, gate series references on
/// the series-landing marker, and drop anything visited or already
/// queued.
pub open spec fn enqueue_one(st: EngineV, r: RefV, cat: int, boxset: bool) -> EngineV {
    let key = strip_slash_spec(r.target);
    if r.kind == RefKind::SeriesPage && !boxset {
        st
    } else if !can_enqueue(st, key) {
        st
    } else {
        EngineV {
            frontier: st.frontier.push(PendingV { target: key, kind: r.kind, category: cat }),
            ..st
        }
    }
}

/// Enqueue a run of references in order.
pub open spec fn enqueue_refs(st: EngineV, refs: Seq<RefV>, cat: int, boxset: bool) -> EngineV
    decreases refs.len(),
{
    if refs.len() == 0 {
        st
    } else {
        enqueue_refs(enqueue_one(st, refs[0], cat, boxset), refs.drop_first(), cat, boxset)
    }
}

/// The programme records among a page's selections, in page order; a
/// skipped selection contributes nothing.
pub open spec fn records_of(sels: Seq<crate::model::SelectionV>) -> Seq<ProgrammeV>
    decreases sels.len(),
{
    if sels.len() == 0 {
        Seq::empty()
    } else {
        let rest = records_of(sels.drop_last());
        match sels.last() {
            crate::model::SelectionV::Programme(p) => rest.push(p),
            _ => rest,
        }
    }
}

/// Append records to one category, leaving the others unchanged.
pub open spec fn add_records(cats: Seq<CategoryV>, cat: int, recs: Seq<ProgrammeV>) -> Seq<
    CategoryV,
> {
    cats.update(
        cat,
        CategoryV { name: cats[cat].name, programmes: cats[cat].programmes + recs },
    )
}

/// Apply the outcome of one fetched reference to the engine state: a
/// decoded page contributes its records to the originating category and
/// its references to the frontier (selection references first, then
/// continuations); a failure is recorded against the reference and the
/// traversal goes on.
pub open spec fn apply_outcome(st: EngineV, cat: int, url: Seq<char>, res: PageResultV) -> EngineV {
    match res {
        PageResultV::Page(p) => {
            let st1 = EngineV {
                categories: add_records(st.categories, cat, records_of(p.selections)),
                ..st
            };
            let st2 = enqueue_refs(st1, page_refs_spec(p.selections), cat, p.is_boxset);
            enqueue_refs(st2, p.continuations, cat, p.is_boxset)
        },
        PageResultV::DecodeFailed => EngineV {
            failures: st.failures.push(
                FailureV { target: url, error: TraversalErrorKind::DecodeFailed },
            ),
            ..st
        },
        PageResultV::FetchFailed => EngineV {
            failures: st.failures.push(
                FailureV { target: url, error: TraversalErrorKind::FetchFailed },
            ),
            ..st
        },
    }
}

/// Pop the head of the frontier and mark it visited.
pub open spec fn pop_state(st: EngineV) -> EngineV {
    EngineV {
        frontier: st.frontier.drop_first(),
        visited: st.visited.push(st.frontier[0].target),
        ..st
    }
}

/// Seed the frontier: one entry per seed, in seed order, each tagged with
/// its own category.
pub open spec fn enqueue_seeds(st: EngineV, seeds: Seq<SeedV>, next_cat: int) -> EngineV
    decreases seeds.len(),
{
    if seeds.len() == 0 {
        st
    } else {
        enqueue_seeds(
            enqueue_one(
                st,
                RefV { target: seeds[0].url, kind: RefKind::NextPage },
                next_cat,
                true,
            ),
            seeds.drop_first(),
            next_cat + 1,
        )
    }
}

/// The empty accumulators: one category per seed, in seed order.
pub open spec fn init_categories(seeds: Seq<SeedV>) -> Seq<CategoryV> {
    Seq::new(seeds.len(), |i: int| CategoryV { name: seeds[i].name, programmes: Seq::empty() })
}

/// The engine state a fresh traversal starts from.
pub open spec fn init_state(seeds: Seq<SeedV>) -> EngineV {
    enqueue_seeds(
        EngineV {
            frontier: Seq::empty(),
            visited: Seq::empty(),
            categories: init_categories(seeds),
            failures: Seq::empty(),
        },
        seeds,
        0,
    )
}

/// The traversal engine. Its state is exactly [`EngineV`]; every method's
/// contract is a function of that view.
pub struct TraversalEngine {
    pub frontier: Vec<PendingRef>,
    pub visited: Vec<String>,
    pub categories: Vec<Category>,
    pub failures: Vec<TraversalFailure>,
}

impl View for TraversalEngine {
    type V = EngineV;

    open spec fn view(&self) -> EngineV {
        EngineV {
            frontier: self.frontier.deep_view(),
            visited: self.visited.deep_view(),
            categories: self.categories.deep_view(),
            failures: self.failures.deep_view(),
        }
    }
}

impl TraversalEngine {
    /// A fresh engine: one empty category per seed, the frontier seeded
    /// in order, duplicate seed URLs collapsed.
    pub fn new(seeds: &Vec<Seed>) -> (e: TraversalEngine)
        ensures
            e@ == init_state(seeds.deep_view()),
            engine_wf(e@),
    {
        let mut categories: Vec<Category> = Vec::new();
        let mut i: usize = 0;
        while i < seeds.len()
            invariant
                i <= seeds@.len(),
                categories.deep_view().len() == i as int,
                forall|j: int|
                    0 <= j < i ==> categories.deep_view()[j] == (CategoryV {
                        name: seeds.deep_view()[j].name,
                        programmes: Seq::empty(),
                    }),
            decreases seeds@.len() - i,
        {
            let ghost prev = categories.deep_view();
            let c = Category { name: seeds[i].name.clone(), programmes: Vec::new() };
            proof {
                assert(c@.programmes =~= Seq::<ProgrammeV>::empty());
                assert(seeds.deep_view()[i as int] == seeds@[i as int]@);
            }
            categories.push(c);
            proof {
                assert forall|j: int|
                    0 <= j < i + 1 implies categories.deep_view()[j] == (CategoryV {
                    name: seeds.deep_view()[j].name,
                    programmes: Seq::empty(),
                }) by {
                    if j < i {
                        assert(categories.deep_view()[j] == prev[j]);
                    } else {
                        assert(categories.deep_view()[j] == c@);
                    }
                }
            }
            i = i + 1;
        }
        proof {
            assert(categories.deep_view() =~= init_categories(seeds.deep_view()));
        }
        let mut e = TraversalEngine { frontier: Vec::new(), visited: Vec::new(), categories, failures: Vec::new() };
        proof {
            assert(e@.frontier =~= Seq::<PendingV>::empty());
            assert(e@.visited =~= Seq::<Seq<char>>::empty());
            assert(e@.failures =~= Seq::<FailureV>::empty());
        }
        let ghost st0 = e@;
        proof {
            assert(seeds.deep_view().skip(0) =~= seeds.deep_view());
        }
        let mut k: usize = 0;
        while k < seeds.len()
            invariant
                k <= seeds@.len(),
                engine_wf(e@),
                e@.categories.len() == seeds@.len(),
                enqueue_seeds(e@, seeds.deep_view().skip(k as int), k as int) == enqueue_seeds(
                    st0,
                    seeds.deep_view(),
                    0,
                ),
            decreases seeds@.len() - k,
        {
            let ghost pre = e@;
            let ghost rest = seeds.deep_view().skip(k as int);
            let key = normalize_key(seeds[k].url.as_str());
            let is_fresh = e.is_enqueueable(key.as_str());
            if is_fresh {
                e.frontier.push(PendingRef { target: key, kind: RefKind::NextPage, category: k });
                proof {
                    lemma_push_frontier_wf(pre, strip_slash_spec(seeds.deep_view()[k as int].url), RefKind::NextPage, k as int);
                }
            }
            proof {
                assert(seeds.deep_view()[k as int] == seeds@[k as int]@);
                assert(e@ == enqueue_one(
                    pre,
                    RefV { target: seeds.deep_view()[k as int].url, kind: RefKind::NextPage },
                    k as int,
                    true,
                )) by {
                    if is_fresh {
                        assert(e@.frontier =~= pre.frontier.push(
                            PendingV {
                                target: strip_slash_spec(seeds.deep_view()[k as int].url),
                                kind: RefKind::NextPage,
                                category: k as int,
                            },
                        ));
                    }
                }
                assert(rest[0] == seeds.deep_view()[k as int]);
                assert(rest.drop_first() =~= seeds.deep_view().skip(k as int + 1));
            }
            k = k + 1;
        }
        proof {
            assert(seeds.deep_view().skip(seeds@.len() as int) =~= Seq::<SeedV>::empty());
        }
        e
    }

    /// Whether any reference is still waiting to be fetched.
    pub fn frontier_nonempty(&self) -> (r: bool)
        ensures
            r == (self@.frontier.len() > 0),
    {
        self.frontier.len() > 0
    }

    /// Whether `key` is neither visited nor queued.
    fn is_enqueueable(&self, key: &str) -> (r: bool)
        ensures
            r == can_enqueue(self@, key@),
    {
        let mut i: usize = 0;
        while i < self.visited.len()
            invariant
                i <= self@.visited.len(),
                forall|j: int| 0 <= j < i ==> self@.visited[j] != key@,
            decreases self@.visited.len() - i,
        {
            if str_eq(self.visited[i].as_str(), key) {
                proof {
                    assert(self@.visited[i as int] == self.visited@[i as int]@);
                    assert(self@.visited.contains(key@));
                }
                return false;
            }
            proof {
                assert(self@.visited[i as int] == self.visited@[i as int]@);
            }
            i = i + 1;
        }
        proof {
            assert(!self@.visited.contains(key@));
        }
        let mut j: usize = 0;
        while j < self.frontier.len()
            invariant
                j <= self@.frontier.len(),
                forall|l: int| 0 <= l < j ==> self@.frontier[l].target != key@,
                !self@.visited.contains(key@),
            decreases self@.frontier.len() - j,
        {
            if str_eq(self.frontier[j].target.as_str(), key) {
                proof {
                    assert(self@.frontier[j as int] == self.frontier@[j as int]@);
                    assert(frontier_targets(self@.frontier)[j as int] == key@);
                    assert(frontier_targets(self@.frontier).contains(key@));
                }
                return false;
            }
            proof {
                assert(self@.frontier[j as int] == self.frontier@[j as int]@);
            }
            j = j + 1;
        }
        proof {
            assert forall|l: int|
                0 <= l < frontier_targets(self@.frontier).len()
                    implies frontier_targets(self@.frontier)[l] != key@ by {
                assert(self@.frontier[l].target != key@);
            }
            assert(!frontier_targets(self@.frontier).contains(key@));
        }
        true
    }

    /// Pop the next reference: its normalized URL is marked visited and
    /// handed out for fetching. Duplicates were filtered at enqueue time,
    /// so a popped reference is never one already visited.
    pub fn next_request(&mut self) -> (r: Option<(usize, String)>)
        requires
            engine_wf(old(self)@),
        ensures
            engine_wf(final(self)@),
            old(self)@.frontier.len() == 0 ==> r is None && final(self)@ == old(self)@,
            old(self)@.frontier.len() > 0 ==> final(self)@ == pop_state(old(self)@) && (
            r matches Some(t) && t.0 as int == old(self)@.frontier[0].category && t.1@ == old(
                self,
            )@.frontier[0].target),
    {
        if self.frontier.len() == 0 {
            proof {
                assert(self@.frontier.len() == 0);
            }
            return None;
        }
        let p = self.frontier.remove(0);
        self.visited.push(p.target.clone());
        proof {
            let ghost pre = old(self)@;
            assert(self@.frontier =~= pre.frontier.drop_first());
            assert(self@.visited =~= pre.visited.push(pre.frontier[0].target));
            lemma_pop_wf(pre);
        }
        Some((p.category, p.target))
    }

    /// Record the outcome of one fetched reference: accumulate records,
    /// enqueue fresh references, or record the failure.
    pub fn deliver(&mut self, cat: usize, url: &str, res: PageResult)
        requires
            engine_wf(old(self)@),
            cat < old(self)@.categories.len(),
        ensures
            engine_wf(final(self)@),
            final(self)@ == apply_outcome(old(self)@, cat as int, url@, res@),
            final(self)@.categories.len() == old(self)@.categories.len(),
    {
        match res {
            PageResult::Page(page) => {
                let DecodedPage { selections: sels, continuations: conts, is_boxset: boxset } =
                    page;
                let ghost pre = self@;
                let ghost cats0 = self.categories@;
                let mut c = self.categories.remove(cat);
                proof {
                    assert(c@ == pre.categories[cat as int]);
                }
                let ghost base_progs = c.programmes.deep_view();
                let mut i: usize = 0;
                while i < sels.len()
                    invariant
                        i <= sels@.len(),
                        c.name@ == pre.categories[cat as int].name,
                        base_progs == pre.categories[cat as int].programmes,
                        c.programmes.deep_view() == base_progs + records_of(
                            sels.deep_view().take(i as int),
                        ),
                    decreases sels@.len() - i,
                {
                    proof {
                        assert(sels.deep_view().take(i as int + 1).drop_last()
                            =~= sels.deep_view().take(i as int));
                        assert(sels.deep_view().take(i as int + 1).last() == sels.deep_view()[i as int]);
                        assert(sels.deep_view()[i as int] == sels@[i as int]@);
                    }
                    let ghost before = c.programmes.deep_view();
                    match &sels[i] {
                        IplayerSelection::Programme(p) => {
                            c.programmes.push(p.duplicate());
                            proof {
                                assert(c.programmes.deep_view() =~= before.push(p@));
                                assert(records_of(sels.deep_view().take(i as int + 1))
                                    =~= records_of(sels.deep_view().take(i as int)).push(p@));
                                assert(c.programmes.deep_view() =~= base_progs + records_of(
                                    sels.deep_view().take(i as int + 1),
                                ));
                            }
                        },
                        _ => {
                            proof {
                                assert(records_of(sels.deep_view().take(i as int + 1))
                                    =~= records_of(sels.deep_view().take(i as int)));
                            }
                        },
                    }
                    i = i + 1;
                }
                proof {
                    assert(sels.deep_view().take(sels@.len() as int) =~= sels.deep_view());
                }
                self.categories.insert(cat, c);
                proof {
                    let ghost target = add_records(
                        pre.categories,
                        cat as int,
                        records_of(sels.deep_view()),
                    );
                    assert(self.categories@ =~= cats0.update(cat as int, c));
                    assert forall|j: int|
                        0 <= j < self@.categories.len() implies self@.categories[j] == target[j] by {
                        assert(self@.categories[j] == self.categories@[j]@);
                        if j != cat as int {
                            assert(self.categories@[j] == cats0[j]);
                            assert(pre.categories[j] == cats0[j]@);
                        } else {
                            assert(self.categories@[j] == c);
                        }
                    }
                    assert(self@.categories =~= target);
                    assert(self@.frontier == pre.frontier);
                    assert(self@.visited == pre.visited);
                    assert(self@.failures == pre.failures);
                    assert(engine_wf(self@));
                }
                let refs = programme_pages(&sels);
                self.enqueue_all(&refs, cat, boxset);
                self.enqueue_all(&conts, cat, boxset);
            },
            PageResult::DecodeFailed => {
                self.failures.push(
                    TraversalFailure { target: url.to_owned(), error: TraversalErrorKind::DecodeFailed },
                );
                proof {
                    assert(self@.failures =~= old(self)@.failures.push(
                        FailureV { target: url@, error: TraversalErrorKind::DecodeFailed },
                    ));
                }
            },
            PageResult::FetchFailed => {
                self.failures.push(
                    TraversalFailure { target: url.to_owned(), error: TraversalErrorKind::FetchFailed },
                );
                proof {
                    assert(self@.failures =~= old(self)@.failures.push(
                        FailureV { target: url@, error: TraversalErrorKind::FetchFailed },
                    ));
                }
            },
        }
    }

    /// Enqueue a run of references in order, for one category.
    fn enqueue_all(&mut self, refs: &Vec<crate::model::Reference>, cat: usize, boxset: bool)
        requires
            engine_wf(old(self)@),
            cat < old(self)@.categories.len(),
        ensures
            engine_wf(final(self)@),
            final(self)@ == enqueue_refs(old(self)@, refs.deep_view(), cat as int, boxset),
            final(self)@.categories == old(self)@.categories,
    {
        let ghost st0 = self@;
        proof {
            assert(refs.deep_view().skip(0) =~= refs.deep_view());
        }
        let mut i: usize = 0;
        while i < refs.len()
            invariant
                i <= refs@.len(),
                engine_wf(self@),
                self@.categories == st0.categories,
                cat < self@.categories.len(),
                enqueue_refs(self@, refs.deep_view().skip(i as int), cat as int, boxset)
                    == enqueue_refs(st0, refs.deep_view(), cat as int, boxset),
            decreases refs@.len() - i,
        {
            let ghost pre = self@;
            let ghost rv = refs.deep_view()[i as int];
            let key = normalize_key(refs[i].target.as_str());
            let series_gated = match refs[i].kind {
                RefKind::SeriesPage => !boxset,
                _ => false,
            };
            if !series_gated {
                if self.is_enqueueable(key.as_str()) {
                    self.frontier.push(
                        PendingRef { target: key, kind: refs[i].kind, category: cat },
                    );
                    proof {
                        lemma_push_frontier_wf(pre, strip_slash_spec(rv.target), rv.kind, cat as int);
                    }
                }
            }
            proof {
                assert(refs.deep_view()[i as int] == refs@[i as int]@);
                assert(self@ == enqueue_one(pre, rv, cat as int, boxset)) by {
                    if !series_gated && can_enqueue(pre, strip_slash_spec(rv.target)) {
                        assert(self@.frontier =~= pre.frontier.push(
                            PendingV {
                                target: strip_slash_spec(rv.target),
                                kind: rv.kind,
                                category: cat as int,
                            },
                        ));
                    }
                }
                assert(refs.deep_view().skip(i as int)[0] == rv);
                assert(refs.deep_view().skip(i as int).drop_first() =~= refs.deep_view().skip(
                    i as int + 1,
                ));
            }
            i = i + 1;
        }
        proof {
            assert(refs.deep_view().skip(refs@.len() as int) =~= Seq::<RefV>::empty());
        }
    }

    /// Hand the accumulators out: the categories in seed order, the
    /// per-reference failures, and the fetch log in fetch order.
    pub fn into_result(self) -> (r: TraversalResult)
        ensures
            r@ == result_of(self@),
    {
        TraversalResult {
            categories: self.categories,
            failures: self.failures,
            fetched: self.visited,
        }
    }
}

/// Everything one traversal run produces.
pub struct TraversalResult {
    pub categories: Vec<Category>,
    pub failures: Vec<TraversalFailure>,
    pub fetched: Vec<String>,
}

/// Mathematical view of a [`TraversalResult`].
pub struct TraversalResultV {
    pub categories: Seq<CategoryV>,
    pub failures: Seq<FailureV>,
    pub fetched: Seq<Seq<char>>,
}

impl View for TraversalResult {
    type V = TraversalResultV;

    open spec fn view(&self) -> TraversalResultV {
        TraversalResultV {
            categories: self.categories.deep_view(),
            failures: self.failures.deep_view(),
            fetched: self.fetched.deep_view(),
        }
    }
}

/// The result an engine state denotes.
pub open spec fn result_of(st: EngineV) -> TraversalResultV {
    TraversalResultV { categories: st.categories, failures: st.failures, fetched: st.visited }
}

/// One fixture page: the URL it stands for, and either its decoded form
/// or the decode failure that fetching it yields.
pub struct FixturePage {
    pub url: String,
    pub outcome: Result<DecodedPage, DecodeError>,
}

/// Mathematical view of a [`FixturePage`].
pub struct FixturePageV {
    pub url: Seq<char>,
    pub outcome: PageResultV,
}

impl View for FixturePage {
    type V = FixturePageV;

    open spec fn view(&self) -> FixturePageV {
        FixturePageV {
            url: self.url@,
            outcome: match self.outcome {
                Ok(p) => PageResultV::Page(p@),
                Err(_) => PageResultV::DecodeFailed,
            },
        }
    }
}

impl DeepView for FixturePage {
    type V = FixturePageV;

    open spec fn deep_view(&self) -> FixturePageV {
        self@
    }
}

/// What fetching `key` against a fixture table yields: the first entry
/// whose normalized URL matches, or a fetch failure when none does.
pub open spec fn lookup_v(pages: Seq<FixturePageV>, key: Seq<char>) -> PageResultV
    decreases pages.len(),
{
    if pages.len() == 0 {
        PageResultV::FetchFailed
    } else if strip_slash_spec(pages[0].url) == key {
        pages[0].outcome
    } else {
        lookup_v(pages.drop_first(), key)
    }
}

/// Fetch `key` against a fixture table.
pub fn lookup_fixture(pages: &Vec<FixturePage>, key: &str) -> (r: PageResult)
    ensures
        r@ == lookup_v(pages.deep_view(), key@),
{
    proof {
        assert(pages.deep_view().skip(0) =~= pages.deep_view());
    }
    let mut i: usize = 0;
    while i < pages.len()
        invariant
            i <= pages@.len(),
            lookup_v(pages.deep_view().skip(i as int), key@) == lookup_v(
                pages.deep_view(),
                key@,
            ),
        decreases pages@.len() - i,
    {
        let ghost rest = pages.deep_view().skip(i as int);
        let entry_key = normalize_key(pages[i].url.as_str());
        proof {
            assert(rest[0] == pages.deep_view()[i as int]);
            assert(pages.deep_view()[i as int] == pages@[i as int]@);
            assert(rest.drop_first() =~= pages.deep_view().skip(i as int + 1));
        }
        if str_eq(entry_key.as_str(), key) {
            match &pages[i].outcome {
                Ok(p) => {
                    return PageResult::Page(p.duplicate());
                },
                Err(_) => {
                    return PageResult::DecodeFailed;
                },
            }
        }
        i = i + 1;
    }
    proof {
        assert(pages.deep_view().skip(pages@.len() as int) =~= Seq::<FixturePageV>::empty());
    }
    PageResult::FetchFailed
}

/// The normalized targets one page outcome can enqueue.
pub open spec fn outcome_targets(res: PageResultV) -> Seq<Seq<char>> {
    match res {
        PageResultV::Page(p) => page_refs_spec(p.selections).map_values(
            |r: RefV| strip_slash_spec(r.target),
        ) + p.continuations.map_values(|r: RefV| strip_slash_spec(r.target)),
        PageResultV::DecodeFailed => Seq::empty(),
        PageResultV::FetchFailed => Seq::empty(),
    }
}

/// All the normalized targets a fixture table can ever enqueue.
pub open spec fn table_targets(pages: Seq<FixturePageV>) -> Seq<Seq<char>>
    decreases pages.len(),
{
    if pages.len() == 0 {
        Seq::empty()
    } else {
        outcome_targets(pages[0].outcome) + table_targets(pages.drop_first())
    }
}

/// Every normalized URL a traversal over the given table, in the given
/// state, can ever hold in its frontier or visited set.
pub open spec fn universe(pages: Seq<FixturePageV>, st: EngineV) -> Set<Seq<char>> {
    (table_targets(pages) + frontier_targets(st.frontier) + st.visited).to_set()
}

/// One traversal step: pop the head of the frontier, fetch it against the
/// table, and apply the outcome.
pub open spec fn step_v(pages: Seq<FixturePageV>, st: EngineV) -> EngineV {
    let p = st.frontier[0];
    apply_outcome(pop_state(st), p.category, p.target, lookup_v(pages, p.target))
}

/// Run the traversal for at most `fuel` steps.
pub open spec fn run_fuel(pages: Seq<FixturePageV>, st: EngineV, fuel: nat) -> EngineV
    decreases fuel,
{
    if fuel == 0 || st.frontier.len() == 0 {
        st
    } else {
        run_fuel(pages, step_v(pages, st), (fuel - 1) as nat)
    }
}

/// Run the traversal to completion. The universe of reachable URLs is
/// finite and every step visits a fresh one, so its cardinality is enough
/// fuel: this is the termination argument.
pub open spec fn run_v(pages: Seq<FixturePageV>, st: EngineV) -> EngineV {
    run_fuel(pages, st, universe(pages, st).len())
}

/// Membership in a concatenation splits into membership in the parts.
proof fn lemma_concat_contains<A>(a: Seq<A>, b: Seq<A>, t: A)
    ensures
        (a + b).contains(t) <==> a.contains(t) || b.contains(t),
{
    if a.contains(t) {
        let i = choose|i: int| 0 <= i < a.len() && a[i] == t;
        assert((a + b)[i] == t);
    }
    if b.contains(t) {
        let i = choose|i: int| 0 <= i < b.len() && b[i] == t;
        assert((a + b)[i + a.len()] == t);
    }
    if (a + b).contains(t) {
        let i = choose|i: int| 0 <= i < (a + b).len() && (a + b)[i] == t;
        if i < a.len() {
            assert(a[i] == t);
        } else {
            assert(b[i - a.len()] == t);
        }
    }
}

/// What a lookup can enqueue is within what the table can enqueue.
proof fn lemma_lookup_targets(pages: Seq<FixturePageV>, key: Seq<char>, t: Seq<char>)
    requires
        outcome_targets(lookup_v(pages, key)).contains(t),
    ensures
        table_targets(pages).contains(t),
    decreases pages.len(),
{
    if pages.len() == 0 {
    } else if strip_slash_spec(pages[0].url) == key {
        lemma_concat_contains(
            outcome_targets(pages[0].outcome),
            table_targets(pages.drop_first()),
            t,
        );
    } else {
        lemma_lookup_targets(pages.drop_first(), key, t);
        lemma_concat_contains(
            outcome_targets(pages[0].outcome),
            table_targets(pages.drop_first()),
            t,
        );
    }
}

/// Enqueueing a run of references keeps the state well formed, touches
/// nothing but the frontier, and adds only the references' own targets.
proof fn lemma_enqueue_refs_props(st: EngineV, refs: Seq<RefV>, cat: int, boxset: bool)
    requires
        engine_wf(st),
        0 <= cat < st.categories.len(),
    ensures
        engine_wf(enqueue_refs(st, refs, cat, boxset)),
        enqueue_refs(st, refs, cat, boxset).visited == st.visited,
        enqueue_refs(st, refs, cat, boxset).categories == st.categories,
        enqueue_refs(st, refs, cat, boxset).failures == st.failures,
        forall|t: Seq<char>|
            frontier_targets(#[trigger] enqueue_refs(st, refs, cat, boxset).frontier).contains(t)
                ==> frontier_targets(st.frontier).contains(t) || refs.map_values(
                |r: RefV| strip_slash_spec(r.target),
            ).contains(t),
    decreases refs.len(),
{
    if refs.len() > 0 {
        let st1 = enqueue_one(st, refs[0], cat, boxset);
        let key = strip_slash_spec(refs[0].target);
        if refs[0].kind == RefKind::SeriesPage && !boxset {
        } else if !can_enqueue(st, key) {
        } else {
            lemma_push_frontier_wf(st, key, refs[0].kind, cat);
            assert(frontier_targets(st1.frontier) =~= frontier_targets(st.frontier).push(key));
        }
        lemma_enqueue_refs_props(st1, refs.drop_first(), cat, boxset);
        let res = enqueue_refs(st, refs, cat, boxset);
        let targets = refs.map_values(|r: RefV| strip_slash_spec(r.target));
        assert forall|t: Seq<char>|
            frontier_targets(#[trigger] res.frontier).contains(t) implies frontier_targets(
            st.frontier,
        ).contains(t) || targets.contains(t) by {
            let rest_targets = refs.drop_first().map_values(
                |r: RefV| strip_slash_spec(r.target),
            );
            if frontier_targets(st1.frontier).contains(t) {
                if !frontier_targets(st.frontier).contains(t) {
                    assert(t == key);
                    assert(targets[0] == key);
                }
            } else {
                assert(rest_targets.contains(t));
                let i = choose|i: int| 0 <= i < rest_targets.len() && rest_targets[i] == t;
                assert(targets[i + 1] == t);
            }
        }
    }
}

/// Applying a page outcome keeps the state well formed, only appends to
/// the visited-independent parts, and enqueues only the outcome's own
/// targets.
proof fn lemma_apply_outcome_props(st: EngineV, cat: int, url: Seq<char>, res: PageResultV)
    requires
        engine_wf(st),
        0 <= cat < st.categories.len(),
    ensures
        engine_wf(apply_outcome(st, cat, url, res)),
        apply_outcome(st, cat, url, res).visited == st.visited,
        apply_outcome(st, cat, url, res).categories.len() == st.categories.len(),
        forall|i: int|
            0 <= i < st.categories.len() ==> (#[trigger] apply_outcome(
                st,
                cat,
                url,
                res,
            ).categories[i]).name == st.categories[i].name,
        forall|t: Seq<char>|
            frontier_targets(#[trigger] apply_outcome(st, cat, url, res).frontier).contains(t)
                ==> frontier_targets(st.frontier).contains(t) || outcome_targets(res).contains(t),
{
    match res {
        PageResultV::Page(p) => {
            let st1 = EngineV {
                categories: add_records(st.categories, cat, records_of(p.selections)),
                ..st
            };
            assert(engine_wf(st1));
            let sel_targets = page_refs_spec(p.selections).map_values(
                |r: RefV| strip_slash_spec(r.target),
            );
            let cont_targets = p.continuations.map_values(|r: RefV| strip_slash_spec(r.target));
            let st2 = enqueue_refs(st1, page_refs_spec(p.selections), cat, p.is_boxset);
            lemma_enqueue_refs_props(st1, page_refs_spec(p.selections), cat, p.is_boxset);
            lemma_enqueue_refs_props(st2, p.continuations, cat, p.is_boxset);
            let fin = apply_outcome(st, cat, url, res);
            assert forall|t: Seq<char>|
                frontier_targets(#[trigger] fin.frontier).contains(t) implies frontier_targets(
                st.frontier,
            ).contains(t) || outcome_targets(res).contains(t) by {
                if !frontier_targets(st.frontier).contains(t) {
                    lemma_concat_contains(sel_targets, cont_targets, t);
                }
            }
        },
        PageResultV::DecodeFailed => {},
        PageResultV::FetchFailed => {},
    }
}

/// One step keeps the state well formed, extends the visited log by the
/// fresh popped key, and shrinks the universe of reachable URLs.
proof fn lemma_step_props(pages: Seq<FixturePageV>, st: EngineV)
    requires
        engine_wf(st),
        st.frontier.len() > 0,
    ensures
        engine_wf(step_v(pages, st)),
        step_v(pages, st).visited == st.visited.push(st.frontier[0].target),
        universe(pages, step_v(pages, st)).subset_of(universe(pages, st)),
        step_v(pages, st).categories.len() == st.categories.len(),
        forall|i: int|
            0 <= i < st.categories.len() ==> (#[trigger] step_v(pages, st).categories[i]).name
                == st.categories[i].name,
{
    let p = st.frontier[0];
    let popped = pop_state(st);
    lemma_pop_wf(st);
    lemma_apply_outcome_props(popped, p.category, p.target, lookup_v(pages, p.target));
    let fin = step_v(pages, st);
    assert forall|t: Seq<char>|
        universe(pages, fin).contains(t) implies universe(pages, st).contains(t) by {
        let before = table_targets(pages) + frontier_targets(st.frontier) + st.visited;
        let after = table_targets(pages) + frontier_targets(fin.frontier) + fin.visited;
        assert(after.contains(t));
        lemma_concat_contains(table_targets(pages) + frontier_targets(fin.frontier), fin.visited, t);
        lemma_concat_contains(table_targets(pages), frontier_targets(fin.frontier), t);
        if table_targets(pages).contains(t) {
            lemma_concat_contains(table_targets(pages), frontier_targets(st.frontier), t);
            lemma_concat_contains(table_targets(pages) + frontier_targets(st.frontier), st.visited, t);
        } else if frontier_targets(fin.frontier).contains(t) {
            if frontier_targets(popped.frontier).contains(t) {
                let i = choose|i: int|
                    0 <= i < frontier_targets(popped.frontier).len() && frontier_targets(
                        popped.frontier,
                    )[i] == t;
                assert(popped.frontier[i] == st.frontier[i + 1]);
                assert(frontier_targets(st.frontier)[i + 1] == t);
                lemma_concat_contains(table_targets(pages), frontier_targets(st.frontier), t);
                lemma_concat_contains(
                    table_targets(pages) + frontier_targets(st.frontier),
                    st.visited,
                    t,
                );
            } else {
                lemma_lookup_targets(pages, p.target, t);
                lemma_concat_contains(table_targets(pages), frontier_targets(st.frontier), t);
                lemma_concat_contains(
                    table_targets(pages) + frontier_targets(st.frontier),
                    st.visited,
                    t,
                );
            }
        } else {
            assert(fin.visited.contains(t));
            assert(fin.visited == st.visited.push(p.target));
            let i = choose|i: int| 0 <= i < fin.visited.len() && fin.visited[i] == t;
            if i < st.visited.len() {
                assert(st.visited[i] == t);
                lemma_concat_contains(table_targets(pages), frontier_targets(st.frontier), t);
                lemma_concat_contains(
                    table_targets(pages) + frontier_targets(st.frontier),
                    st.visited,
                    t,
                );
            } else {
                assert(t == p.target);
                assert(frontier_targets(st.frontier)[0] == t);
                lemma_concat_contains(table_targets(pages), frontier_targets(st.frontier), t);
                lemma_concat_contains(
                    table_targets(pages) + frontier_targets(st.frontier),
                    st.visited,
                    t,
                );
            }
        }
    }
}

/// While the frontier is non-empty, the visited log is strictly smaller
/// than the universe of reachable URLs: its head is reachable and fresh.
proof fn lemma_visited_bound(pages: Seq<FixturePageV>, st: EngineV)
    requires
        engine_wf(st),
        st.frontier.len() > 0,
    ensures
        st.visited.len() < universe(pages, st).len(),
        universe(pages, st).finite(),
{
    broadcast use vstd::seq_lib::seq_to_set_is_finite;
    broadcast use vstd::set::group_set_axioms;

    let t = st.frontier[0].target;
    assert(frontier_targets(st.frontier)[0] == t);
    lemma_concat_contains(table_targets(pages), frontier_targets(st.frontier), t);
    lemma_concat_contains(table_targets(pages) + frontier_targets(st.frontier), st.visited, t);
    assert(universe(pages, st).contains(t));
    st.visited.unique_seq_to_set();
    assert(!st.visited.contains(t));
    assert(!st.visited.to_set().contains(t));
    let grown = st.visited.to_set().insert(t);
    assert(grown.len() == st.visited.len() + 1);
    assert forall|x: Seq<char>| grown.contains(x) implies universe(pages, st).contains(x) by {
        if x != t {
            assert(st.visited.to_set().contains(x));
            assert(st.visited.contains(x));
            lemma_concat_contains(table_targets(pages), frontier_targets(st.frontier), x);
            lemma_concat_contains(
                table_targets(pages) + frontier_targets(st.frontier),
                st.visited,
                x,
            );
        }
    }
    vstd::set_lib::lemma_len_subset(grown, universe(pages, st));
}

/// With fuel for every URL the traversal can still reach, the run drains
/// the frontier completely.
proof fn lemma_run_fuel_completes(pages: Seq<FixturePageV>, st: EngineV, fuel: nat)
    requires
        engine_wf(st),
        fuel >= universe(pages, st).len() - st.visited.len(),
    ensures
        run_fuel(pages, st, fuel).frontier.len() == 0,
    decreases fuel,
{
    broadcast use vstd::seq_lib::seq_to_set_is_finite;

    if st.frontier.len() > 0 {
        lemma_visited_bound(pages, st);
        assert(fuel > 0);
        let next = step_v(pages, st);
        lemma_step_props(pages, st);
        vstd::set_lib::lemma_len_subset(universe(pages, next), universe(pages, st));
        lemma_run_fuel_completes(pages, next, (fuel - 1) as nat);
    }
}

/// Termination law: a traversal always ends with an empty frontier. The
/// visited log strictly grows within the finite universe of reachable
/// normalized URLs, so a cycle of references cannot keep the run alive.
pub proof fn lemma_traversal_terminates(pages: Seq<FixturePageV>, seeds: Seq<SeedV>)
    ensures
        run_v(pages, init_state(seeds)).frontier.len() == 0,
{
    lemma_init_wf(seeds);
    lemma_run_fuel_completes(pages, init_state(seeds), universe(pages, init_state(seeds)).len());
}

/// Running with any amount of fuel keeps the state well formed and keeps
/// every category in place, under its name.
proof fn lemma_run_fuel_wf(pages: Seq<FixturePageV>, st: EngineV, fuel: nat)
    requires
        engine_wf(st),
    ensures
        engine_wf(run_fuel(pages, st, fuel)),
        run_fuel(pages, st, fuel).categories.len() == st.categories.len(),
        forall|i: int|
            0 <= i < st.categories.len() ==> (#[trigger] run_fuel(
                pages,
                st,
                fuel,
            ).categories[i]).name == st.categories[i].name,
    decreases fuel,
{
    if fuel > 0 && st.frontier.len() > 0 {
        lemma_step_props(pages, st);
        lemma_run_fuel_wf(pages, step_v(pages, st), (fuel - 1) as nat);
    }
}

/// Seeding a run of seeds keeps the state well formed, touches nothing
/// but the frontier, and leaves the visited log alone.
proof fn lemma_enqueue_seeds_props(st: EngineV, seeds: Seq<SeedV>, next_cat: int)
    requires
        engine_wf(st),
        0 <= next_cat,
        next_cat + seeds.len() <= st.categories.len(),
    ensures
        engine_wf(enqueue_seeds(st, seeds, next_cat)),
        enqueue_seeds(st, seeds, next_cat).visited == st.visited,
        enqueue_seeds(st, seeds, next_cat).categories == st.categories,
        enqueue_seeds(st, seeds, next_cat).failures == st.failures,
    decreases seeds.len(),
{
    if seeds.len() > 0 {
        let st1 = enqueue_one(
            st,
            RefV { target: seeds[0].url, kind: RefKind::NextPage },
            next_cat,
            true,
        );
        let key = strip_slash_spec(seeds[0].url);
        if can_enqueue(st, key) {
            lemma_push_frontier_wf(st, key, RefKind::NextPage, next_cat);
        }
        lemma_enqueue_seeds_props(st1, seeds.drop_first(), next_cat + 1);
    }
}

/// The state a traversal starts from is well formed, with an empty
/// visited log and one empty category per seed.
pub proof fn lemma_init_wf(seeds: Seq<SeedV>)
    ensures
        engine_wf(init_state(seeds)),
        init_state(seeds).visited == Seq::<Seq<char>>::empty(),
        init_state(seeds).categories == init_categories(seeds),
        init_state(seeds).failures == Seq::<FailureV>::empty(),
{
    let st0 = EngineV {
        frontier: Seq::empty(),
        visited: Seq::empty(),
        categories: init_categories(seeds),
        failures: Seq::empty(),
    };
    assert(frontier_targets(st0.frontier) =~= Seq::<Seq<char>>::empty());
    assert(engine_wf(st0));
    lemma_enqueue_seeds_props(st0, seeds, 0);
}

/// No-duplicate-visits law: however the fixture set and the seeds are
/// chosen, the traversal's fetch log holds no normalized URL twice.
pub proof fn lemma_no_duplicate_fetches(pages: Seq<FixturePageV>, seeds: Seq<SeedV>)
    ensures
        run_v(pages, init_state(seeds)).visited.no_duplicates(),
{
    lemma_init_wf(seeds);
    lemma_run_fuel_wf(pages, init_state(seeds), universe(pages, init_state(seeds)).len());
}

/// Deterministic-ordering law: the traversal's outcome, record order
/// included, is a function of the fixture set and the seeds alone; two
/// runs over the same inputs yield identical results.
pub proof fn lemma_traversal_deterministic(
    pages1: Seq<FixturePageV>,
    seeds1: Seq<SeedV>,
    pages2: Seq<FixturePageV>,
    seeds2: Seq<SeedV>,
)
    requires
        pages1 == pages2,
        seeds1 == seeds2,
    ensures
        result_of(run_v(pages1, init_state(seeds1))) == result_of(run_v(pages2, init_state(seeds2))),
{
}

/// Drive a whole traversal against a fixture table: seed the frontier,
/// then fetch, decode, and accumulate until the frontier is empty. The
/// result is exactly `run_v` of the initial state, the fetch log holds no
/// URL twice, and every seed keeps its own category, in seed order.
pub fn run_traversal(pages: &Vec<FixturePage>, seeds: &Vec<Seed>) -> (r: TraversalResult)
    ensures
        r@ == result_of(run_v(pages.deep_view(), init_state(seeds.deep_view()))),
        r@.fetched.no_duplicates(),
        r@.categories.len() == seeds.deep_view().len(),
        forall|i: int|
            0 <= i < seeds.deep_view().len() ==> (#[trigger] r@.categories[i]).name
                == seeds.deep_view()[i].name,
{
    let ghost pv = pages.deep_view();
    let mut engine = TraversalEngine::new(seeds);
    let ghost init = engine@;
    let ghost fuel0 = universe(pv, init).len();
    proof {
        broadcast use vstd::seq_lib::seq_to_set_is_finite;

        lemma_init_wf(seeds.deep_view());
        assert(init.visited.len() == 0);
        assert(universe(pv, init).subset_of(universe(pv, init)));
    }
    while engine.frontier_nonempty()
        invariant
            pv == pages.deep_view(),
            fuel0 == universe(pv, init).len(),
            engine_wf(engine@),
            universe(pv, engine@).subset_of(universe(pv, init)),
            engine@.visited.len() <= fuel0,
            run_fuel(pv, engine@, (fuel0 - engine@.visited.len()) as nat) == run_v(pv, init),
        decreases fuel0 - engine@.visited.len(),
    {
        let ghost pre = engine@;
        proof {
            broadcast use vstd::seq_lib::seq_to_set_is_finite;

            lemma_visited_bound(pv, pre);
            vstd::set_lib::lemma_len_subset(universe(pv, pre), universe(pv, init));
            assert(pre.visited.len() + 1 <= fuel0);
        }
        let req = engine.next_request();
        match req {
            Some((cat, url)) => {
                proof {
                    assert(cat as int == pre.frontier[0].category);
                    assert(cat < engine@.categories.len());
                }
                let res = lookup_fixture(pages, url.as_str());
                proof {
                    assert(url@ == pre.frontier[0].target);
                    assert(cat as int == pre.frontier[0].category);
                    assert(res@ == lookup_v(pv, url@));
                    assert(engine@ == pop_state(pre));
                }
                engine.deliver(cat, url.as_str(), res);
                proof {
                    assert(engine@ == apply_outcome(
                        pop_state(pre),
                        cat as int,
                        url@,
                        lookup_v(pv, pre.frontier[0].target),
                    ));
                    assert(engine@ == step_v(pv, pre));
                    lemma_step_props(pv, pre);
                    assert(universe(pv, engine@).subset_of(universe(pv, init)));
                    assert(engine@.visited.len() == pre.visited.len() + 1);
                    assert(run_fuel(pv, pre, (fuel0 - pre.visited.len()) as nat) == run_fuel(
                        pv,
                        engine@,
                        (fuel0 - engine@.visited.len()) as nat,
                    ));
                }
            },
            None => {
                proof {
                    assert(false);
                }
            },
        }
    }
    proof {
        assert(run_fuel(pv, engine@, (fuel0 - engine@.visited.len()) as nat) == engine@);
        lemma_init_wf(seeds.deep_view());
        lemma_run_fuel_wf(pv, init, universe(pv, init).len());
        assert(engine@ == run_v(pv, init));
        assert forall|i: int|
            0 <= i < seeds.deep_view().len() implies (#[trigger] engine@.categories[i]).name
                == seeds.deep_view()[i].name by {
            assert(init.categories[i].name == seeds.deep_view()[i].name);
        }
    }
    engine.into_result()
}

/// Pushing a fresh, unvisited, in-bounds entry keeps the state well
/// formed.
proof fn lemma_push_frontier_wf(st: EngineV, key: Seq<char>, kind: RefKind, cat: int)
    requires
        engine_wf(st),
        can_enqueue(st, key),
        0 <= cat < st.categories.len(),
    ensures
        engine_wf(
            EngineV {
                frontier: st.frontier.push(PendingV { target: key, kind, category: cat }),
                ..st
            },
        ),
{
    let fr2 = st.frontier.push(PendingV { target: key, kind, category: cat });
    assert(frontier_targets(fr2) =~= frontier_targets(st.frontier).push(key));
    assert(!frontier_targets(st.frontier).contains(key));
    assert(frontier_targets(fr2).no_duplicates()) by {
        let t = frontier_targets(st.frontier);
        assert forall|i: int, j: int|
            0 <= i < j < t.push(key).len() implies t.push(key)[i] != t.push(key)[j] by {
            if j < t.len() {
            } else {
                assert(t.push(key)[j] == key);
                assert(t.push(key)[i] == t[i]);
                assert(t.contains(t[i]));
            }
        }
        assert(frontier_targets(fr2) == t.push(key));
    }
    assert forall|i: int|
        0 <= i < fr2.len() implies !st.visited.contains(#[trigger] fr2[i].target) by {
        if i < st.frontier.len() {
            assert(fr2[i] == st.frontier[i]);
        } else {
            assert(fr2[i].target == key);
        }
    }
    assert forall|i: int|
        0 <= i < fr2.len() implies 0 <= #[trigger] fr2[i].category < st.categories.len() by {
        if i < st.frontier.len() {
            assert(fr2[i] == st.frontier[i]);
        }
    }
}

/// Popping the head keeps the state well formed: the popped target was in
/// no other frontier entry and not yet visited.
proof fn lemma_pop_wf(st: EngineV)
    requires
        engine_wf(st),
        st.frontier.len() > 0,
    ensures
        engine_wf(pop_state(st)),
{
    let t0 = st.frontier[0].target;
    let st2 = pop_state(st);
    assert(!st.visited.contains(t0));
    assert(st2.visited.drop_last() =~= st.visited);
    assert(st2.visited.no_duplicates()) by {
        assert forall|i: int, j: int|
            0 <= i < j < st2.visited.len() implies st2.visited[i] != st2.visited[j] by {
            if j < st.visited.len() {
            } else {
                assert(st2.visited[j] == t0);
                assert(st.visited.contains(st.visited[i]));
            }
        }
    }
    let ft = frontier_targets(st.frontier);
    let ft2 = frontier_targets(st2.frontier);
    assert(ft2 =~= ft.drop_first());
    assert(ft2.no_duplicates()) by {
        assert forall|i: int, j: int| 0 <= i < j < ft2.len() implies ft2[i] != ft2[j] by {
            assert(ft[i + 1] == ft2[i]);
            assert(ft[j + 1] == ft2[j]);
        }
    }
    assert forall|i: int|
        0 <= i < st2.frontier.len() implies !st2.visited.contains(
        #[trigger] st2.frontier[i].target,
    ) by {
        assert(st2.frontier[i] == st.frontier[i + 1]);
        assert(!st.visited.contains(st.frontier[i + 1].target));
        assert(ft[i + 1] == st.frontier[i + 1].target);
        assert(ft[0] == t0);
        if st.frontier[i + 1].target == t0 {
            assert(ft[i + 1] == ft[0]);
        }
        assert forall|v: int|
            0 <= v < st2.visited.len() implies st2.visited[v] != st2.frontier[i].target by {
            if v < st.visited.len() {
                assert(st.visited.contains(st.visited[v]));
            }
        }
    }
    assert forall|i: int|
        0 <= i < st2.frontier.len() implies 0 <= #[trigger] st2.frontier[i].category
            < st2.categories.len() by {
        assert(st2.frontier[i] == st.frontier[i + 1]);
    }
}

} // verus!
