//! Plain data model of the catalogue: programme records, references,
//! selections, decoded pages, categories, and error kinds, each with a
//! mathematical view used by the contracts.

use vstd::prelude::*;

verus! {

/// What kind of page a reference leads to.
#[derive(Clone, Copy, Debug, PartialEq, Eq, Structural)]
pub enum RefKind {
    NextPage,
    ProgrammePage,
    SeriesPage,
}

/// A link to another page. The target is stored already resolved against
/// the page the link was found on; a reference is immutable once created.
#[derive(Clone, Debug, PartialEq, Eq)]
pub struct Reference {
    pub target: String,
    pub kind: RefKind,
}

/// Mathematical view of a [`Reference`].
pub struct RefV {
    pub target: Seq<char>,
    pub kind: RefKind,
}

impl View for Reference {
    type V = RefV;

    open spec fn view(&self) -> RefV {
        RefV { target: self.target@, kind: self.kind }
    }
}

impl DeepView for Reference {
    type V = RefV;

    open spec fn deep_view(&self) -> RefV {
        self@
    }
}

/// One programme record. Every field but `index` is optional because the
/// source markup is inconsistent across item types; `index` stays `None`
/// until the catalogue assembler assigns the global position.
#[derive(Clone, Debug, PartialEq, Eq)]
pub struct Programme {
    pub title: Option<String>,
    pub subtitle: Option<String>,
    pub synopsis: Option<String>,
    pub thumbnail: Option<String>,
    pub url: Option<String>,
    pub index: Option<usize>,
    pub available: Option<String>,
    pub duration: Option<String>,
}

/// Mathematical view of a [`Programme`].
pub struct ProgrammeV {
    pub title: Option<Seq<char>>,
    pub subtitle: Option<Seq<char>>,
    pub synopsis: Option<Seq<char>>,
    pub thumbnail: Option<Seq<char>>,
    pub url: Option<Seq<char>>,
    pub index: Option<usize>,
    pub available: Option<Seq<char>>,
    pub duration: Option<Seq<char>>,
}

impl View for Programme {
    type V = ProgrammeV;

    open spec fn view(&self) -> ProgrammeV {
        ProgrammeV {
            title: self.title.deep_view(),
            subtitle: self.subtitle.deep_view(),
            synopsis: self.synopsis.deep_view(),
            thumbnail: self.thumbnail.deep_view(),
            url: self.url.deep_view(),
            index: self.index,
            available: self.available.deep_view(),
            duration: self.duration.deep_view(),
        }
    }
}

impl DeepView for Programme {
    type V = ProgrammeV;

    open spec fn deep_view(&self) -> ProgrammeV {
        self@
    }
}

/// The typed fields extractable from one item node on a listing page.
/// Each field is independently optional; absence is not an error.
#[derive(Clone, Debug, PartialEq, Eq)]
pub struct ItemFields {
    pub title: Option<String>,
    pub subtitle: Option<String>,
    pub synopsis: Option<String>,
    pub thumbnail: Option<String>,
    pub url: Option<String>,
    pub available: Option<String>,
    pub duration: Option<String>,
    pub detail_href: Option<String>,
}

/// Mathematical view of [`ItemFields`].
pub struct ItemV {
    pub title: Option<Seq<char>>,
    pub subtitle: Option<Seq<char>>,
    pub synopsis: Option<Seq<char>>,
    pub thumbnail: Option<Seq<char>>,
    pub url: Option<Seq<char>>,
    pub available: Option<Seq<char>>,
    pub duration: Option<Seq<char>>,
    pub detail_href: Option<Seq<char>>,
}

impl View for ItemFields {
    type V = ItemV;

    open spec fn view(&self) -> ItemV {
        ItemV {
            title: self.title.deep_view(),
            subtitle: self.subtitle.deep_view(),
            synopsis: self.synopsis.deep_view(),
            thumbnail: self.thumbnail.deep_view(),
            url: self.url.deep_view(),
            available: self.available.deep_view(),
            duration: self.duration.deep_view(),
            detail_href: self.detail_href.deep_view(),
        }
    }
}

impl DeepView for ItemFields {
    type V = ItemV;

    open spec fn deep_view(&self) -> ItemV {
        self@
    }
}

/// The classification of one item node: a terminal programme record, a
/// pointer to a further page, or nothing usable.
#[derive(Clone, Debug, PartialEq, Eq)]
pub enum IplayerSelection {
    /// A terminal record, fields populated best-effort, index unassigned.
    Programme(Programme),
    /// The node is a pointer to a detail page, not a record of its own.
    PageRef(Reference),
    /// The node lacks both a link and a title; it contributes nothing.
    Skipped,
}

/// Mathematical view of an [`IplayerSelection`].
pub enum SelectionV {
    Programme(ProgrammeV),
    PageRef(RefV),
    Skipped,
}

impl View for IplayerSelection {
    type V = SelectionV;

    open spec fn view(&self) -> SelectionV {
        match self {
            IplayerSelection::Programme(p) => SelectionV::Programme(p@),
            IplayerSelection::PageRef(r) => SelectionV::PageRef(r@),
            IplayerSelection::Skipped => SelectionV::Skipped,
        }
    }
}

impl DeepView for IplayerSelection {
    type V = SelectionV;

    open spec fn deep_view(&self) -> SelectionV {
        self@
    }
}

/// Everything the page decoder yields for one fetched page: the ordered
/// classifications of its item nodes, the ordered continuation references
/// (pagination and series links), and whether the page is a series
/// (box-set) landing page.
#[derive(Clone, Debug, PartialEq, Eq)]
pub struct DecodedPage {
    pub selections: Vec<IplayerSelection>,
    pub continuations: Vec<Reference>,
    pub is_boxset: bool,
}

/// Mathematical view of a [`DecodedPage`].
pub struct PageV {
    pub selections: Seq<SelectionV>,
    pub continuations: Seq<RefV>,
    pub is_boxset: bool,
}

impl View for DecodedPage {
    type V = PageV;

    open spec fn view(&self) -> PageV {
        PageV {
            selections: self.selections.deep_view(),
            continuations: self.continuations.deep_view(),
            is_boxset: self.is_boxset,
        }
    }
}

impl DeepView for DecodedPage {
    type V = PageV;

    open spec fn deep_view(&self) -> PageV {
        self@
    }
}

/// A named crawl target with the records collected for it, in discovery
/// order; insertion order defines the default display and index order.
#[derive(Clone, Debug, PartialEq, Eq)]
pub struct Category {
    pub name: String,
    pub programmes: Vec<Programme>,
}

/// Mathematical view of a [`Category`].
pub struct CategoryV {
    pub name: Seq<char>,
    pub programmes: Seq<ProgrammeV>,
}

impl View for Category {
    type V = CategoryV;

    open spec fn view(&self) -> CategoryV {
        CategoryV { name: self.name@, programmes: self.programmes.deep_view() }
    }
}

impl DeepView for Category {
    type V = CategoryV;

    open spec fn deep_view(&self) -> CategoryV {
        self@
    }
}

impl Category {
    /// A category holding the given records under the given name.
    pub fn new(name: String, programmes: Vec<Programme>) -> (c: Category)
        ensures
            c@.name == name@,
            c@.programmes == programmes.deep_view(),
    {
        Category { name, programmes }
    }
}

/// A fetched page could not be parsed into a document model at all.
#[derive(Clone, Copy, Debug, PartialEq, Eq, Structural)]
pub enum DecodeError {
    /// The raw text was empty, so no document could be built from it.
    EmptyDocument,
}

/// How a fetch failed, as distinguished by the page fetcher.
#[derive(Clone, Copy, Debug, PartialEq, Eq, Structural)]
pub enum FetchErrorKind {
    /// A timeout or reset; worth retrying with backoff.
    Transient,
    /// The page is gone; retrying cannot help.
    Permanent,
}

/// Why one reference could not be turned into page results.
#[derive(Clone, Copy, Debug, PartialEq, Eq, Structural)]
pub enum TraversalErrorKind {
    /// The fetch collaborator could not produce the page.
    FetchFailed,
    /// The page was fetched but could not be decoded.
    DecodeFailed,
}

/// A per-reference failure recorded during a traversal run; the run
/// itself continues with the remaining frontier.
#[derive(Clone, Debug, PartialEq, Eq)]
pub struct TraversalFailure {
    pub target: String,
    pub error: TraversalErrorKind,
}

/// Mathematical view of a [`TraversalFailure`].
pub struct FailureV {
    pub target: Seq<char>,
    pub error: TraversalErrorKind,
}

impl View for TraversalFailure {
    type V = FailureV;

    open spec fn view(&self) -> FailureV {
        FailureV { target: self.target@, error: self.error }
    }
}

impl DeepView for TraversalFailure {
    type V = FailureV;

    open spec fn deep_view(&self) -> FailureV {
        self@
    }
}

/// A bug in the engine itself, not bad input data: fatal to the current
/// run and never silently ignored.
#[derive(Clone, Copy, Debug, PartialEq, Eq, Structural)]
pub enum InvariantViolation {
    /// A record reached the indexing pass with its index already set.
    IndexAlreadySet,
}

/// A live listing-service URL, to be fetched by a network collaborator.
#[derive(Clone, Debug, PartialEq, Eq)]
pub struct BeebURL {
    pub url: String,
}

/// A fixture-file URL, to be loaded from disk by a test collaborator.
#[derive(Clone, Debug, PartialEq, Eq)]
pub struct TestHTMLURL {
    pub url: String,
}

/// Copy an optional string, keeping its view.
pub fn clone_opt_string(o: &Option<String>) -> (r: Option<String>)
    ensures
        r.deep_view() == o.deep_view(),
{
    match o {
        Some(s) => Some(s.clone()),
        None => None,
    }
}

impl ItemFields {
    /// A field-for-field copy whose view equals the original's.
    pub fn duplicate(&self) -> (r: ItemFields)
        ensures
            r@ == self@,
    {
        ItemFields {
            title: clone_opt_string(&self.title),
            subtitle: clone_opt_string(&self.subtitle),
            synopsis: clone_opt_string(&self.synopsis),
            thumbnail: clone_opt_string(&self.thumbnail),
            url: clone_opt_string(&self.url),
            available: clone_opt_string(&self.available),
            duration: clone_opt_string(&self.duration),
            detail_href: clone_opt_string(&self.detail_href),
        }
    }
}

impl Reference {
    /// A field-for-field copy whose view equals the original's.
    pub fn duplicate(&self) -> (r: Reference)
        ensures
            r@ == self@,
    {
        Reference { target: self.target.clone(), kind: self.kind }
    }
}

impl Programme {
    /// A field-for-field copy whose view equals the original's.
    pub fn duplicate(&self) -> (r: Programme)
        ensures
            r@ == self@,
    {
        Programme {
            title: clone_opt_string(&self.title),
            subtitle: clone_opt_string(&self.subtitle),
            synopsis: clone_opt_string(&self.synopsis),
            thumbnail: clone_opt_string(&self.thumbnail),
            url: clone_opt_string(&self.url),
            index: self.index,
            available: clone_opt_string(&self.available),
            duration: clone_opt_string(&self.duration),
        }
    }
}

impl IplayerSelection {
    /// A field-for-field copy whose view equals the original's.
    pub fn duplicate(&self) -> (r: IplayerSelection)
        ensures
            r@ == self@,
    {
        match self {
            IplayerSelection::Programme(p) => IplayerSelection::Programme(p.duplicate()),
            IplayerSelection::PageRef(r) => IplayerSelection::PageRef(r.duplicate()),
            IplayerSelection::Skipped => IplayerSelection::Skipped,
        }
    }
}

impl DecodedPage {
    /// A field-for-field copy whose view equals the original's.
    pub fn duplicate(&self) -> (r: DecodedPage)
        ensures
            r@ == self@,
    {
        let mut selections: Vec<IplayerSelection> = Vec::new();
        let mut i: usize = 0;
        while i < self.selections.len()
            invariant
                i <= self.selections@.len(),
                selections.deep_view().len() == i as int,
                forall|j: int|
                    0 <= j < i ==> selections.deep_view()[j] == self.selections.deep_view()[j],
            decreases self.selections@.len() - i,
        {
            let ghost prev = selections.deep_view();
            let s = self.selections[i].duplicate();
            selections.push(s);
            proof {
                assert forall|j: int|
                    0 <= j < i + 1 implies selections.deep_view()[j]
                        == self.selections.deep_view()[j] by {
                    if j < i {
                        assert(selections.deep_view()[j] == prev[j]);
                    } else {
                        assert(selections.deep_view()[j] == s@);
                        assert(self.selections.deep_view()[j] == self.selections@[j]@);
                    }
                }
            }
            i = i + 1;
        }
        let mut continuations: Vec<Reference> = Vec::new();
        let mut k: usize = 0;
        while k < self.continuations.len()
            invariant
                k <= self.continuations@.len(),
                continuations.deep_view().len() == k as int,
                forall|j: int|
                    0 <= j < k ==> continuations.deep_view()[j]
                        == self.continuations.deep_view()[j],
            decreases self.continuations@.len() - k,
        {
            let ghost prev = continuations.deep_view();
            let c = self.continuations[k].duplicate();
            continuations.push(c);
            proof {
                assert forall|j: int|
                    0 <= j < k + 1 implies continuations.deep_view()[j]
                        == self.continuations.deep_view()[j] by {
                    if j < k {
                        assert(continuations.deep_view()[j] == prev[j]);
                    } else {
                        assert(continuations.deep_view()[j] == c@);
                        assert(self.continuations.deep_view()[j] == self.continuations@[j]@);
                    }
                }
            }
            k = k + 1;
        }
        proof {
            assert(selections.deep_view() =~= self.selections.deep_view());
            assert(continuations.deep_view() =~= self.continuations.deep_view());
        }
        DecodedPage { selections, continuations, is_boxset: self.is_boxset }
    }
}

impl Programme {
    /// A record built from a title, a subtitle, and the remaining
    /// extracted fields; the global index stays unassigned.
    pub fn new(title: Option<String>, subtitle: Option<String>, item: &ItemFields) -> (p:
        Programme)
        ensures
            p@ == (ProgrammeV {
                title: title.deep_view(),
                subtitle: subtitle.deep_view(),
                synopsis: item@.synopsis,
                thumbnail: item@.thumbnail,
                url: item@.url,
                index: None::<usize>,
                available: item@.available,
                duration: item@.duration,
            }),
    {
        Programme {
            title,
            subtitle,
            synopsis: item.synopsis.clone(),
            thumbnail: item.thumbnail.clone(),
            url: item.url.clone(),
            index: None,
            available: item.available.clone(),
            duration: item.duration.clone(),
        }
    }
}

} // verus!
