use iplayer_catalog::db::ProgrammeDB;
use iplayer_catalog::engine::{run_traversal, FixturePage, Seed};
use iplayer_catalog::model::{
    Category, DecodeError, DecodedPage, IplayerSelection, Programme, RefKind, Reference,
    TraversalErrorKind,
};

fn prog(title: &str) -> Programme {
    Programme {
        title: Some(title.to_string()),
        subtitle: None,
        synopsis: None,
        thumbnail: None,
        url: None,
        index: None,
        available: None,
        duration: None,
    }
}

fn page(programmes: Vec<&str>, next: Vec<&str>) -> DecodedPage {
    let selections = programmes
        .into_iter()
        .map(|t| IplayerSelection::Programme(prog(t)))
        .collect::<Vec<IplayerSelection>>();
    let continuations = next
        .into_iter()
        .map(|u| Reference { target: u.to_string(), kind: RefKind::NextPage })
        .collect::<Vec<Reference>>();
    DecodedPage { selections, continuations, is_boxset: false }
}

fn fixture(url: &str, p: DecodedPage) -> FixturePage {
    FixturePage { url: url.to_string(), outcome: Ok(p) }
}

fn seed(name: &str, url: &str) -> Seed {
    Seed { name: name.to_string(), url: url.to_string() }
}

#[test]
fn cycle_terminates_after_each_page_once() {
    let pages = vec![
        fixture("https://s/p1", page(vec!["a"], vec!["https://s/p2"])),
        fixture("https://s/p2", page(vec!["b"], vec!["https://s/p3"])),
        fixture("https://s/p3", page(vec!["c"], vec!["https://s/p1"])),
    ];
    let seeds = vec![seed("films", "https://s/p1")];
    let r = run_traversal(&pages, &seeds);
    assert_eq!(r.fetched, vec!["https://s/p1", "https://s/p2", "https://s/p3"]);
    assert_eq!(r.failures.len(), 0);
    assert_eq!(r.categories.len(), 1);
    let titles: Vec<Option<String>> =
        r.categories[0].programmes.iter().map(|p| p.title.clone()).collect();
    assert_eq!(
        titles,
        vec![Some("a".to_string()), Some("b".to_string()), Some("c".to_string())]
    );
}

#[test]
fn two_page_scenario_yields_three_indexed_records() {
    let pages = vec![
        fixture("https://s/a", page(vec!["a one", "a two"], vec!["https://s/b"])),
        fixture("https://s/b", page(vec!["b one"], vec!["https://s/a"])),
    ];
    let seeds = vec![seed("films", "https://s/a")];
    let r = run_traversal(&pages, &seeds);
    assert_eq!(r.fetched, vec!["https://s/a", "https://s/b"]);
    let titles: Vec<Option<String>> =
        r.categories[0].programmes.iter().map(|p| p.title.clone()).collect();
    assert_eq!(
        titles,
        vec![
            Some("a one".to_string()),
            Some("a two".to_string()),
            Some("b one".to_string())
        ]
    );
    let mut db = ProgrammeDB::new(r.categories);
    assert!(db.index().is_ok());
    assert_eq!(db.categories[0].programmes[0].index, Some(0));
    assert_eq!(db.categories[0].programmes[1].index, Some(1));
    assert_eq!(db.categories[0].programmes[2].index, Some(2));
}

#[test]
fn duplicate_references_fetch_once() {
    let pages = vec![
        fixture(
            "https://s/a",
            page(vec![], vec!["https://s/b", "https://s/c", "https://s/c/"]),
        ),
        fixture("https://s/b", page(vec![], vec!["https://s/c"])),
        fixture("https://s/c", page(vec!["c"], vec![])),
    ];
    let seeds = vec![seed("films", "https://s/a")];
    let r = run_traversal(&pages, &seeds);
    assert_eq!(r.fetched, vec!["https://s/a", "https://s/b", "https://s/c"]);
    assert_eq!(r.categories[0].programmes.len(), 1);
}

#[test]
fn traversal_is_deterministic_across_runs() {
    let build = || {
        vec![
            fixture("https://s/p1", page(vec!["a", "b"], vec!["https://s/p2"])),
            fixture("https://s/p2", page(vec!["c"], vec!["https://s/p1"])),
        ]
    };
    let seeds = vec![seed("films", "https://s/p1")];
    let r1 = run_traversal(&build(), &seeds);
    let r2 = run_traversal(&build(), &seeds);
    assert_eq!(r1.categories, r2.categories);
    assert_eq!(r1.failures, r2.failures);
    assert_eq!(r1.fetched, r2.fetched);
}

#[test]
fn missing_page_is_recorded_and_skipped() {
    let pages = vec![fixture("https://s/a", page(vec!["a"], vec!["https://s/gone"]))];
    let seeds = vec![seed("films", "https://s/a")];
    let r = run_traversal(&pages, &seeds);
    assert_eq!(r.fetched, vec!["https://s/a", "https://s/gone"]);
    assert_eq!(r.failures.len(), 1);
    assert_eq!(r.failures[0].target, "https://s/gone");
    assert_eq!(r.failures[0].error, TraversalErrorKind::FetchFailed);
    assert_eq!(r.categories[0].programmes.len(), 1);
}

#[test]
fn undecodable_page_is_recorded_and_skipped() {
    let pages = vec![
        fixture("https://s/a", page(vec!["a"], vec!["https://s/bad", "https://s/b"])),
        FixturePage { url: "https://s/bad".to_string(), outcome: Err(DecodeError::EmptyDocument) },
        fixture("https://s/b", page(vec!["b"], vec![])),
    ];
    let seeds = vec![seed("films", "https://s/a")];
    let r = run_traversal(&pages, &seeds);
    assert_eq!(r.fetched, vec!["https://s/a", "https://s/bad", "https://s/b"]);
    assert_eq!(r.failures.len(), 1);
    assert_eq!(r.failures[0].error, TraversalErrorKind::DecodeFailed);
    assert_eq!(r.categories[0].programmes.len(), 2);
}

#[test]
fn series_references_only_enqueued_on_boxset_pages() {
    let mut landing = page(vec![], vec![]);
    landing.continuations =
        vec![Reference { target: "https://s/series1".to_string(), kind: RefKind::SeriesPage }];
    let mut boxset = page(vec![], vec![]);
    boxset.continuations =
        vec![Reference { target: "https://s/series2".to_string(), kind: RefKind::SeriesPage }];
    boxset.is_boxset = true;
    let pages = vec![
        fixture("https://s/plain", landing),
        fixture("https://s/box", boxset),
        fixture("https://s/series1", page(vec!["s1"], vec![])),
        fixture("https://s/series2", page(vec!["s2"], vec![])),
    ];
    let seeds = vec![seed("one", "https://s/plain"), seed("two", "https://s/box")];
    let r = run_traversal(&pages, &seeds);
    assert_eq!(r.fetched, vec!["https://s/plain", "https://s/box", "https://s/series2"]);
    assert_eq!(r.categories[0].programmes.len(), 0);
    assert_eq!(r.categories[1].programmes.len(), 1);
}

#[test]
fn categories_keep_their_own_records() {
    let pages = vec![
        fixture("https://s/films", page(vec!["film"], vec![])),
        fixture("https://s/food", page(vec!["meal"], vec![])),
    ];
    let seeds = vec![seed("films", "https://s/films"), seed("food", "https://s/food")];
    let r = run_traversal(&pages, &seeds);
    assert_eq!(r.categories.len(), 2);
    assert_eq!(r.categories[0].name, "films");
    assert_eq!(r.categories[1].name, "food");
    assert_eq!(r.categories[0].programmes[0].title, Some("film".to_string()));
    assert_eq!(r.categories[1].programmes[0].title, Some("meal".to_string()));
}

#[test]
fn skipped_selections_contribute_nothing() {
    let mut p = page(vec!["kept"], vec![]);
    p.selections.push(IplayerSelection::Skipped);
    let pages = vec![fixture("https://s/a", p)];
    let seeds = vec![seed("films", "https://s/a")];
    let r = run_traversal(&pages, &seeds);
    assert_eq!(r.categories[0].programmes.len(), 1);
    assert_eq!(r.failures.len(), 0);
}

#[test]
fn page_refs_among_selections_are_followed() {
    let mut a = page(vec!["a"], vec![]);
    a.selections.push(IplayerSelection::PageRef(Reference {
        target: "https://s/detail".to_string(),
        kind: RefKind::ProgrammePage,
    }));
    let pages = vec![
        fixture("https://s/a", a),
        fixture("https://s/detail", page(vec!["episode"], vec![])),
    ];
    let seeds = vec![seed("films", "https://s/a")];
    let r = run_traversal(&pages, &seeds);
    assert_eq!(r.fetched, vec!["https://s/a", "https://s/detail"]);
    let c = &r.categories[0];
    assert_eq!(c.programmes.len(), 2);
    assert_eq!(c.programmes[1].title, Some("episode".to_string()));
}

#[test]
fn no_seeds_no_work() {
    let pages = vec![fixture("https://s/a", page(vec!["a"], vec![]))];
    let seeds: Vec<Seed> = vec![];
    let r = run_traversal(&pages, &seeds);
    assert_eq!(r.categories.len(), 0);
    assert_eq!(r.fetched.len(), 0);
    assert_eq!(r.failures.len(), 0);
}

#[test]
fn duplicate_seed_urls_collapse() {
    let pages = vec![fixture("https://s/a", page(vec!["a"], vec![]))];
    let seeds = vec![seed("first", "https://s/a"), seed("second", "https://s/a")];
    let r = run_traversal(&pages, &seeds);
    assert_eq!(r.fetched, vec!["https://s/a"]);
    assert_eq!(r.categories.len(), 2);
    assert_eq!(r.categories[0].programmes.len(), 1);
    assert_eq!(r.categories[1].programmes.len(), 0);
}

#[test]
fn trailing_slash_spellings_share_one_key() {
    let pages = vec![fixture("https://s/a/", page(vec!["a"], vec![]))];
    let seeds = vec![seed("films", "https://s/a")];
    let r = run_traversal(&pages, &seeds);
    assert_eq!(r.fetched, vec!["https://s/a"]);
    assert_eq!(r.failures.len(), 0);
    assert_eq!(r.categories[0].programmes.len(), 1);
}

#[test]
fn empty_category_stays_when_seed_missing() {
    let pages: Vec<FixturePage> = vec![];
    let seeds = vec![seed("films", "https://s/a")];
    let r = run_traversal(&pages, &seeds);
    assert_eq!(r.categories.len(), 1);
    assert_eq!(r.categories[0], Category { name: "films".to_string(), programmes: vec![] });
    assert_eq!(r.failures.len(), 1);
}
