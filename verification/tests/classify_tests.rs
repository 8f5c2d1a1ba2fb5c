use iplayer_catalog::model::{IplayerSelection, ItemFields, RefKind};
use iplayer_catalog::selection::{programme_pages, programme_sites};

const BASE: &str = "https://bbc.co.uk";
const PAGE: &str = "https://bbc.co.uk/iplayer/films";

fn empty_item() -> ItemFields {
    ItemFields {
        title: None,
        subtitle: None,
        synopsis: None,
        thumbnail: None,
        url: None,
        available: None,
        duration: None,
        detail_href: None,
    }
}

#[test]
fn tie_break_detail_link_wins() {
    let mut item = empty_item();
    item.title = Some("Strike".to_string());
    item.synopsis = Some("A detective drama".to_string());
    item.url = Some("/iplayer/ep1".to_string());
    item.detail_href = Some("/iplayer/episodes/strike".to_string());
    let sel = IplayerSelection::new(&item, false, BASE, PAGE);
    match sel {
        IplayerSelection::PageRef(r) => {
            assert_eq!(r.target, "https://bbc.co.uk/iplayer/episodes/strike");
            assert_eq!(r.kind, RefKind::ProgrammePage);
        },
        _ => panic!("a distinct detail link must win over inline fields"),
    }
}

#[test]
fn series_marker_sets_reference_kind() {
    let mut item = empty_item();
    item.detail_href = Some("/iplayer/episodes/peaky".to_string());
    let sel = IplayerSelection::new(&item, true, BASE, PAGE);
    match sel {
        IplayerSelection::PageRef(r) => assert_eq!(r.kind, RefKind::SeriesPage),
        _ => panic!("expected a page reference"),
    }
}

#[test]
fn detail_link_equal_to_primary_is_terminal() {
    let mut item = empty_item();
    item.title = Some("Strike".to_string());
    item.url = Some("/iplayer/ep1".to_string());
    item.detail_href = Some("/iplayer/ep1".to_string());
    let sel = IplayerSelection::new(&item, false, BASE, PAGE);
    match sel {
        IplayerSelection::Programme(p) => assert_eq!(p.title, Some("Strike".to_string())),
        _ => panic!("a detail link equal to the primary link is not a pointer"),
    }
}

#[test]
fn partial_fields_still_yield_a_record() {
    let mut item = empty_item();
    item.title = Some("Strike".to_string());
    item.synopsis = Some("A detective drama".to_string());
    item.url = Some("/iplayer/ep1".to_string());
    item.thumbnail = Some("pic.jpg".to_string());
    item.available = Some("28 days".to_string());
    let sel = IplayerSelection::new(&item, false, BASE, PAGE);
    match sel {
        IplayerSelection::Programme(p) => {
            assert_eq!(p.subtitle, None);
            assert_eq!(p.duration, None);
            assert_eq!(p.title, Some("Strike".to_string()));
            assert_eq!(p.synopsis, Some("A detective drama".to_string()));
            assert_eq!(p.url, Some("/iplayer/ep1".to_string()));
            assert_eq!(p.thumbnail, Some("https://bbc.co.uk/pic.jpg".to_string()));
            assert_eq!(p.available, Some("28 days".to_string()));
            assert_eq!(p.index, None);
        },
        _ => panic!("missing fields must not prevent a record"),
    }
}

#[test]
fn bare_node_is_skipped() {
    let mut item = empty_item();
    item.synopsis = Some("text without title or link".to_string());
    let sel = IplayerSelection::new(&item, false, BASE, PAGE);
    assert_eq!(sel, IplayerSelection::Skipped);
}

#[test]
fn programme_sites_keeps_detail_items() {
    let mut a = empty_item();
    a.detail_href = Some("/d1".to_string());
    let b = empty_item();
    let mut c = empty_item();
    c.detail_href = Some("/d2".to_string());
    let sites = programme_sites(&vec![a, b, c]);
    assert_eq!(sites.len(), 2);
    assert_eq!(sites[0].detail_href, Some("/d1".to_string()));
    assert_eq!(sites[1].detail_href, Some("/d2".to_string()));
}

#[test]
fn programme_pages_collects_page_refs() {
    let mut a = empty_item();
    a.detail_href = Some("/d1".to_string());
    let mut b = empty_item();
    b.title = Some("T".to_string());
    let sels = vec![
        IplayerSelection::new(&a, false, BASE, PAGE),
        IplayerSelection::new(&b, false, BASE, PAGE),
    ];
    let refs = programme_pages(&sels);
    assert_eq!(refs.len(), 1);
    assert_eq!(refs[0].target, "https://bbc.co.uk/d1");
    assert_eq!(refs[0].kind, RefKind::ProgrammePage);
}
