use iplayer_catalog::html::{decode_html, IplayerDocument, ProgrammePage};
use iplayer_catalog::model::{DecodeError, IplayerSelection, RefKind};

const BASE: &str = "https://bbc.co.uk";
const PAGE: &str = "https://bbc.co.uk/iplayer/categories/films?page=1";

fn listing_html() -> String {
    [
        "<html><body>",
        "<div class=\"pagination__number\"><a href=\"?page=1\">1</a></div>",
        "<div class=\"pagination__number\"><a href=\"?page=2\">2</a></div>",
        "<div class=\"content-item\">",
        "  <a href=\"/iplayer/ep1\">watch</a>",
        "  <div class=\"content-item__title\">  The   Title </div>",
        "  <div class=\"content-item__info__primary\"><div><div class=\"content-item__description\">Sub  text</div></div></div>",
        "  <div class=\"content-item__info__secondary\"><div><div class=\"content-item__description\">Syn text</div></div></div>",
        "  <div class=\"content-item__sublabels\"><div><span>30 mins</span><span>Available for 28 days</span></div></div>",
        "  <div class=\"rs-image\"><div><div class=\"picture\"><div class=\"source\" srcset=\"https://img/a.jpg 1x, https://img/b.jpg 2x\"></div></div></div></div>",
        "</div>",
        "<div class=\"content-item\">",
        "  <a href=\"/iplayer/ep2\">watch</a>",
        "  <a class=\"lnk\" href=\"/iplayer/episodes/more\">view more</a>",
        "  <div class=\"content-item__title\">Second</div>",
        "</div>",
        "</body></html>",
    ]
    .concat()
}

#[test]
fn decode_extracts_normalized_fields() {
    let page = decode_html(&listing_html(), PAGE, BASE).unwrap();
    assert_eq!(page.selections.len(), 2);
    match &page.selections[0] {
        IplayerSelection::Programme(p) => {
            assert_eq!(p.title, Some("The Title".to_string()));
            assert_eq!(p.subtitle, Some("Sub text".to_string()));
            assert_eq!(p.synopsis, Some("Syn text".to_string()));
            assert_eq!(p.duration, Some("30 mins".to_string()));
            assert_eq!(p.available, Some("Available for 28 days".to_string()));
            assert_eq!(p.thumbnail, Some("https://img/a.jpg".to_string()));
            assert_eq!(p.url, Some("/iplayer/ep1".to_string()));
            assert_eq!(p.index, None);
        },
        other => panic!("expected a programme, got {:?}", other),
    }
}

#[test]
fn decode_applies_the_tie_break() {
    let page = decode_html(&listing_html(), PAGE, BASE).unwrap();
    match &page.selections[1] {
        IplayerSelection::PageRef(r) => {
            assert_eq!(r.target, "https://bbc.co.uk/iplayer/episodes/more");
            assert_eq!(r.kind, RefKind::ProgrammePage);
        },
        other => panic!("expected a page reference, got {:?}", other),
    }
}

#[test]
fn decode_keeps_only_pagination_leaving_this_page() {
    let page = decode_html(&listing_html(), PAGE, BASE).unwrap();
    assert!(!page.is_boxset);
    assert_eq!(page.continuations.len(), 1);
    assert_eq!(
        page.continuations[0].target,
        "https://bbc.co.uk/iplayer/categories/films?page=2"
    );
    assert_eq!(page.continuations[0].kind, RefKind::NextPage);
}

#[test]
fn decode_rejects_effectively_empty_input() {
    assert_eq!(decode_html("", PAGE, BASE), Err(DecodeError::EmptyDocument));
    assert_eq!(decode_html("  \n\t ", PAGE, BASE), Err(DecodeError::EmptyDocument));
}

fn boxset_html() -> String {
    [
        "<html><body>",
        "<div class=\"series-nav\">",
        "  <a class=\"series-nav__button\" href=\"/iplayer/episodes/b045fz8r?seriesId=1\">one</a>",
        "  <a class=\"series-nav__button\" href=\"/iplayer/episodes/b045fz8r?seriesId=2\">two</a>",
        "</div>",
        "<div class=\"content-item\">",
        "  <a href=\"/iplayer/ep1\">watch</a>",
        "  <div class=\"content-item__title\">Episode</div>",
        "</div>",
        "</body></html>",
    ]
    .concat()
}

#[test]
fn boxset_pages_carry_series_references() {
    let idoc = IplayerDocument::from_html(&boxset_html(), PAGE.to_string()).unwrap();
    assert!(idoc.is_boxset());
    let series = idoc.series_urls(BASE);
    assert_eq!(series.len(), 2);
    assert_eq!(series[0].target, "https://bbc.co.uk/iplayer/episodes/b045fz8r?seriesId=1");
    assert_eq!(series[1].target, "https://bbc.co.uk/iplayer/episodes/b045fz8r?seriesId=2");
    assert_eq!(series[0].kind, RefKind::SeriesPage);
    let page = idoc.decode(BASE);
    assert!(page.is_boxset);
    assert_eq!(page.continuations.len(), 2);
}

#[test]
fn plain_pages_have_no_series_references() {
    let idoc = IplayerDocument::from_html(&listing_html(), PAGE.to_string()).unwrap();
    assert!(!idoc.is_boxset());
    assert_eq!(idoc.series_urls(BASE).len(), 0);
}

#[test]
fn document_facade_matches_decode() {
    let idoc = IplayerDocument::from_html(&listing_html(), PAGE.to_string()).unwrap();
    assert_eq!(idoc.programme_nodes().len(), 2);
    let sels = idoc.iplayer_selections(BASE);
    assert_eq!(sels.len(), 2);
    let next = idoc.next_pages(BASE);
    assert_eq!(next.len(), 1);
    assert_eq!(next[0].target, "https://bbc.co.uk/iplayer/categories/films?page=2");
    let refs = idoc.programme_pages(&sels);
    assert_eq!(refs.len(), 1);
    assert_eq!(refs[0].target, "https://bbc.co.uk/iplayer/episodes/more");
}

fn detail_page_html() -> String {
    [
        "<html><body>",
        "<h1 class=\"hero-header__title\"> Delia's   Course </h1>",
        "<div class=\"content-item\">",
        "  <a href=\"/iplayer/ep1\">watch</a>",
        "  <div class=\"content-item__info__primary\"><div><div class=\"content-item__description\">Episode one</div></div></div>",
        "</div>",
        "<div class=\"content-item\">",
        "  <a href=\"/iplayer/ep2\">watch</a>",
        "  <div class=\"content-item__info__primary\"><div><div class=\"content-item__description\">Episode two</div></div></div>",
        "</div>",
        "</body></html>",
    ]
    .concat()
}

#[test]
fn programme_page_records_take_the_heading_as_title() {
    let idoc = IplayerDocument::from_html(&detail_page_html(), PAGE.to_string()).unwrap();
    let pp = ProgrammePage { idoc };
    let progs = pp.programmes(BASE);
    assert_eq!(progs.len(), 2);
    assert_eq!(progs[0].title, Some("Delia's Course".to_string()));
    assert_eq!(progs[1].title, Some("Delia's Course".to_string()));
    assert_eq!(progs[0].subtitle, Some("Episode one".to_string()));
    assert_eq!(progs[1].subtitle, Some("Episode two".to_string()));
    assert_eq!(progs[0].url, Some("/iplayer/ep1".to_string()));
}

fn container_html() -> String {
    [
        "<html><body>",
        "<div class=\"content-item\">",
        "<div><a href=\"/iplayer/ep1\">one</a></div>",
        "<div><a href=\"/iplayer/ep2\">two</a></div>",
        "</div>",
        "</body></html>",
    ]
    .concat()
}

#[test]
fn bare_item_nodes_are_skipped_by_the_decoder() {
    let html = [
        "<html><body>",
        "<div class=\"content-item\"><span>no link, no title</span></div>",
        "</body></html>",
    ]
    .concat();
    let page = decode_html(&html, PAGE, BASE).unwrap();
    assert_eq!(page.selections.len(), 1);
    assert_eq!(page.selections[0], IplayerSelection::Skipped);
}

#[test]
fn child_nodes_classify_independently() {
    let idoc = IplayerDocument::from_html(&container_html(), PAGE.to_string()).unwrap();
    let nodes = idoc.programme_nodes();
    assert_eq!(nodes.len(), 1);
    let sels = idoc.node_selections(nodes[0], BASE);
    assert_eq!(sels.len(), 2);
    match &sels[0] {
        IplayerSelection::Programme(p) => assert_eq!(p.url, Some("/iplayer/ep1".to_string())),
        other => panic!("expected a programme, got {:?}", other),
    }
}
