use iplayer_catalog::db::ProgrammeDB;
use iplayer_catalog::model::{BeebURL, Category, InvariantViolation, Programme, TestHTMLURL};

fn prog(title: &str) -> Programme {
    Programme {
        title: Some(title.to_string()),
        subtitle: None,
        synopsis: None,
        thumbnail: None,
        url: None,
        index: None,
        available: None,
        duration: None,
    }
}

#[test]
fn indices_are_contiguous_across_categories() {
    let c1 = Category { name: "films".to_string(), programmes: vec![prog("a"), prog("b")] };
    let c2 =
        Category { name: "food".to_string(), programmes: vec![prog("c"), prog("d"), prog("e")] };
    let mut db = ProgrammeDB::new(vec![c1, c2]);
    let saved = db.saved;
    assert!(saved >= 0);
    assert!(db.index().is_ok());
    assert_eq!(db.saved, saved);
    let mut expected: usize = 0;
    for c in &db.categories {
        for p in &c.programmes {
            assert_eq!(p.index, Some(expected));
            expected += 1;
        }
    }
    assert_eq!(expected, 5);
    assert_eq!(db.categories[0].programmes[0].title, Some("a".to_string()));
    assert_eq!(db.categories[1].programmes[2].title, Some("e".to_string()));
}

#[test]
fn empty_categories_index_cleanly() {
    let c1 = Category { name: "empty".to_string(), programmes: vec![] };
    let c2 = Category { name: "one".to_string(), programmes: vec![prog("a")] };
    let mut db = ProgrammeDB::new(vec![c1, c2]);
    assert!(db.index().is_ok());
    assert_eq!(db.categories[1].programmes[0].index, Some(0));
}

#[test]
fn category_constructor_and_manual_indexing() {
    let c = Category::new("mostpopular".to_string(), vec![prog("Strike")]);
    assert_eq!(c.name, "mostpopular");
    assert_eq!(c.programmes[0].title, Some("Strike".to_string()));
    let mut p = prog("Strike");
    p.update_index(7);
    assert_eq!(p.index, Some(7));
}

#[test]
fn url_holders_carry_their_urls() {
    let b = BeebURL { url: "https://www.bbc.co.uk/iplayer".to_string() };
    let t = TestHTMLURL { url: "testhtml/films1.html".to_string() };
    assert_eq!(b.url, "https://www.bbc.co.uk/iplayer");
    assert_eq!(t.url, "testhtml/films1.html");
}

#[test]
fn reindexing_is_an_invariant_violation() {
    let mut already = prog("a");
    already.index = Some(0);
    let c = Category { name: "films".to_string(), programmes: vec![prog("z"), already] };
    let mut db = ProgrammeDB::new(vec![c]);
    let before = db.categories.clone();
    assert_eq!(db.index(), Err(InvariantViolation::IndexAlreadySet));
    assert_eq!(db.categories, before);
}
