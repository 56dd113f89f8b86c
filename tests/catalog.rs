use comic_mirror::catalog::{page_targets, parse_catalog, parse_label, CatalogError, CatalogShape};
use comic_mirror::document::{Document, Element};

fn el(tag: &str, classes: &[&str], id: Option<&str>, href: Option<&str>, text: &str, end: usize) -> Element {
    Element {
        tag: tag.to_string(),
        classes: classes.iter().map(|c| c.to_string()).collect(),
        id: id.map(|s| s.to_string()),
        href: href.map(|s| s.to_string()),
        src: None,
        text: text.to_string(),
        end,
    }
}

fn link(href: &str, label: &str, at: usize) -> Element {
    el("a", &[], None, Some(href), label, at + 1)
}

/// One chapter section at index `at` holding a navigation container with the given links.
fn chapter(id: Option<&str>, links: &[(&str, &str)], at: usize) -> Vec<Element> {
    let end = at + 2 + links.len();
    let mut v = vec![
        el("section", &["chapter"], id, None, "", end),
        el("nav", &["chapter-links"], None, None, "", end),
    ];
    for (k, (h, l)) in links.iter().enumerate() {
        v.push(link(h, l, at + 2 + k));
    }
    v
}

#[test]
fn two_page_chapter_parses_in_order() {
    let mut elements = vec![el("body", &[], None, None, "", 5)];
    elements.extend(chapter(Some("intro"), &[("/comic/1", "1"), ("/comic/2", "2")], 1));
    let doc = Document { elements };
    let cs = parse_catalog(&doc, &CatalogShape::archive()).unwrap();
    assert_eq!(cs.len(), 1);
    assert_eq!(cs[0].id, "intro");
    assert_eq!(cs[0].pages.len(), 2);
    assert_eq!(cs[0].pages[0].page_number, 1);
    assert_eq!(cs[0].pages[0].href, "/comic/1");
    assert_eq!(cs[0].pages[1].page_number, 2);
    assert_eq!(cs[0].pages[1].href, "/comic/2");
}

#[test]
fn pages_over_chapters_count_and_increase() {
    let mut elements = chapter(Some("c1"), &[("/comic/1", "1"), ("/comic/2", "2")], 0);
    elements.extend(chapter(Some("c2"), &[("/comic/3", "3"), ("/comic/4", "4"), ("/comic/5", "5")], 4));
    let doc = Document { elements };
    let cs = parse_catalog(&doc, &CatalogShape::archive()).unwrap();
    let ts = page_targets(&cs);
    assert_eq!(ts.len(), 5);
    let numbers: Vec<u64> = ts.iter().map(|t| t.page.page_number).collect();
    assert_eq!(numbers, vec![1, 2, 3, 4, 5]);
    assert_eq!(ts[3].chapter_id, "c2");
    assert_eq!(ts[1].chapter_id, "c1");
}

#[test]
fn non_link_elements_are_ignored() {
    let elements = vec![
        el("section", &["chapter"], Some("c1"), None, "", 6),
        el("nav", &["chapter-links"], None, None, "", 6),
        link("/comic/1", "1", 2),
        el("span", &[], None, None, " | ", 4),
        el("a", &[], None, Some("/about"), "About", 5),
        link("/comic/2", "2", 5),
    ];
    let cs = parse_catalog(&Document { elements }, &CatalogShape::archive()).unwrap();
    let numbers: Vec<u64> = cs[0].pages.iter().map(|p| p.page_number).collect();
    assert_eq!(numbers, vec![1, 2]);
}

#[test]
fn no_chapter_is_malformed() {
    let doc = Document { elements: vec![el("body", &[], None, None, "", 1)] };
    assert_eq!(parse_catalog(&doc, &CatalogShape::archive()).unwrap_err(), CatalogError::MalformedCatalog);
    let empty = Document { elements: vec![] };
    assert_eq!(parse_catalog(&empty, &CatalogShape::archive()).unwrap_err(), CatalogError::MalformedCatalog);
}

#[test]
fn chapter_without_id_fails() {
    let doc = Document { elements: chapter(None, &[("/comic/1", "1")], 0) };
    assert_eq!(parse_catalog(&doc, &CatalogShape::archive()).unwrap_err(), CatalogError::MissingChapterId);
}

#[test]
fn chapter_without_navigation_fails() {
    let doc = Document {
        elements: vec![
            el("section", &["chapter"], Some("c1"), None, "", 2),
            link("/comic/1", "1", 1),
        ],
    };
    assert_eq!(parse_catalog(&doc, &CatalogShape::archive()).unwrap_err(), CatalogError::MissingNavigation);
}

#[test]
fn decreasing_page_numbers_are_malformed() {
    let mut elements = chapter(Some("c1"), &[("/comic/1", "1"), ("/comic/3", "3")], 0);
    elements.extend(chapter(Some("c2"), &[("/comic/2", "2")], 4));
    let doc = Document { elements };
    assert_eq!(parse_catalog(&doc, &CatalogShape::archive()).unwrap_err(), CatalogError::MalformedCatalog);
}

#[test]
fn repeated_page_number_is_malformed() {
    let doc = Document { elements: chapter(Some("c1"), &[("/comic/1", "1"), ("/comic/1b", "1")], 0) };
    assert_eq!(parse_catalog(&doc, &CatalogShape::archive()).unwrap_err(), CatalogError::MalformedCatalog);
}

#[test]
fn labels_are_positive_decimal_numbers() {
    assert_eq!(parse_label("12"), Some(12));
    assert_eq!(parse_label("7"), Some(7));
    assert_eq!(parse_label("007"), Some(7));
    assert_eq!(parse_label(""), None);
    assert_eq!(parse_label("0"), None);
    assert_eq!(parse_label("1a"), None);
    assert_eq!(parse_label(" 1"), None);
    assert_eq!(parse_label("18446744073709551615"), Some(u64::MAX));
    assert_eq!(parse_label("18446744073709551616"), None);
}
