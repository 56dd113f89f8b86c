use comic_mirror::catalog::{page_targets, parse_catalog, CatalogShape, PageRef, PageTarget};
use comic_mirror::document::{Document, Element};
use comic_mirror::gallery::{GalleryEntry, GalleryError, GalleryIndex};
use comic_mirror::run::{Run, RunSummary};
use comic_mirror::sync::{PageOutcome, SyncError};

const HEAD: &str = "<!DOCTYPE html>\n<html><head><meta charset=\"utf-8\"><title>Gallery</title></head><body>\n";
const TAIL: &str = "</body></html>\n";

fn target(chapter: &str, n: u64) -> PageTarget {
    PageTarget { chapter_id: chapter.to_string(), page: PageRef { page_number: n, href: format!("/comic/{}", n) } }
}

fn entry(n: u64, path: &str) -> GalleryEntry {
    GalleryEntry { page_number: n, relative_asset_path: path.to_string() }
}

fn paths(g: &GalleryIndex) -> Vec<(u64, String)> {
    g.entries.iter().map(|e| (e.page_number, e.relative_asset_path.clone())).collect()
}

fn el(tag: &str, classes: &[&str], id: Option<&str>, href: Option<&str>, text: &str, end: usize) -> Element {
    Element {
        tag: tag.to_string(),
        classes: classes.iter().map(|c| c.to_string()).collect(),
        id: id.map(|s| s.to_string()),
        href: href.map(|s| s.to_string()),
        src: None,
        text: text.to_string(),
        end,
    }
}

#[test]
fn empty_gallery_has_no_jump_control() {
    let g = GalleryIndex::new();
    assert_eq!(g.render(), format!("{}{}", HEAD, TAIL));
}

#[test]
fn gallery_renders_entries_and_range() {
    let mut g = GalleryIndex::new();
    g.append(entry(1, "intro/1.jpg")).unwrap();
    g.append(entry(12, "intro/12.jpg")).unwrap();
    let expected = format!(
        "{}{}{}{}{}",
        HEAD,
        "<form onsubmit=\"location.hash='page-'+this.p.value;return false\"><input name=\"p\" type=\"number\" min=\"1\" max=\"12\"><button>Go</button></form>\n",
        "<figure id=\"page-1\"><img src=\"intro/1.jpg\" alt=\"Page 1\"></figure>\n",
        "<figure id=\"page-12\"><img src=\"intro/12.jpg\" alt=\"Page 12\"></figure>\n",
        TAIL
    );
    assert_eq!(g.render(), expected);
    assert_eq!(g.finalize().unwrap(), expected);
}

#[test]
fn append_after_finalize_is_refused() {
    let mut g = GalleryIndex::new();
    g.append(entry(1, "c1/1.jpg")).unwrap();
    g.finalize().unwrap();
    assert_eq!(g.append(entry(2, "c1/2.jpg")), Err(GalleryError::Finalized));
    assert_eq!(g.finalize(), Err(GalleryError::Finalized));
    assert_eq!(g.entries.len(), 1);
}

#[test]
fn out_of_order_entry_is_refused() {
    let mut g = GalleryIndex::new();
    g.append(entry(2, "c1/2.jpg")).unwrap();
    assert_eq!(g.append(entry(2, "c1/2.jpg")), Err(GalleryError::OutOfOrder));
    assert_eq!(g.append(entry(1, "c1/1.jpg")), Err(GalleryError::OutOfOrder));
    assert_eq!(g.entries.len(), 1);
}

#[test]
fn failed_pages_get_no_entry() {
    let mut g = GalleryIndex::new();
    g.record(&target("c1", 1), PageOutcome::Downloaded).unwrap();
    g.record(&target("c1", 2), PageOutcome::Failed(SyncError::MissingAsset)).unwrap();
    g.record(&target("c1", 3), PageOutcome::Skipped).unwrap();
    assert_eq!(paths(&g), vec![(1, "c1/1.jpg".to_string()), (3, "c1/3.jpg".to_string())]);
}

#[test]
fn rerun_gives_identical_index() {
    let ts: Vec<PageTarget> = (1..=4).map(|n| target("c1", n)).collect();
    let mut first = GalleryIndex::new();
    for t in &ts {
        first.record(t, PageOutcome::Downloaded).unwrap();
    }
    let mut second = GalleryIndex::new();
    for t in &ts {
        second.record(t, PageOutcome::Skipped).unwrap();
    }
    assert_eq!(first.finalize().unwrap(), second.finalize().unwrap());
}

#[test]
fn resumed_run_lists_every_page() {
    let ts: Vec<PageTarget> = (1..=5).map(|n| target("c1", n)).collect();
    let k = 3;
    let mut g = GalleryIndex::new();
    for (i, t) in ts.iter().enumerate() {
        let outcome = if i < k { PageOutcome::Skipped } else { PageOutcome::Downloaded };
        g.record(t, outcome).unwrap();
    }
    let numbers: Vec<u64> = g.entries.iter().map(|e| e.page_number).collect();
    assert_eq!(numbers, vec![1, 2, 3, 4, 5]);
}

#[test]
fn intro_catalog_yields_two_entries() {
    let doc = Document {
        elements: vec![
            el("section", &["chapter"], Some("intro"), None, "", 4),
            el("nav", &["chapter-links"], None, None, "", 4),
            el("a", &[], None, Some("/comic/1"), "1", 3),
            el("a", &[], None, Some("/comic/2"), "2", 4),
        ],
    };
    let cs = parse_catalog(&doc, &CatalogShape::archive()).unwrap();
    assert_eq!(cs.len(), 1);
    assert_eq!(cs[0].id, "intro");
    assert_eq!(
        cs[0].pages,
        vec![
            PageRef { page_number: 1, href: "/comic/1".to_string() },
            PageRef { page_number: 2, href: "/comic/2".to_string() },
        ]
    );
    let mut g = GalleryIndex::new();
    for t in &page_targets(&cs) {
        g.record(t, PageOutcome::Downloaded).unwrap();
    }
    assert_eq!(paths(&g), vec![(1, "intro/1.jpg".to_string()), (2, "intro/2.jpg".to_string())]);
}

#[test]
fn summary_counts_outcomes() {
    let mut s = RunSummary::new();
    s.tally(PageOutcome::Downloaded);
    s.tally(PageOutcome::Skipped);
    s.tally(PageOutcome::Skipped);
    s.tally(PageOutcome::Failed(SyncError::PageFetchFailed));
    assert_eq!((s.attempted, s.downloaded, s.skipped, s.failed), (4, 1, 2, 1));
}

#[test]
fn run_settles_pages_in_order() {
    let ts: Vec<PageTarget> = vec![target("c1", 1), target("c1", 2), target("c2", 3)];
    let mut run = Run::new(ts).unwrap();
    assert_eq!(run.current().unwrap().page.page_number, 1);
    run.settle(PageOutcome::Skipped);
    assert_eq!(run.current().unwrap().page.page_number, 2);
    run.settle(PageOutcome::Failed(SyncError::MissingAsset));
    assert_eq!(run.current().unwrap().chapter_id, "c2");
    run.settle(PageOutcome::Downloaded);
    assert!(run.current().is_none());
    assert!(!run.stopped);
    assert_eq!((run.summary.attempted, run.summary.downloaded, run.summary.skipped, run.summary.failed), (3, 1, 1, 1));
    let doc = run.finish();
    assert!(doc.contains("<figure id=\"page-1\"><img src=\"c1/1.jpg\" alt=\"Page 1\"></figure>\n"));
    assert!(!doc.contains("page-2\""));
    assert!(doc.contains("<figure id=\"page-3\"><img src=\"c2/3.jpg\" alt=\"Page 3\"></figure>\n"));
    assert!(doc.contains("min=\"1\" max=\"3\""));
}

#[test]
fn run_stops_after_fatal_outcome() {
    let ts: Vec<PageTarget> = (1..=4).map(|n| target("c1", n)).collect();
    let mut run = Run::new(ts).unwrap();
    run.settle(PageOutcome::Downloaded);
    run.settle(PageOutcome::Failed(SyncError::PersistFailed));
    assert!(run.stopped);
    assert!(run.current().is_none());
    assert_eq!(run.next, 2);
    let doc = run.finish();
    assert!(doc.contains("c1/1.jpg"));
    assert!(!doc.contains("c1/2.jpg"));
}

#[test]
fn run_refuses_unordered_pages() {
    assert!(Run::new(vec![target("c1", 2), target("c1", 1)]).is_none());
    assert!(Run::new(vec![target("c1", 1), target("c2", 1)]).is_none());
    assert!(Run::new(vec![]).unwrap().current().is_none());
}
