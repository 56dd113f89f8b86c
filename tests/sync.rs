use comic_mirror::document::{Document, Element};
use comic_mirror::paths::{asset_path, asset_relative_path, resolve_url, temp_path};
use comic_mirror::resolve::{resolve_page, PageError, PageShape};
use comic_mirror::sync::{Action, Event, PageOutcome, PageSync, SyncConfig, SyncError};

fn el(tag: &str, classes: &[&str], src: Option<&str>, end: usize) -> Element {
    Element {
        tag: tag.to_string(),
        classes: classes.iter().map(|c| c.to_string()).collect(),
        id: None,
        href: None,
        src: src.map(|s| s.to_string()),
        text: String::new(),
        end,
    }
}

fn page_with_image(src: &str) -> Document {
    Document {
        elements: vec![
            el("body", &[], None, 4),
            el("article", &["comic"], None, 4),
            el("img", &[], Some(src), 3),
            el("img", &[], Some("/second.jpg"), 4),
        ],
    }
}

fn config() -> SyncConfig {
    SyncConfig {
        base_url: "https://example.com".to_string(),
        page_shape: PageShape::comic(),
        interval_ms: 2000,
        max_tries: 3,
    }
}

#[test]
fn asset_paths_are_deterministic() {
    assert_eq!(asset_relative_path("c1", 5), "c1/5.jpg");
    assert_eq!(asset_path("download", "c1", 5), "download/c1/5.jpg");
    assert_eq!(asset_path("download", "intro", 120), "download/intro/120.jpg");
    assert_eq!(temp_path("download", "c1", 7), "download/c1/7.jpg.part");
    assert_eq!(asset_relative_path("c1", 0), "c1/0.jpg");
    assert_eq!(asset_relative_path("c", u64::MAX), "c/18446744073709551615.jpg");
}

#[test]
fn links_resolve_against_base() {
    assert_eq!(resolve_url("https://example.com", "/comic/1"), "https://example.com/comic/1");
    assert_eq!(resolve_url("https://example.com", "comic/1"), "https://example.com/comic/1");
    assert_eq!(resolve_url("https://example.com", "https://cdn.example.com/a.jpg"), "https://cdn.example.com/a.jpg");
    assert_eq!(resolve_url("https://example.com", "http://cdn.example.com/a.jpg"), "http://cdn.example.com/a.jpg");
    assert_eq!(resolve_url("https://example.com", ""), "https://example.com/");
}

#[test]
fn first_image_in_container_wins() {
    let a = resolve_page(&page_with_image("/img/1.jpg"), &PageShape::comic(), "https://example.com").unwrap();
    assert_eq!(a.source_url, "https://example.com/img/1.jpg");
}

#[test]
fn image_outside_container_is_not_taken() {
    let doc = Document {
        elements: vec![
            el("body", &[], None, 3),
            el("img", &[], Some("/logo.png"), 2),
            el("article", &["comic"], None, 3),
        ],
    };
    assert_eq!(resolve_page(&doc, &PageShape::comic(), "https://example.com").unwrap_err(), PageError::MissingAsset);
}

#[test]
fn page_without_container_is_malformed() {
    let doc = Document { elements: vec![el("body", &[], None, 2), el("img", &[], Some("/a.jpg"), 2)] };
    assert_eq!(resolve_page(&doc, &PageShape::comic(), "https://example.com").unwrap_err(), PageError::MalformedPage);
}

#[test]
fn image_without_source_is_missing() {
    let doc = Document { elements: vec![el("article", &["comic"], None, 2), el("img", &[], None, 2)] };
    assert_eq!(resolve_page(&doc, &PageShape::comic(), "https://example.com").unwrap_err(), PageError::MissingAsset);
}

#[test]
fn present_asset_is_skipped_without_fetch() {
    let cfg = config();
    let (mut s, first) = PageSync::begin("https://example.com/comic/5".to_string());
    assert_eq!(first, Action::CheckExists);
    assert_eq!(s.step(&cfg, Event::Exists(true)), Action::Finish(PageOutcome::Skipped));
    assert_eq!(s.step(&cfg, Event::PageFetched(None)), Action::Ignore);
    assert_eq!(s.step(&cfg, Event::AssetFetched(true)), Action::Ignore);
}

#[test]
fn missing_asset_is_downloaded_through_temp_file() {
    let cfg = config();
    let (mut s, _) = PageSync::begin("https://example.com/comic/1".to_string());
    assert_eq!(
        s.step(&cfg, Event::Exists(false)),
        Action::FetchPage { url: "https://example.com/comic/1".to_string(), delay_ms: 2000 }
    );
    assert_eq!(
        s.step(&cfg, Event::PageFetched(Some(page_with_image("/img/1.jpg")))),
        Action::FetchAsset { url: "https://example.com/img/1.jpg".to_string(), delay_ms: 2000 }
    );
    assert_eq!(s.step(&cfg, Event::AssetFetched(true)), Action::WriteTemp);
    assert_eq!(s.step(&cfg, Event::TempWritten(true)), Action::RenameIntoPlace);
    assert_eq!(s.step(&cfg, Event::Renamed(true)), Action::Finish(PageOutcome::Downloaded));
}

#[test]
fn failed_write_is_discarded_and_fatal() {
    let cfg = config();
    let (mut s, _) = PageSync::begin("https://example.com/comic/7".to_string());
    s.step(&cfg, Event::Exists(false));
    s.step(&cfg, Event::PageFetched(Some(page_with_image("/img/7.jpg"))));
    assert_eq!(s.step(&cfg, Event::AssetFetched(true)), Action::WriteTemp);
    assert_eq!(s.step(&cfg, Event::TempWritten(false)), Action::DiscardTemp);
    assert_eq!(s.step(&cfg, Event::Renamed(true)), Action::Ignore);
    let out = s.step(&cfg, Event::TempDiscarded);
    assert_eq!(out, Action::Finish(PageOutcome::Failed(SyncError::PersistFailed)));
    assert!(PageOutcome::Failed(SyncError::PersistFailed).is_fatal());
    assert!(!PageOutcome::Failed(SyncError::AssetFetchFailed).is_fatal());
    assert!(!PageOutcome::Skipped.is_fatal());
}

#[test]
fn failed_rename_is_discarded() {
    let cfg = config();
    let (mut s, _) = PageSync::begin("https://example.com/comic/7".to_string());
    s.step(&cfg, Event::Exists(false));
    s.step(&cfg, Event::PageFetched(Some(page_with_image("/img/7.jpg"))));
    s.step(&cfg, Event::AssetFetched(true));
    s.step(&cfg, Event::TempWritten(true));
    assert_eq!(s.step(&cfg, Event::Renamed(false)), Action::DiscardTemp);
}

#[test]
fn fetches_are_retried_with_growing_delay() {
    let cfg = config();
    let (mut s, _) = PageSync::begin("https://example.com/comic/2".to_string());
    s.step(&cfg, Event::Exists(false));
    assert_eq!(
        s.step(&cfg, Event::PageFetched(None)),
        Action::FetchPage { url: "https://example.com/comic/2".to_string(), delay_ms: 4000 }
    );
    assert_eq!(
        s.step(&cfg, Event::PageFetched(None)),
        Action::FetchPage { url: "https://example.com/comic/2".to_string(), delay_ms: 6000 }
    );
    assert_eq!(
        s.step(&cfg, Event::PageFetched(None)),
        Action::Finish(PageOutcome::Failed(SyncError::PageFetchFailed))
    );
}

#[test]
fn asset_fetch_gives_up_after_last_try() {
    let mut cfg = config();
    cfg.max_tries = 2;
    let (mut s, _) = PageSync::begin("https://example.com/comic/2".to_string());
    s.step(&cfg, Event::Exists(false));
    s.step(&cfg, Event::PageFetched(Some(page_with_image("https://cdn.example.com/2.jpg"))));
    assert_eq!(
        s.step(&cfg, Event::AssetFetched(false)),
        Action::FetchAsset { url: "https://cdn.example.com/2.jpg".to_string(), delay_ms: 4000 }
    );
    assert_eq!(
        s.step(&cfg, Event::AssetFetched(false)),
        Action::Finish(PageOutcome::Failed(SyncError::AssetFetchFailed))
    );
}

#[test]
fn malformed_page_fails_the_page() {
    let cfg = config();
    let (mut s, _) = PageSync::begin("https://example.com/comic/3".to_string());
    s.step(&cfg, Event::Exists(false));
    let doc = Document { elements: vec![el("body", &[], None, 1)] };
    assert_eq!(
        s.step(&cfg, Event::PageFetched(Some(doc))),
        Action::Finish(PageOutcome::Failed(SyncError::MalformedPage))
    );
}

#[test]
fn delay_saturates() {
    let mut cfg = config();
    cfg.interval_ms = u64::MAX;
    let (mut s, _) = PageSync::begin("u".to_string());
    assert_eq!(s.step(&cfg, Event::Exists(false)), Action::FetchPage { url: "u".to_string(), delay_ms: u64::MAX });
    assert_eq!(s.step(&cfg, Event::PageFetched(None)), Action::FetchPage { url: "u".to_string(), delay_ms: u64::MAX });
}

#[test]
fn unexpected_event_is_ignored() {
    let cfg = config();
    let (mut s, _) = PageSync::begin("u".to_string());
    assert_eq!(s.step(&cfg, Event::TempWritten(true)), Action::Ignore);
    assert_eq!(s.step(&cfg, Event::Exists(true)), Action::Finish(PageOutcome::Skipped));
}
