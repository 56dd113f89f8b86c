//! The page resolver: a page document to the location of its image asset.
use vstd::prelude::*;
use crate::document::{Document, Query};
use crate::paths::{resolve_url, url_of};

verus! {

/// How a page document marks its image.
#[derive(Debug, PartialEq, Eq)]
pub struct PageShape {
    /// Class of the content container.
    pub container_class: String,
    /// Element name of an image.
    pub image_tag: String,
}

impl PageShape {
    /// The site's own markup: an `img` inside the `comic` container.
    pub fn comic() -> (r: PageShape)
        ensures
            r.container_class@ == "comic"@,
            r.image_tag@ == "img"@,
    {
        PageShape { container_class: String::from_str("comic"), image_tag: String::from_str("img") }
    }
}

/// Where a page's image can be fetched.
#[derive(Debug, PartialEq, Eq)]
pub struct AssetRef {
    pub source_url: String,
}

#[derive(PartialEq, Eq, Debug, Clone, Copy, Structural)]
pub enum PageError {
    /// The page document could not be fetched.
    PageFetchFailed,
    /// The page has no content container.
    MalformedPage,
    /// The content container holds no image with a source.
    MissingAsset,
}

/// The source attribute of the first image in the page's content container,
/// as written in the page.
pub open spec fn asset_source(doc: Document, shape: PageShape) -> Result<Seq<char>, PageError> {
    match doc.first_match(0, doc.len(), (true, shape.container_class@)) {
        None => Err(PageError::MalformedPage),
        Some(k) => match doc.first_match(k + 1, doc.scope_end(k), (false, shape.image_tag@)) {
            None => Err(PageError::MissingAsset),
            Some(m) => match doc.elements@[m].src {
                None => Err(PageError::MissingAsset),
                Some(s) => Ok(s@),
            },
        },
    }
}

/// Finds the page's asset: the first image inside its content container, its
/// source resolved against the site's base URL.
pub fn resolve_page(doc: &Document, shape: &PageShape, base: &str) -> (r: Result<
    AssetRef,
    PageError,
>)
    ensures
        match (r, asset_source(*doc, *shape)) {
            (Ok(a), Ok(s)) => a.source_url@ == url_of(base@, s),
            (Err(e), Err(f)) => e == f,
            _ => false,
        },
{
    let container = Query::Class(shape.container_class.clone());
    let image = Query::Tag(shape.image_tag.clone());
    assert(container@ == (true, shape.container_class@));
    assert(image@ == (false, shape.image_tag@));
    match doc.find_first(0, doc.elements.len(), &container) {
        None => Err(PageError::MalformedPage),
        Some(k) => {
            let end = doc.subtree_end(k);
            match doc.find_first(k + 1, end, &image) {
                None => Err(PageError::MissingAsset),
                Some(m) => match &doc.elements[m].src {
                    None => Err(PageError::MissingAsset),
                    Some(s) => Ok(AssetRef { source_url: resolve_url(base, s.as_str()) }),
                },
            }
        },
    }
}

} // verus!
