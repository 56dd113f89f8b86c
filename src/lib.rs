//! Incremental mirroring of a paginated comic archive: catalog parsing, page
//! resolution, the per-page sync decisions and the gallery index.

pub mod document;
pub mod catalog;
pub mod paths;
pub mod resolve;
pub mod sync;
pub mod gallery;
pub mod run;
pub mod options;
