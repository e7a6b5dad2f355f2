//! Catalog/file-layer boundary.
//!
//! - Originals are opened read-only by the file layer.
//! - Originals are never overwritten.
//! - The catalog database lives at `<root>/.editor-catalog/catalog.db`.
//! - The thumbnail cache lives at `<root>/.editor-catalog/thumbs/`.
//! - Edits are persisted in SQLite, not in sidecar files next to originals.

use vstd::prelude::*;

verus! {

/// Directory, below a library root, that holds everything the editor writes.
pub const CATALOG_DIR: &'static str = ".editor-catalog";

/// Path of the catalog database, relative to a library root.
pub const CATALOG_DB: &'static str = ".editor-catalog/catalog.db";

/// Path of the thumbnail cache, relative to a library root.
pub const THUMB_CACHE_DIR: &'static str = ".editor-catalog/thumbs";

} // verus!
