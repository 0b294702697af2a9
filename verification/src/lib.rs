//! Bulk-download planner for LiDAR tiles of the Slovenian geographic
//! information service: tile identifiers with their textual forms, the
//! canonical tile URL and output filename, inclusive grid enumeration, and
//! the decisions of a bounded-concurrency fetch pipeline.

use vstd::prelude::*;

pub mod grid;
pub mod ident;
pub mod link;
pub mod pipeline;
pub mod text;

