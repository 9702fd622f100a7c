//! Malware detection and containment: a signature store, byte-pattern
//! matching, a scan-result cache, the per-file decisions of a tree scan, and
//! the quarantine of flagged files.

use vstd::prelude::*;

pub mod archive;
pub mod cache;
pub mod codec;
pub mod engine;
pub mod logging;
pub mod matcher;
pub mod monitor;
pub mod paths;
pub mod quarantine;
pub mod report;
pub mod security;
pub mod store;
pub mod text;
pub mod utils;

verus! {

} // verus!
