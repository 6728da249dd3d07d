//! Core of an interactive editor bridge for a document compiler: mutable
//! source buffers addressed by stable identifiers, package resolution with
//! archive extraction, editor-coordinate/byte-offset translation, and
//! definition lookup over a syntax-tree arena.
use vstd::prelude::*;

pub mod archive;
pub mod ast;
pub mod definition;
pub mod diagnostics;
pub mod error;
pub mod output;
pub mod package;
pub mod position;
pub mod range;
pub mod source_file;
pub mod store;
pub mod typst_core;

verus! {

/// Sum of two counters, used by the host to sanity-check the bridge.
pub fn add(left: u64, right: u64) -> (r: u64)
    requires
        left + right <= u64::MAX,
    ensures
        r == left + right,
{
    left + right
}

} // verus!
