//! A bidirectional synchronization engine for declarative development
//! environments: presets and user edits are merged into one canonical
//! result, rendered as descriptor text delimited by machine-owned marker
//! regions, and recovered from such text again, while human-authored
//! text outside the markers is preserved; a section-level and line-level
//! diff previews drift between state and file.
//!
//! All core operations are pure functions over in-memory text and
//! structures; reading and writing files, the terminal front end and the
//! package index store belong to the caller.

use vstd::prelude::*;

pub mod text;
pub mod smap;
pub mod state;
pub mod envvalue;
pub mod preset;
pub mod nixgen;
pub mod nixparse;
pub mod assemble;
pub mod diff;
pub mod config;
pub mod cli;
pub mod tui;
pub mod index;

verus! {

/// The reserved prefix that tags an environment value as a raw
/// expression rather than a literal string.
pub fn nix_expr_prefix() -> (r: &'static str)
    ensures
        r@ == crate::envvalue::prefix_chars(),
{
    "__mica_nix_expr__:"
}

} // verus!
