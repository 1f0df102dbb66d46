//! Review-workspace logic: ordering of review tasks, diff snippets around an
//! anchor line, tool labels of agent activity, and the decisions of the
//! review and generation screens.
use vstd::prelude::*;

pub mod search;
pub mod settings;
pub mod text;
pub mod timestamp;
pub mod domain;
pub mod generation;
pub mod logo_cache;
pub mod app;
pub mod detail_views;
pub mod ordering;
pub mod platform;
pub mod review_screen;
pub mod visuals;
pub mod tool_label;
pub mod diff_snippet;
pub mod diff_text;
pub mod pr_send;
pub mod review_header;
pub mod unidiff_safety;

verus! {

} // verus!
