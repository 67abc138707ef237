//! Watches a stream of chat messages, detects which ones carry an animated
//! image ("gif") payload -- either as a file attachment or as a hyperlink that
//! resolves to one -- and plans the relocation of that payload to a dedicated
//! channel: classification, content rewriting, and the ordered multi-step
//! repost/edit/delete sequence with its failure semantics.
//!
//! All network and platform I/O is performed by the surrounding application;
//! this crate holds the decision logic, verified.

use vstd::prelude::*;

pub mod classify;
pub mod config;
pub mod links;
pub mod orchestrate;
pub mod relay;
pub mod rewrite;
pub mod text;

verus! {

} // verus!
