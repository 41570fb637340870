//! Verified core of a calendar-notification pipeline.
//!
//! The pipeline resolves a user-supplied time token to a target instant,
//! filters the events fetched for that instant, formats each event's
//! description for display (grapheme-safe truncation with link harvesting),
//! and interprets the notifier's reported action choice.  Subprocess and
//! command-line plumbing live outside this crate; everything here is pure
//! logic with contracts.

pub mod adapter;
pub mod calendar;
pub mod dispatcher;
pub mod errors;
pub mod event;
pub mod filter;
pub mod formatter;
pub mod order;
pub mod patterns;
pub mod resolver;
pub mod segmentation;
pub mod text;
