//! Link-preview metadata for card pages.
//!
//! A card page is served as a static HTML shell. For crawlers that build link
//! previews, the shell's head is extended with OpenGraph and Twitter-card
//! `<meta>` tags derived from the card's record. This crate holds the part of
//! that pipeline that computes: escaping, tag synthesis, template injection,
//! the reading of the backend's answer, and the request handler's decisions.
//! Every function carries a contract that Verus proves.

pub mod backend;
pub mod decimal;
pub mod escape;
pub mod meta;
pub mod routes;
pub mod template;
pub mod text;

pub use backend::{Answer, CardWrapper, FetchError};
pub use escape::create_meta;
pub use meta::{Card, Config};
pub use routes::{card, step, Action, Event, HandlerState, Outcome, Response, Storage};
pub use template::{has_marker, inject};
