//! Fake SMS gateway for 1KM development: it takes messages in Twilio's shape and in the shape of a
//! custom bridge, and shows them in a web inbox. Ephemeral by design: the inbox is bounded and
//! lives in memory, so nothing persists a restart.
//!
//! This library holds what the server decides and writes. The server around it listens, reads
//! requests and sends replies.
//!
//! - [`api`]: the requests that bring messages or list them, and the replies
//! - [`inbox`]: messages, and the bounded store that keeps them
//! - [`listing`]: the inbox newest first, filtered by a query
//! - [`html`]: the rows and counts of the web inbox
//! - [`page`]: the page of the web inbox
//! - [`settings`]: the address to listen on
//! - [`clock`], [`ident`], [`text`]: moments, identifiers and text

pub mod api;
pub mod clock;
pub mod html;
pub mod ident;
pub mod inbox;
pub mod listing;
pub mod page;
pub mod settings;
pub mod text;
