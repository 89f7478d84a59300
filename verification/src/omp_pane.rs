//! The hidden logical-pane client: a guest process owns the terminal, and only
//! semantic frames pass between it and the server.
pub mod accept;
pub mod bridge;
pub mod record;
