//! Reading the host terminal's input for the thin client.
pub mod framing;
pub mod reader;
pub mod windows;
