pub mod controller;
pub mod peer;
pub mod playback;
pub mod session;
