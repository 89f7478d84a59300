//! The client's own rendering of a pane: who gets the input, and what is shown.
pub mod fields;
pub mod forward;
pub mod frame;
pub mod conservation;
pub mod kept;
pub mod kept_lists;
pub mod kept_turns;
pub mod laws;
pub mod lists;
pub mod machine;
pub mod model;
pub mod order;
pub mod queues;
pub mod routing;
pub mod showing;
pub mod spawn;
pub mod state;
pub mod steps;
pub mod target;
pub mod waiting;
pub mod waits;
