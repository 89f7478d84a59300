pub mod bytes;
pub mod execution;
pub mod guest_state;
pub mod handoff;
pub mod identity;
pub mod input;
pub mod input_origin;
pub mod ipc;
pub mod json;
pub mod media;
pub mod omp_pane;
pub mod osc;
pub mod random;
pub mod renderer;
pub mod text;
