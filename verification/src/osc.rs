pub mod agent;
pub mod color;
pub mod cwd;
pub mod debug;
pub mod ready;
pub mod screen;
pub mod scrollback;
pub mod stream;
pub mod theme;
