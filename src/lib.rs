//! Drawing adapters for the framebuffers of a dual-screen handheld, and the
//! rules of a small snake game that runs on it.

pub mod display;
pub mod snake;
