//! Driver logic for a 200 x 200 monochrome e-paper panel.
pub mod busy;
pub mod config;
pub mod display;
pub mod error;
pub mod framebuffer;
pub mod geometry;
pub mod single_device;
