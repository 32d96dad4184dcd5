//! Weekly weather for a 1-bit e-paper panel: configuration, the weather model
//! and the providers' data folded into it, the screen layout, and the
//! framebuffer it is drawn into.

pub mod canvas;
pub mod cli;
pub mod text;
pub mod config;
pub mod output;
pub mod render;
pub mod weather;
