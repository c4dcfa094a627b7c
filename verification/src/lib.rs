//! Composite wallpapers for multi-monitor desktops: per-monitor images are
//! scaled and placed on one canvas, the finished artifact is named and handed
//! to a desktop backend, and a small scheduler decides when to regenerate.

pub mod backend;
pub mod compose;
pub mod config;
pub mod cycle;
pub mod output;
pub mod raster;
pub mod scheduler;
