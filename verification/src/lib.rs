//! Core of a tag-based display compositor: the scene composition engine that
//! decides, once per output refresh, what is visible and in what order; the
//! floating/tiled placement state machine; the commit-ordering barrier that
//! prevents stale frames during interactive resize; the idle retry scheduler;
//! and the side records attached to windows, outputs and surfaces.
//!
//! Protocol transport, GPU rendering, input routing and configuration are
//! external collaborators: they hand this core plain values (ids, rectangles,
//! flags) and receive requested actions and ordered render lists back.

pub mod geometry;
pub mod output;
pub mod render;
pub mod space;
pub mod state;
pub mod tag;
pub mod window;
