//! A minimal declarative UI layout core.
//!
//! A tree of widgets is built once per frame. Given a rectangular region and
//! a visual theme (a [`build_context::BuildContext`]), each widget computes
//! the sub-regions of its children and produces drawing commands, which a
//! host renderer rasterizes. All geometry is in whole logical pixels.

pub mod build_context;
pub mod draw;
pub mod laws;
pub mod layout;
pub mod render;
pub mod widget;
