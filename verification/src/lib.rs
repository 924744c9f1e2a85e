//! Geometry and arrangement core of a tiling window manager.
//!
//! Given a set of windows placed inside a rectangular display area, the crate computes a
//! bounding box for every window according to a layout strategy, and recomputes only when
//! the layout was invalidated.

pub mod bbox;
pub mod display;
pub mod layout;
pub mod manager;
pub mod query;
pub mod tile;
pub mod util;
pub mod window;
pub mod workspace;
