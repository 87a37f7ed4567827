//! A uniform abstraction over 2D geometric shapes on an integer grid.
//!
//! Every shape — lines, rectangles, rounded rectangles, circles, and
//! arbitrary Bézier paths — exposes one capability set: conversion to a
//! Bézier outline at a caller-chosen tolerance, signed area, perimeter,
//! winding number, bounding box, and constant-time identity-recovery
//! probes that report the concrete primitive a generic value really is.
//! A non-owning [`ShapeRef`] view of any shape satisfies the same set by
//! forwarding, so algorithms can be written once over owned or borrowed
//! shapes.
//!
//! Coordinates are integers bounded by [`geom::COORD_LIMIT`]; callers
//! pick the unit (for instance one unit = a thousandth of a pixel). All
//! measurements are exact integer computations whose results are pinned
//! down by the contracts: areas and perimeters of circular arcs use the
//! rational approximation 355/113 of pi, and lengths use the integer
//! square root (rounded down).

pub mod arc;
pub mod arith;
pub mod bez_path;
pub mod circle;
pub mod geom;
pub mod line;
pub mod path;
pub mod rect;
pub mod rounded_rect;
pub mod shape;

pub use bez_path::BezPath;
pub use circle::Circle;
pub use geom::{PathEl, PathSeg, Point, COORD_LIMIT, MAX_ELS};
pub use line::Line;
pub use rect::Rect;
pub use rounded_rect::RoundedRect;
pub use shape::{Shape, ShapeRef};
