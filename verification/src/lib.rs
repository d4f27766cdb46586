//! A declarative 2D scene renderer with a verified core.
//!
//! A scene is a tree of visual nodes (text, image, container, stacks, spacer)
//! carrying layout constraints with priorities.  The layout engine lowers the
//! tree to a system of linear constraints over eight variables per node,
//! solves it, and the compositor rasterizes the resolved frames into an RGBA
//! bitmap with straight-alpha blending.
//!
//! All lengths are fixed-point integers in thousandths of a pixel
//! (milli-units); ratios such as percentages, multipliers and opacity are
//! fixed-point per-mille values.  Adapters that read scenes from a DSL convert
//! floating-point lengths to milli-units at the boundary.

pub mod color;
pub mod compositor;
pub mod dsl;
pub mod engine;
pub mod geom;
pub mod linear;
pub mod lower;
pub mod measure;
pub mod raster;
pub mod resource;
pub mod scene;
pub mod solve;
pub mod style;
pub mod watermark;
