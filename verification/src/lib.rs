//! Incremental tessellation of freehand ink strokes into line-strip meshes.
//!
//! A stroke is a growing run of points. Each update folds the points that
//! have arrived since the last one into the stroke's mesh: a smooth curve is
//! fitted to the tail of the stroke that the mesh does not show yet, the
//! curve is sampled more densely the faster the stroke was drawn, and the
//! samples are appended to a vertex buffer that grows geometrically.
//!
//! The crate holds no floating-point number. Points and vertices are of
//! whatever type the host draws with; lengths come in rounded up to whole
//! numbers; the curve is fitted and sampled by the host, which is told when
//! to do so and how many samples to take.
//!
//! - [`buffer`]: the vertex buffer and its index list.
//! - [`resolution`]: the tuning of a stroke and the sampling density.
//! - [`mode`]: which curves can be fitted, to how many points, in how many
//!   segments.
//! - [`stroke`]: one stroke and the steps of its update.
//! - [`tessellation`]: what a whole update comes to, and what feeding a
//!   stroke in pieces comes to.
//! - [`store`]: the strokes of a drawing, one open stroke to an input source.
//! - [`input`]: which pointer events begin, extend and end a stroke.
//! - [`overlay`]: the overlay that blocks the canvas.
//! - [`settings`]: the renderer's plain choices.

pub mod buffer;
pub mod input;
pub mod mode;
pub mod overlay;
pub mod resolution;
pub mod settings;
pub mod store;
pub mod stroke;
pub mod tessellation;
