//! Orchestration and data model of a texture pipeline: change detection,
//! source selection, animation frame grouping and atlas manifest assembly.
//! Filesystem work, image codecs, packing and template rendering are done by
//! the caller, which hands this library plain values.

pub mod model;
pub mod freshness;
pub mod paths;
pub mod pattern;
pub mod grouping;
pub mod manifest;
pub mod options;
pub mod stats;

pub use model::{Error, Frame, PackedPage, PageItem, Template, DEFAULT_TEMPLATE};
pub use model::{DEFAULT_TEXTURE_MAX_HEIGHT, DEFAULT_TEXTURE_MAX_WIDTH};
pub use options::Options;
pub use pattern::{FramePattern, DEFAULT_FRAME_REGEX};
