//! Reading, validating and manipulating Unified Font Object data.

pub mod data_request;
pub mod datastore;
pub mod designspace;
pub mod error;
pub mod features;
pub mod font;
pub mod fontinfo;
pub mod glyph;
pub mod glyph_names;
pub mod kerning;
pub mod layer;
pub mod groups;
pub mod guideline;
pub mod identifier;
pub mod name;
pub mod names;
pub mod non_file_io;
pub mod numbers;
pub mod path;
pub mod py_id;
pub mod plist_ops;
pub mod shared_types;
pub mod text;
pub mod util;
pub mod write;

pub use glyph::{
    AffineTransform, Anchor, Codepoints, Component, Contour, ContourPoint, Glyph, Image, PointType,
};
pub use identifier::Identifier;
pub use name::Name;
