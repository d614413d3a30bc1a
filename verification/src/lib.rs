//! Loader core for a tile-based level-editor export format.
//!
//! A level is described by three kinds of markup files: a map (a grid of
//! tile indices plus placed objects), a tileset (sprite-sheet layout and an
//! image reference), and an object template (a reusable prototype). This
//! crate parses those files into validated, strongly typed records, resolves
//! the editor's relative file references into project-rooted paths, and
//! tracks the asynchronous loading of everything a map transitively
//! references until the whole graph is materialized.
//!
//! The host's asset store is outside this crate: records hold handles —
//! resolved project-rooted paths — and the parse functions return the load
//! requests to issue, while the readiness tracker is polled with snapshots
//! of what has materialized.

pub mod coords;
pub mod digits;
pub mod dom;
pub mod float_text;
pub mod grid;
pub mod parser;
pub mod path;
pub mod property;
pub mod records;
pub mod text;
pub mod tracker;
pub mod xml;

pub use coords::pixel_to_tile;
pub use grid::decode_grid;
pub use parser::{parse_map, parse_spritesheet, parse_template};
pub use path::resolve;
pub use property::{decode_property, encode_property, ObjectProperty, ParseError, Rgba};
pub use records::{
    get_property_value_from_object_or_default_b, get_property_value_from_object_or_default_c,
    get_property_value_from_object_or_default_i, get_property_value_from_object_or_default_s,
    NamedProperty, ObjectData, ObjectReference, RawMapData, SpritesheetData, TemplateData,
};
pub use tracker::{MapLoadState, MapTracker, StoreSnapshot};
