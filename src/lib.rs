//! Island-style biome maps: a radial falloff field, its blend with a noise
//! field, and the classification of the blended heights into colour bands.

pub mod compose;
pub mod falloff;
pub mod field;
pub mod pipeline;

pub use compose::{Bands, Biome, combine_cell, combine_fields};
pub use falloff::{falloff_value, generate_falloff_map};
pub use field::{ColorField, GrayField, Rgb};
pub use pipeline::{BiomeMap, build_biome_map};
