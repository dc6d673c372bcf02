//! The whole map: falloff, blend and bands, from a noise field.
use vstd::prelude::*;
use crate::compose::{Bands, band_of, blend, combine_fields};
use crate::falloff::{falloff_at, generate_falloff_map};
use crate::field::{ColorField, GrayField};

verus! {

/// The three fields that a map is made of, all of one size.
pub struct BiomeMap {
    pub falloff: GrayField,
    pub blended: GrayField,
    pub colors: ColorField,
}

/// The map of a noise field: the falloff field of its size, the noise blended
/// with it cell by cell, and the band colour of each blended height. `None`
/// when a dimension of the field does not fit in `u32`, the range of image sizes.
pub fn build_biome_map(noise: &GrayField, max_distance: u32, bands: &Bands) -> (r: Option<
    BiomeMap,
>)
    requires
        noise.wf(),
    ensures
        r is Some <==> noise.width <= u32::MAX && noise.height <= u32::MAX,
        r matches Some(m) ==> {
            &&& m.falloff.wf() && m.blended.wf() && m.colors.wf()
            &&& m.falloff.width == noise.width && m.falloff.height == noise.height
            &&& m.blended.width == noise.width && m.blended.height == noise.height
            &&& m.colors.width == noise.width && m.colors.height == noise.height
            &&& forall|x: int, y: int|
                0 <= x < noise.width && 0 <= y < noise.height ==> #[trigger] m.falloff.at(x, y)
                    as int == falloff_at(
                    noise.width as int,
                    noise.height as int,
                    max_distance as int,
                    x,
                    y,
                )
            &&& forall|i: int|
                0 <= i < noise.cells@.len() ==> #[trigger] m.blended.cells@[i] as int == blend(
                    noise.cells@[i] as int,
                    m.falloff.cells@[i] as int,
                )
            &&& forall|i: int|
                0 <= i < noise.cells@.len() ==> #[trigger] m.colors.pixels@[i]
                    == bands.color_spec(
                    band_of(
                        m.blended.cells@[i] as int,
                        bands.water_below as int,
                        bands.sand_below as int,
                    ),
                )
        },
{
    if noise.width > u32::MAX as usize || noise.height > u32::MAX as usize {
        return None;
    }
    let cell_count = noise.cells.len();
    assert(noise.width * noise.height == cell_count);
    let falloff = generate_falloff_map(noise.width as u32, noise.height as u32, max_distance);
    match combine_fields(noise, &falloff) {
        Some(blended) => {
            let colors = bands.colorize(&blended);
            Some(BiomeMap { falloff, blended, colors })
        },
        None => None,
    }
}

} // verus!
