//! Blending a noise field with a falloff field, and sorting the blended
//! heights into water, sand and grass.
use vstd::prelude::*;
use crate::field::{ColorField, GrayField, Rgb};

verus! {

/// `noise * (falloff / 255)` truncated to an integer.
pub open spec fn blend(noise: int, falloff: int) -> int {
    noise * falloff / 255
}

/// The blend of one noise intensity with one falloff intensity.
pub fn combine_cell(noise: u8, falloff: u8) -> (r: u8)
    ensures
        r as int == blend(noise as int, falloff as int),
        r <= noise,
{
    proof {
        lemma_blend_bounded(noise as int, falloff as int);
    }
    ((noise as u32 * falloff as u32) / 255) as u8
}

/// The cell by cell blend of two fields of the same size; `None` when their
/// sizes differ.
pub fn combine_fields(noise: &GrayField, falloff: &GrayField) -> (r: Option<GrayField>)
    requires
        noise.wf(),
        falloff.wf(),
    ensures
        r is Some <==> noise.width == falloff.width && noise.height == falloff.height,
        r matches Some(c) ==> {
            &&& c.wf()
            &&& c.width == noise.width
            &&& c.height == noise.height
            &&& forall|i: int|
                0 <= i < c.cells@.len() ==> #[trigger] c.cells@[i] as int == blend(
                    noise.cells@[i] as int,
                    falloff.cells@[i] as int,
                ) && c.cells@[i] <= noise.cells@[i]
        },
{
    if noise.width != falloff.width || noise.height != falloff.height {
        return None;
    }
    let n = noise.cells.len();
    let mut cells: Vec<u8> = Vec::with_capacity(n);
    let mut i: usize = 0;
    while i < n
        invariant
            n == noise.cells@.len(),
            n == falloff.cells@.len(),
            i <= n,
            cells@.len() == i,
            forall|j: int|
                0 <= j < i ==> #[trigger] cells@[j] as int == blend(
                    noise.cells@[j] as int,
                    falloff.cells@[j] as int,
                ) && cells@[j] <= noise.cells@[j],
        decreases n - i,
    {
        let v = combine_cell(noise.cells[i], falloff.cells[i]);
        cells.push(v);
        i += 1;
    }
    Some(GrayField { width: noise.width, height: noise.height, cells })
}

/// Blending never raises a height: the falloff intensity is at most 255, so
/// the blended value is at most the noise intensity, and it is a byte value.
pub proof fn lemma_blend_bounded(noise: int, falloff: int)
    requires
        0 <= noise <= 255,
        0 <= falloff <= 255,
    ensures
        0 <= blend(noise, falloff) <= noise,
{
    assert(0 <= noise * falloff <= noise * 255) by (nonlinear_arith)
        requires
            0 <= noise <= 255,
            0 <= falloff <= 255,
    ;
    vstd::arithmetic::div_mod::lemma_div_is_ordered(noise * falloff, noise * 255, 255);
    vstd::arithmetic::div_mod::lemma_div_multiples_vanish(noise, 255);
    vstd::arithmetic::div_mod::lemma_div_pos_is_pos(noise * falloff, 255);
}

/// The three kinds of terrain.
#[derive(Clone, Copy, PartialEq, Eq, Debug, Structural)]
pub enum Biome {
    Water,
    Sand,
    Grass,
}

/// The thresholds and colours of the bands: heights below `water_below` are
/// water, the rest below `sand_below` are sand, all others grass.
#[derive(Clone, Copy, PartialEq, Eq, Debug, Structural)]
pub struct Bands {
    pub water_below: u8,
    pub sand_below: u8,
    pub water: Rgb,
    pub sand: Rgb,
    pub grass: Rgb,
}

/// The band of height `v`: the first of water, sand, grass whose threshold it is under.
pub open spec fn band_of(v: int, water_below: int, sand_below: int) -> Biome {
    if v < water_below {
        Biome::Water
    } else if v < sand_below {
        Biome::Sand
    } else {
        Biome::Grass
    }
}

impl Bands {
    /// Water below 50 in blue, sand below 70 in yellow, grass above in green.
    pub fn standard() -> (r: Bands)
        ensures
            r.water_below == 50,
            r.sand_below == 70,
            r.water == (Rgb { r: 0, g: 0, b: 255 }),
            r.sand == (Rgb { r: 255, g: 255, b: 0 }),
            r.grass == (Rgb { r: 0, g: 255, b: 0 }),
    {
        Bands {
            water_below: 50,
            sand_below: 70,
            water: Rgb { r: 0, g: 0, b: 255 },
            sand: Rgb { r: 255, g: 255, b: 0 },
            grass: Rgb { r: 0, g: 255, b: 0 },
        }
    }

    /// The colour given to `biome`.
    pub open spec fn color_spec(&self, biome: Biome) -> Rgb {
        match biome {
            Biome::Water => self.water,
            Biome::Sand => self.sand,
            Biome::Grass => self.grass,
        }
    }

    /// The band of height `v`.
    pub fn classify(&self, v: u8) -> (r: Biome)
        ensures
            r == band_of(v as int, self.water_below as int, self.sand_below as int),
    {
        if v < self.water_below {
            Biome::Water
        } else if v < self.sand_below {
            Biome::Sand
        } else {
            Biome::Grass
        }
    }

    /// The colour given to `biome`.
    pub fn color_of(&self, biome: Biome) -> (r: Rgb)
        ensures
            r == self.color_spec(biome),
    {
        match biome {
            Biome::Water => self.water,
            Biome::Sand => self.sand,
            Biome::Grass => self.grass,
        }
    }

    /// The colour of each cell's band, cell for cell.
    pub fn colorize(&self, field: &GrayField) -> (r: ColorField)
        requires
            field.wf(),
        ensures
            r.wf(),
            r.width == field.width,
            r.height == field.height,
            forall|i: int|
                0 <= i < r.pixels@.len() ==> #[trigger] r.pixels@[i] == self.color_spec(
                    band_of(
                        field.cells@[i] as int,
                        self.water_below as int,
                        self.sand_below as int,
                    ),
                ),
    {
        let n = field.cells.len();
        let mut pixels: Vec<Rgb> = Vec::with_capacity(n);
        let mut i: usize = 0;
        while i < n
            invariant
                n == field.cells@.len(),
                i <= n,
                pixels@.len() == i,
                forall|j: int|
                    0 <= j < i ==> #[trigger] pixels@[j] == self.color_spec(
                        band_of(
                            field.cells@[j] as int,
                            self.water_below as int,
                            self.sand_below as int,
                        ),
                    ),
            decreases n - i,
        {
            let biome = self.classify(field.cells[i]);
            pixels.push(self.color_of(biome));
            i += 1;
        }
        ColorField { width: field.width, height: field.height, pixels }
    }
}

/// Whether `v` lies in the water band.
pub open spec fn is_water(v: int, water_below: int, sand_below: int) -> bool {
    v < water_below
}

/// Whether `v` lies in the sand band: not water, and under the sand threshold.
pub open spec fn is_sand(v: int, water_below: int, sand_below: int) -> bool {
    water_below <= v && v < sand_below
}

/// Whether `v` lies in the grass band: neither water nor sand.
pub open spec fn is_grass(v: int, water_below: int, sand_below: int) -> bool {
    water_below <= v && sand_below <= v
}

/// The bands partition the heights: each height lies in exactly one of them,
/// and it is the one that `classify` names.
pub proof fn lemma_bands_partition(v: int, water_below: int, sand_below: int)
    ensures
        is_water(v, water_below, sand_below) as int + is_sand(v, water_below, sand_below) as int
            + is_grass(v, water_below, sand_below) as int == 1,
        is_water(v, water_below, sand_below) <==> band_of(v, water_below, sand_below)
            == Biome::Water,
        is_sand(v, water_below, sand_below) <==> band_of(v, water_below, sand_below)
            == Biome::Sand,
        is_grass(v, water_below, sand_below) <==> band_of(v, water_below, sand_below)
            == Biome::Grass,
{
}

} // verus!
