use biome_map::{
    build_biome_map, combine_cell, combine_fields, falloff_value, generate_falloff_map, Bands,
    Biome, GrayField, Rgb,
};

const BLUE: Rgb = Rgb { r: 0, g: 0, b: 255 };
const YELLOW: Rgb = Rgb { r: 255, g: 255, b: 0 };
const GREEN: Rgb = Rgb { r: 0, g: 255, b: 0 };

#[test]
fn falloff_center_is_full_and_corner_is_clamped() {
    let field = generate_falloff_map(400, 400, 240);
    assert_eq!(field.width, 400);
    assert_eq!(field.height, 400);
    assert_eq!(field.cells.len(), 160_000);
    assert_eq!(field.get(200, 200), 255);
    assert_eq!(field.get(0, 0), 0);
    assert_eq!(falloff_value(400, 400, 240, 200, 200), 255);
    assert_eq!(falloff_value(400, 400, 240, 0, 0), 0);
}

#[test]
fn falloff_exact_values() {
    // distance 100 of 240: 255 * (1 - 100 / 240) = 148.75
    assert_eq!(falloff_value(400, 400, 240, 200, 100), 148);
    // distance 120 of 240: exactly half of 255, truncated
    assert_eq!(falloff_value(400, 400, 240, 80, 200), 127);
    // distance exactly max_distance: zero
    assert_eq!(falloff_value(480, 480, 240, 0, 240), 0);
    // odd size: centre (1.5, 1.5), distance sqrt(2) / 2 of 1
    assert_eq!(falloff_value(3, 3, 1, 1, 1), 74);
    // no reach at all
    assert_eq!(falloff_value(400, 400, 0, 200, 200), 0);
}

#[test]
fn falloff_is_symmetric() {
    let field = generate_falloff_map(400, 400, 240);
    for (x, y) in [(150usize, 120usize), (10, 390), (200, 1), (333, 250)] {
        let v = field.get(x, y);
        assert_eq!(v, field.get(400 - x, y));
        assert_eq!(v, field.get(x, 400 - y));
        assert_eq!(v, field.get(400 - x, 400 - y));
    }
}

#[test]
fn falloff_field_is_reproducible() {
    let a = generate_falloff_map(120, 80, 50);
    let b = generate_falloff_map(120, 80, 50);
    assert_eq!(a.cells, b.cells);
}

#[test]
fn falloff_field_matches_cell_values() {
    let field = generate_falloff_map(7, 5, 3);
    for y in 0..5u32 {
        for x in 0..7u32 {
            assert_eq!(field.get(x as usize, y as usize), falloff_value(7, 5, 3, x, y));
        }
    }
}

#[test]
fn falloff_decreases_away_from_center() {
    let field = generate_falloff_map(400, 400, 240);
    let mut last = 255u8;
    for x in 200..400usize {
        let v = field.get(x, 200);
        assert!(v <= last);
        last = v;
    }
}

#[test]
fn blend_truncates() {
    assert_eq!(combine_cell(255, 255), 255);
    assert_eq!(combine_cell(200, 128), 100);
    assert_eq!(combine_cell(100, 0), 0);
    assert_eq!(combine_cell(0, 255), 0);
    assert_eq!(combine_cell(254, 254), 253);
}

#[test]
fn blend_never_exceeds_noise() {
    for n in 0..=255u8 {
        for f in 0..=255u8 {
            assert!(combine_cell(n, f) <= n);
        }
    }
}

#[test]
fn combine_fields_cell_by_cell() {
    let noise = GrayField::from_cells(2, 2, vec![255, 200, 100, 0]).unwrap();
    let falloff = GrayField::from_cells(2, 2, vec![255, 128, 0, 255]).unwrap();
    let c = combine_fields(&noise, &falloff).unwrap();
    assert_eq!((c.width, c.height), (2, 2));
    assert_eq!(c.cells, vec![255, 100, 0, 0]);
}

#[test]
fn combine_fields_rejects_size_mismatch() {
    let noise = GrayField::from_cells(2, 2, vec![1, 2, 3, 4]).unwrap();
    let falloff = GrayField::from_cells(4, 1, vec![1, 2, 3, 4]).unwrap();
    assert!(combine_fields(&noise, &falloff).is_none());
}

#[test]
fn from_cells_checks_length() {
    assert!(GrayField::from_cells(2, 3, vec![0; 5]).is_none());
    assert!(GrayField::from_cells(2, 3, vec![0; 7]).is_none());
    assert!(GrayField::from_cells(usize::MAX, 2, vec![0; 2]).is_none());
    let f = GrayField::from_cells(3, 2, vec![1, 2, 3, 4, 5, 6]).unwrap();
    assert_eq!(f.get(0, 1), 4);
    assert_eq!(f.get(2, 0), 3);
    let empty = GrayField::from_cells(0, 0, vec![]).unwrap();
    assert!(empty.cells.is_empty());
}

#[test]
fn band_thresholds() {
    let bands = Bands::standard();
    assert_eq!(bands.classify(49), Biome::Water);
    assert_eq!(bands.classify(50), Biome::Sand);
    assert_eq!(bands.classify(69), Biome::Sand);
    assert_eq!(bands.classify(70), Biome::Grass);
    assert_eq!(bands.classify(0), Biome::Water);
    assert_eq!(bands.classify(255), Biome::Grass);
}

#[test]
fn bands_partition_all_heights() {
    let bands = Bands::standard();
    for v in 0..=255u8 {
        let expected = if v < 50 {
            Biome::Water
        } else if v < 70 {
            Biome::Sand
        } else {
            Biome::Grass
        };
        assert_eq!(bands.classify(v), expected);
    }
}

#[test]
fn band_colors() {
    let bands = Bands::standard();
    assert_eq!(bands.color_of(Biome::Water), BLUE);
    assert_eq!(bands.color_of(Biome::Sand), YELLOW);
    assert_eq!(bands.color_of(Biome::Grass), GREEN);
}

#[test]
fn colorize_field() {
    let bands = Bands::standard();
    let field = GrayField::from_cells(3, 1, vec![10, 55, 200]).unwrap();
    let colors = bands.colorize(&field);
    assert_eq!((colors.width, colors.height), (3, 1));
    assert_eq!(colors.pixels, vec![BLUE, YELLOW, GREEN]);
    assert_eq!(colors.get(1, 0), YELLOW);
    assert_eq!(colors.to_rgb_bytes(), vec![0, 0, 255, 255, 255, 0, 0, 255, 0]);
}

#[test]
fn gray_as_rgb_bytes() {
    let field = GrayField::from_cells(2, 1, vec![7, 200]).unwrap();
    assert_eq!(field.to_rgb_bytes(), vec![7, 7, 7, 200, 200, 200]);
}

#[test]
fn whole_map_from_noise() {
    let bands = Bands::standard();
    let noise = GrayField::from_cells(4, 4, vec![200; 16]).unwrap();
    let map = build_biome_map(&noise, 3, &bands).unwrap();
    let falloff = generate_falloff_map(4, 4, 3);
    assert_eq!(map.falloff.cells, falloff.cells);
    for i in 0..16 {
        assert_eq!(map.blended.cells[i], combine_cell(200, falloff.cells[i]));
        assert_eq!(
            map.colors.pixels[i],
            bands.color_of(bands.classify(map.blended.cells[i]))
        );
    }
    // the centre (2, 2) is at full falloff, so it keeps the noise height
    assert_eq!(map.blended.get(2, 2), 200);
    assert_eq!(map.colors.get(2, 2), GREEN);
    // the corner is beyond reach
    assert_eq!(map.colors.get(0, 0), BLUE);
}

