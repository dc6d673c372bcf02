//! The radial falloff field: full intensity at the centre of the grid,
//! fading linearly with the distance from it and clamped at zero.
//!
//! Past `max_distance` the linear ramp goes negative. Those cells hold 0, as a
//! saturating conversion to a byte gives, and never a wrapped-around value.
//! All of it is exact integer arithmetic: the distance is compared squared.
use vstd::prelude::*;
use crate::field::{GrayField, cell_index, lemma_cell_index};

verus! {

/// Four times the squared Euclidean distance from cell `(x, y)` to the grid's
/// centre `(width / 2, height / 2)`; the factor four keeps it an integer when a
/// dimension is odd.
pub open spec fn dist4(width: int, height: int, x: int, y: int) -> int {
    (width - 2 * x) * (width - 2 * x) + (height - 2 * y) * (height - 2 * y)
}

/// Whether `255 * d / max_distance <= k`, where `d = sqrt(d4) / 2` is the distance
/// to the centre; written without roots or division, both sides squared.
pub open spec fn within(k: int, d4: int, max_distance: int) -> bool {
    max_distance > 0 && 0 <= k && 65025 * d4 <= 4 * (k * k) * (max_distance * max_distance)
}

/// The least `j` in `k .. 255` for which `within(j, ..)` holds, or 255 if none does.
pub open spec fn drop_from(k: int, d4: int, max_distance: int) -> int
    decreases 255 - k,
{
    if k >= 255 {
        255
    } else if within(k, d4, max_distance) {
        k
    } else {
        drop_from(k + 1, d4, max_distance)
    }
}

/// `255 * (1 - d / max_distance)` truncated to an integer, and 0 where it is
/// below 1: the truncation takes off the fraction of the drop `255 * d / max_distance`
/// rounded up. Zero everywhere when `max_distance` is zero.
pub open spec fn falloff_level(d4: int, max_distance: int) -> int {
    255 - drop_from(0, d4, max_distance)
}

/// The falloff intensity of cell `(x, y)` in a `width` x `height` grid.
pub open spec fn falloff_at(width: int, height: int, max_distance: int, x: int, y: int) -> int {
    falloff_level(dist4(width, height, x, y), max_distance)
}

proof fn lemma_drop_range(k: int, d4: int, max_distance: int)
    requires
        0 <= k <= 255,
    ensures
        k <= drop_from(k, d4, max_distance) <= 255,
    decreases 255 - k,
{
    if k < 255 && !within(k, d4, max_distance) {
        lemma_drop_range(k + 1, d4, max_distance);
    }
}

/// The falloff intensity of cell `(x, y)` in a `width` x `height` grid whose
/// intensity reaches zero at `max_distance` cells from the centre.
pub fn falloff_value(width: u32, height: u32, max_distance: u32, x: u32, y: u32) -> (r: u8)
    ensures
        r as int == falloff_at(width as int, height as int, max_distance as int, x as int, y as int),
{
    let ghost d4s = dist4(width as int, height as int, x as int, y as int);
    if max_distance == 0 {
        proof {
            lemma_all_out(0, d4s, 0);
        }
        return 0;
    }
    let dx: i128 = width as i128 - 2 * (x as i128);
    let dy: i128 = height as i128 - 2 * (y as i128);
    assert(dx * dx <= 0x1_0000_0000 * 0x1_0000_0000 * 4) by (nonlinear_arith)
        requires
            -0x2_0000_0000 <= dx <= 0x2_0000_0000,
    ;
    assert(dy * dy <= 0x1_0000_0000 * 0x1_0000_0000 * 4) by (nonlinear_arith)
        requires
            -0x2_0000_0000 <= dy <= 0x2_0000_0000,
    ;
    assert(0 <= dx * dx && 0 <= dy * dy) by (nonlinear_arith);
    let d4: u128 = (dx * dx + dy * dy) as u128;
    let lhs: u128 = 65025 * d4;
    let m: u128 = max_distance as u128;
    assert(m * m <= 0x1_0000_0000 * 0x1_0000_0000) by (nonlinear_arith)
        requires
            m < 0x1_0000_0000,
    ;
    let mm: u128 = m * m;
    let mut k: u128 = 0;
    while k < 255
        invariant
            k <= 255,
            d4 == d4s,
            d4s == dist4(width as int, height as int, x as int, y as int),
            lhs == 65025 * d4,
            mm == m * m,
            m == max_distance,
            max_distance > 0,
            mm <= 0x1_0000_0000 * 0x1_0000_0000,
            drop_from(0, d4s, max_distance as int) == drop_from(k as int, d4s, max_distance as int),
        decreases 255 - k,
    {
        assert(k * k <= 65025) by (nonlinear_arith)
            requires
                k < 255,
        ;
        let kk: u128 = 4 * (k * k);
        assert(kk * mm <= 260100 * (0x1_0000_0000 * 0x1_0000_0000)) by (nonlinear_arith)
            requires
                kk <= 260100,
                mm <= 0x1_0000_0000 * 0x1_0000_0000,
        ;
        if kk * mm >= lhs {
            assert(within(k as int, d4s, max_distance as int));
            assert(drop_from(k as int, d4s, max_distance as int) == k);
            return (255 - k) as u8;
        }
        k += 1;
    }
    0
}

/// The `width` x `height` falloff field: each cell holds its `falloff_value`.
pub fn generate_falloff_map(width: u32, height: u32, max_distance: u32) -> (r: GrayField)
    requires
        width * height <= usize::MAX,
    ensures
        r.wf(),
        r.width == width,
        r.height == height,
        forall|x: int, y: int|
            0 <= x < width && 0 <= y < height ==> #[trigger] r.at(x, y) as int == falloff_at(
                width as int,
                height as int,
                max_distance as int,
                x,
                y,
            ),
{
    let w: usize = width as usize;
    let h: usize = height as usize;
    let n: usize = w * h;
    let mut cells: Vec<u8> = Vec::with_capacity(n);
    let mut i: usize = 0;
    while i < n
        invariant
            n == w * h,
            w == width,
            h == height,
            i <= n,
            cells@.len() == i,
            forall|j: int|
                0 <= j < i ==> #[trigger] cells@[j] as int == falloff_at(
                    w as int,
                    h as int,
                    max_distance as int,
                    j % (w as int),
                    j / (w as int),
                ),
        decreases n - i,
    {
        assert(w > 0) by (nonlinear_arith)
            requires
                i < n,
                n == w * h,
        ;
        let x: usize = i % w;
        let y: usize = i / w;
        assert(y < h) by (nonlinear_arith)
            requires
                y == i / w,
                i < w * h,
                w > 0,
        ;
        let v = falloff_value(width, height, max_distance, x as u32, y as u32);
        cells.push(v);
        i += 1;
    }
    let r = GrayField { width: w, height: h, cells };
    assert forall|x: int, y: int| 0 <= x < width && 0 <= y < height implies #[trigger] r.at(x, y)
        as int == falloff_at(width as int, height as int, max_distance as int, x, y) by {
        lemma_cell_index(w as int, h as int, x, y);
        let j = cell_index(w as int, x, y);
        assert(r.cells@[j] as int == falloff_at(
            w as int,
            h as int,
            max_distance as int,
            j % (w as int),
            j / (w as int),
        ));
    }
    r
}

/// Every falloff intensity is a byte value: the linear ramp is clamped at zero
/// beyond `max_distance` and never exceeds 255 at the centre.
pub proof fn lemma_falloff_in_byte_range(d4: int, max_distance: int)
    ensures
        0 <= falloff_level(d4, max_distance) <= 255,
{
    lemma_drop_range(0, d4, max_distance);
}

/// The falloff depends on the distance to the centre alone: two cells at the
/// same distance have the same intensity.
pub proof fn lemma_falloff_radial(
    width: int,
    height: int,
    max_distance: int,
    x1: int,
    y1: int,
    x2: int,
    y2: int,
)
    requires
        dist4(width, height, x1, y1) == dist4(width, height, x2, y2),
    ensures
        falloff_at(width, height, max_distance, x1, y1) == falloff_at(
            width,
            height,
            max_distance,
            x2,
            y2,
        ),
{
}

/// The falloff field is symmetric about the centre lines: the cell at offset
/// `(dx, dy)` from the centre has the intensity of those at `(dx, -dy)` and
/// `(-dx, dy)`. The mirror of column `x` is `width - x`, of row `y` is `height - y`.
pub proof fn lemma_falloff_mirror(width: int, height: int, max_distance: int, x: int, y: int)
    ensures
        falloff_at(width, height, max_distance, x, y) == falloff_at(
            width,
            height,
            max_distance,
            x,
            height - y,
        ),
        falloff_at(width, height, max_distance, x, y) == falloff_at(
            width,
            height,
            max_distance,
            width - x,
            y,
        ),
{
    assert((width - 2 * (width - x)) * (width - 2 * (width - x)) == (width - 2 * x) * (width - 2
        * x)) by (nonlinear_arith);
    assert((height - 2 * (height - y)) * (height - 2 * (height - y)) == (height - 2 * y) * (height
        - 2 * y)) by (nonlinear_arith);
}

/// At the centre itself the falloff is at full intensity, whenever
/// `max_distance` is positive.
pub proof fn lemma_falloff_peak(max_distance: int)
    requires
        max_distance > 0,
    ensures
        falloff_level(0, max_distance) == 255,
{
    assert(within(0, 0, max_distance));
}

/// Beyond `max_distance` from the centre the falloff is clamped at zero.
pub proof fn lemma_falloff_clamped(d4: int, max_distance: int)
    requires
        4 * (max_distance * max_distance) < d4,
    ensures
        falloff_level(d4, max_distance) == 0,
{
    lemma_none_within(0, d4, max_distance);
}

proof fn lemma_none_within(k: int, d4: int, max_distance: int)
    requires
        0 <= k <= 255,
        4 * (max_distance * max_distance) < d4,
    ensures
        drop_from(k, d4, max_distance) == 255,
    decreases 255 - k,
{
    if k < 255 {
        assert(!within(k, d4, max_distance)) by {
            if max_distance > 0 {
                assert(4 * (k * k) * (max_distance * max_distance) <= 65025 * (4 * (max_distance
                    * max_distance))) by (nonlinear_arith)
                    requires
                        0 <= k < 255,
                ;
                assert(65025 * (4 * (max_distance * max_distance)) < 65025 * d4);
            }
        }
        lemma_none_within(k + 1, d4, max_distance);
    }
}

proof fn lemma_all_out(k: int, d4: int, max_distance: int)
    requires
        max_distance == 0,
    ensures
        drop_from(k, d4, max_distance) == 255,
    decreases 255 - k,
{
    if k < 255 {
        lemma_all_out(k + 1, d4, max_distance);
    }
}

} // verus!
