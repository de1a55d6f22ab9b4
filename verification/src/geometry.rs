use vstd::prelude::*;
use vstd::arithmetic::div_mod::{
    lemma_div_pos_is_pos, lemma_fundamental_div_mod, lemma_fundamental_div_mod_converse,
    lemma_mod_bound,
};

verus! {

/// The place of pixel `(x, y)` in a row-major grid that is `width` pixels wide.
pub open spec fn cell(width: int, x: int, y: int) -> int {
    y * width + x
}

/// Whether `(sx, sy)` names a pixel of the grid.
pub open spec fn in_grid(width: int, height: int, sx: int, sy: int) -> bool {
    0 <= sx < width && 0 <= sy < height
}

/// A pixel inside the grid has its place inside the grid's sequence, and the place gives the
/// pixel back.
pub proof fn lemma_cell_in_range(width: int, height: int, x: int, y: int)
    requires
        in_grid(width, height, x, y),
    ensures
        0 <= y * width <= cell(width, x, y) < width * height,
        cell(width, x, y) % width == x,
        cell(width, x, y) / width == y,
{
    assert(y * width + width <= height * width) by (nonlinear_arith)
        requires
            0 <= y < height,
            0 < width,
    ;
    assert(0 <= y * width) by (nonlinear_arith)
        requires
            0 <= y,
            0 < width,
    ;
    assert(height * width == width * height) by (nonlinear_arith);
    lemma_fundamental_div_mod_converse(cell(width, x, y), width, y, x);
}

/// Every place of a grid is the place of one of its pixels: the one in column `i % width` of
/// row `i / width`.
pub proof fn lemma_place_is_pixel(width: int, height: int, i: int)
    requires
        0 < width,
        0 <= i < width * height,
    ensures
        0 <= i % width < width,
        0 <= i / width < height,
        i == (i / width) * width + i % width,
{
    lemma_fundamental_div_mod(i, width);
    lemma_div_pos_is_pos(i, width);
    lemma_mod_bound(i, width);
    let x = i % width;
    let y = i / width;
    assert(width * y == y * width) by (nonlinear_arith);
    assert(y < height) by (nonlinear_arith)
        requires
            y * width + x < width * height,
            0 <= x,
            0 < width,
    ;
}

/// How carefully a pixel is moved: the nearer the centre, the more carefully.
#[derive(Clone, Copy, Debug, PartialEq, Eq, Structural)]
pub enum QualityTier {
    /// Near the centre: moved at full precision.
    High,
    /// Further out: moved with a little less.
    Medium,
    /// Near the rim: moved coarsely.
    Low,
}

/// The radius of the high tier, in tenths of the largest radius.
pub const HIGH_TIER_TENTHS: u32 = 3;

/// The radius of the medium tier, in tenths of the largest radius.
pub const MEDIUM_TIER_TENTHS: u32 = 7;

/// Twice the signed distance of position `p` from the middle of an axis of `extent` pixels.
/// The middle lies at half the extent, so the doubled distance is a whole number.
pub open spec fn offset2(extent: int, p: int) -> int {
    2 * p - extent
}

/// Four times the squared distance of pixel `(x, y)` from the centre of the grid.
pub open spec fn dist4(width: int, height: int, x: int, y: int) -> int {
    offset2(width, x) * offset2(width, x) + offset2(height, y) * offset2(height, y)
}

/// Four times the square of the largest radius: the distance from the centre to the grid's
/// first corner.
pub open spec fn radius4(width: int, height: int) -> int {
    width * width + height * height
}

/// Whether pixel `(x, y)` lies within `tenths` tenths of the largest radius from the centre.
pub open spec fn within_tenths(width: int, height: int, x: int, y: int, tenths: int) -> bool {
    100 * dist4(width, height, x, y) <= tenths * tenths * radius4(width, height)
}

/// The tier of pixel `(x, y)`: high within three tenths of the largest radius, medium within
/// seven tenths, low beyond.
pub open spec fn tier_of(width: int, height: int, x: int, y: int) -> QualityTier {
    if within_tenths(width, height, x, y, HIGH_TIER_TENTHS as int) {
        QualityTier::High
    } else if within_tenths(width, height, x, y, MEDIUM_TIER_TENTHS as int) {
        QualityTier::Medium
    } else {
        QualityTier::Low
    }
}

/// A pixel lies at distance zero from the centre exactly where it sits on the middle of both
/// axes.
pub proof fn lemma_center_is_only_origin(width: int, height: int, x: int, y: int)
    ensures
        dist4(width, height, x, y) == 0 <==> 2 * x == width && 2 * y == height,
        dist4(width, height, x, y) >= 0,
{
    let a = offset2(width, x);
    let b = offset2(height, y);
    assert(a * a >= 0 && (a * a == 0 <==> a == 0)) by (nonlinear_arith);
    assert(b * b >= 0 && (b * b == 0 <==> b == 0)) by (nonlinear_arith);
}

/// No pixel of the grid lies further from the centre than the largest radius, and only the
/// first corner lies that far.
pub proof fn lemma_grid_within_radius(width: int, height: int, x: int, y: int)
    requires
        0 <= x < width,
        0 <= y < height,
    ensures
        dist4(width, height, x, y) <= radius4(width, height),
        dist4(width, height, x, y) == radius4(width, height) <==> x == 0 && y == 0,
{
    let a = offset2(width, x);
    let b = offset2(height, y);
    assert(a * a <= width * width && (a * a == width * width <==> x == 0)) by (nonlinear_arith)
        requires
            a == 2 * x - width,
            0 <= x < width,
    ;
    assert(b * b <= height * height && (b * b == height * height <==> y == 0))
        by (nonlinear_arith)
        requires
            b == 2 * y - height,
            0 <= y < height,
    ;
}

/// Computes four times the squared distance of pixel `(x, y)` from the centre of the grid.
pub fn distance4(width: u32, height: u32, x: u32, y: u32) -> (out: u128)
    ensures
        out == dist4(width as int, height as int, x as int, y as int),
        out <= 0x8_0000_0000_0000_0000,
{
    let a: i128 = 2 * (x as i128) - (width as i128);
    let b: i128 = 2 * (y as i128) - (height as i128);
    assert(0 <= a * a <= 0x4_0000_0000_0000_0000) by (nonlinear_arith)
        requires
            -0x1_0000_0000 <= a <= 0x2_0000_0000,
    ;
    assert(0 <= b * b <= 0x4_0000_0000_0000_0000) by (nonlinear_arith)
        requires
            -0x1_0000_0000 <= b <= 0x2_0000_0000,
    ;
    (a * a + b * b) as u128
}

/// Tells whether pixel `(x, y)` is the centre of the grid. A grid with an odd side has no such
/// pixel: its centre falls between two.
pub fn is_center(width: u32, height: u32, x: u32, y: u32) -> (out: bool)
    ensures
        out == (2 * x == width && 2 * y == height),
        out == (dist4(width as int, height as int, x as int, y as int) == 0),
{
    proof {
        lemma_center_is_only_origin(width as int, height as int, x as int, y as int);
    }
    distance4(width, height, x, y) == 0
}

/// Tells the tier of pixel `(x, y)`.
pub fn quality_tier(width: u32, height: u32, x: u32, y: u32) -> (out: QualityTier)
    ensures
        out == tier_of(width as int, height as int, x as int, y as int),
{
    let w: u128 = width as u128;
    let h: u128 = height as u128;
    assert(w * w <= 0x1_0000_0000_0000_0000) by (nonlinear_arith)
        requires
            w <= 0xffff_ffff,
    ;
    assert(h * h <= 0x1_0000_0000_0000_0000) by (nonlinear_arith)
        requires
            h <= 0xffff_ffff,
    ;
    let reach: u128 = w * w + h * h;
    let far: u128 = 100 * distance4(width, height, x, y);
    let high: u128 = (HIGH_TIER_TENTHS as u128) * (HIGH_TIER_TENTHS as u128);
    let medium: u128 = (MEDIUM_TIER_TENTHS as u128) * (MEDIUM_TIER_TENTHS as u128);
    assert(high * reach == 9 * reach && medium * reach == 49 * reach) by (nonlinear_arith)
        requires
            high == 9,
            medium == 49,
    ;
    if far <= high * reach {
        QualityTier::High
    } else if far <= medium * reach {
        QualityTier::Medium
    } else {
        QualityTier::Low
    }
}

/// The tier of every pixel of the grid, row by row.
pub open spec fn tier_table(width: int, height: int) -> Seq<QualityTier> {
    Seq::new((width * height) as nat, |i: int| tier_of(width, height, i % width, i / width))
}

/// In the table of tiers, each pixel finds its own tier at its place.
pub proof fn lemma_tier_table_pixel(width: int, height: int, x: int, y: int)
    requires
        in_grid(width, height, x, y),
    ensures
        tier_table(width, height).len() == width * height,
        tier_table(width, height)[cell(width, x, y)] == tier_of(width, height, x, y),
{
    lemma_cell_in_range(width, height, x, y);
}

/// Works out the tier of every pixel of the grid, once and for all.
pub fn build_tier_table(width: u32, height: u32) -> (out: Vec<QualityTier>)
    requires
        width * height <= usize::MAX,
    ensures
        out@ == tier_table(width as int, height as int),
{
    let mut out: Vec<QualityTier> = Vec::new();
    let mut y: u32 = 0;
    while y < height
        invariant
            y <= height,
            out@.len() == y * width,
            forall|k: int|
                0 <= k < out@.len() ==> out@[k] == tier_of(
                    width as int,
                    height as int,
                    k % width as int,
                    k / width as int,
                ),
        decreases height - y,
    {
        let mut x: u32 = 0;
        while x < width
            invariant
                x <= width,
                y < height,
                out@.len() == y * width + x,
                forall|k: int|
                    0 <= k < out@.len() ==> out@[k] == tier_of(
                        width as int,
                        height as int,
                        k % width as int,
                        k / width as int,
                    ),
            decreases width - x,
        {
            proof {
                lemma_cell_in_range(width as int, height as int, x as int, y as int);
            }
            out.push(quality_tier(width, height, x, y));
            x += 1;
        }
        proof {
            assert((y + 1) * width == y * width + width) by (nonlinear_arith);
        }
        y += 1;
    }
    proof {
        assert(height * width == width * height) by (nonlinear_arith);
        assert(out@ =~= tier_table(width as int, height as int));
    }
    out
}

} // verus!
