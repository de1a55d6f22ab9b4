use vstd::prelude::*;
use crate::geometry::{
    cell, in_grid, lemma_cell_in_range, tier_of, tier_table, QualityTier,
};

verus! {

/// The level found at `(sx, sy)`: the grid's own where the place lies inside it, `zero` elsewhere.
pub open spec fn sample<T>(levels: Seq<T>, width: int, height: int, zero: T, sx: int, sy: int) -> T {
    if in_grid(width, height, sx, sy) {
        levels[cell(width, sx, sy)]
    } else {
        zero
    }
}

/// The grid moved as a whole by `(move_x, move_y)`: each pixel takes the level that lay that far
/// behind it, and `zero` where nothing lay there.
pub open spec fn shifted<T>(
    levels: Seq<T>,
    width: int,
    height: int,
    zero: T,
    move_x: int,
    move_y: int,
) -> Seq<T> {
    Seq::new(
        (width * height) as nat,
        |i: int| sample(levels, width, height, zero, i % width - move_x, i / width - move_y),
    )
}

/// Which coordinates of a pixel's source may differ from the pixel's own.
#[derive(Clone, Copy, Debug, PartialEq, Eq, Structural)]
pub enum Freedom {
    /// The source may lie anywhere.
    Both,
    /// The source lies in the pixel's own row: only its column is taken.
    AlongRow,
    /// The source lies in the pixel's own column: only its row is taken.
    AlongColumn,
}

/// The level that pixel `(x, y)` takes when its source is `from`: its own where there is none,
/// else the one sampled at the source, of which `freedom` says which coordinates count.
pub open spec fn placed<T>(
    levels: Seq<T>,
    width: int,
    height: int,
    zero: T,
    freedom: Freedom,
    x: int,
    y: int,
    from: Option<(i32, i32)>,
) -> T {
    match from {
        None => levels[cell(width, x, y)],
        Some(p) => match freedom {
            Freedom::Both => sample(levels, width, height, zero, p.0 as int, p.1 as int),
            Freedom::AlongRow => sample(levels, width, height, zero, p.0 as int, y),
            Freedom::AlongColumn => sample(levels, width, height, zero, x, p.1 as int),
        },
    }
}

/// The tier that a pixel's source is asked with. A pixel that slides along its row is judged
/// by the middle of that row, so that a row moves as one; any other pixel is judged where it
/// lies.
pub open spec fn tier_seen(freedom: Freedom, width: int, height: int, x: int, y: int) -> QualityTier {
    match freedom {
        Freedom::AlongRow => tier_of(width, height, width / 2, y),
        _ => tier_of(width, height, x, y),
    }
}

/// Pixel `(x, y)` of `out` holds what one of the sources that `source` may give for it, asked
/// with the pixel's tier, places there.
pub open spec fn placed_by<T, S: Fn(u32, u32, QualityTier) -> Option<(i32, i32)>>(
    source: S,
    levels: Seq<T>,
    width: int,
    height: int,
    zero: T,
    freedom: Freedom,
    out: Seq<T>,
    x: u32,
    y: u32,
) -> bool {
    exists|from: Option<(i32, i32)>| #[trigger]
        source.ensures((x, y, tier_seen(freedom, width, height, x as int, y as int)), from)
            && out[cell(width, x as int, y as int)] == placed(
            levels,
            width,
            height,
            zero,
            freedom,
            x as int,
            y as int,
            from,
        )
}

/// `out` is the grid in which every pixel holds what `source` places there.
pub open spec fn remapped_by<T, S: Fn(u32, u32, QualityTier) -> Option<(i32, i32)>>(
    source: S,
    levels: Seq<T>,
    width: int,
    height: int,
    zero: T,
    freedom: Freedom,
    out: Seq<T>,
) -> bool {
    &&& out.len() == width * height
    &&& forall|x: u32, y: u32|
        x < width && y < height ==> #[trigger] placed_by(
            source,
            levels,
            width,
            height,
            zero,
            freedom,
            out,
            x,
            y,
        )
}

/// Whether `source` can be asked about every pixel of the grid, with every tier.
pub open spec fn covers<S: Fn(u32, u32, QualityTier) -> Option<(i32, i32)>>(
    source: S,
    width: int,
    height: int,
) -> bool {
    forall|x: u32, y: u32, tier: QualityTier|
        x < width && y < height ==> #[trigger] source.requires((x, y, tier))
}

/// Reads the level at `(sx, sy)`, or `zero` where that place lies outside the grid.
pub fn fetch<T: Copy>(levels: &Vec<T>, width: u32, height: u32, zero: T, sx: i32, sy: i32) -> (out: T)
    requires
        levels@.len() == width * height,
    ensures
        out == sample(levels@, width as int, height as int, zero, sx as int, sy as int),
{
    if sx >= 0 && sy >= 0 && (sx as u32) < width && (sy as u32) < height {
        proof {
            lemma_cell_in_range(width as int, height as int, sx as int, sy as int);
            assert(levels@.len() == levels.len());
        }
        levels[(sy as usize) * (width as usize) + (sx as usize)]
    } else {
        zero
    }
}

/// A grid of `count` pixels that all hold `zero`.
pub open spec fn blank<T>(zero: T, count: int) -> Seq<T> {
    Seq::new(count as nat, |i: int| zero)
}

/// Makes a grid of `count` pixels that all hold `zero`.
pub fn filled<T: Copy>(zero: T, count: usize) -> (out: Vec<T>)
    ensures
        out@ == blank(zero, count as int),
{
    let mut out: Vec<T> = Vec::new();
    let mut i: usize = 0;
    while i < count
        invariant
            i <= count,
            out@.len() == i,
            forall|k: int| 0 <= k < i ==> out@[k] == zero,
        decreases count - i,
    {
        out.push(zero);
        i += 1;
    }
    assert(out@ =~= blank(zero, count as int));
    out
}

/// Moves the whole grid by `(move_x, move_y)` pixels. A row whose source row lies outside the
/// grid is passed over as a whole and stays at `zero`.
pub fn shift<T: Copy>(
    levels: &Vec<T>,
    width: u32,
    height: u32,
    zero: T,
    move_x: i32,
    move_y: i32,
) -> (out: Vec<T>)
    requires
        levels@.len() == width * height,
    ensures
        out@ == shifted(
            levels@,
            width as int,
            height as int,
            zero,
            move_x as int,
            move_y as int,
        ),
{
    let count: usize = levels.len();
    let mut out: Vec<T> = filled(zero, count);
    let ghost goal = shifted(
        levels@,
        width as int,
        height as int,
        zero,
        move_x as int,
        move_y as int,
    );
    let mut y: u32 = 0;
    while y < height
        invariant
            y <= height,
            count == width * height,
            levels@.len() == count,
            out@.len() == count,
            goal == shifted(
                levels@,
                width as int,
                height as int,
                zero,
                move_x as int,
                move_y as int,
            ),
            0 <= y * width <= count,
            forall|k: int| 0 <= k < y * width ==> out@[k] == goal[k],
            forall|k: int| y * width <= k < count ==> out@[k] == zero,
        decreases height - y,
    {
        let source_y: i64 = y as i64 - move_y as i64;
        proof {
            assert(y * width + width <= height * width) by (nonlinear_arith)
                requires
                    0 <= y < height,
                    0 <= width,
            ;
            assert(height * width == width * height) by (nonlinear_arith);
            assert(0 <= y * width) by (nonlinear_arith)
                requires
                    0 <= y,
                    0 <= width,
            ;
            assert((y + 1) * width == y * width + width) by (nonlinear_arith);
        }
        let row_base: usize = (y as usize) * (width as usize);
        if source_y < 0 || source_y >= height as i64 {
            proof {
                assert forall|k: int| row_base <= k < row_base + width implies out@[k] == goal[k] by {
                    let x = k - row_base;
                    lemma_cell_in_range(width as int, height as int, x, y as int);
                }
            }
        } else {
            let mut x: u32 = 0;
            while x < width
                invariant
                    x <= width,
                    y < height,
                    count == width * height,
                    levels@.len() == count,
                    out@.len() == count,
                    row_base == y * width,
                    row_base + width <= count,
                    0 <= source_y < height,
                    source_y == y - move_y,
                    goal == shifted(
                        levels@,
                        width as int,
                        height as int,
                        zero,
                        move_x as int,
                        move_y as int,
                    ),
                    forall|k: int| 0 <= k < row_base + x ==> out@[k] == goal[k],
                    forall|k: int| row_base + x <= k < count ==> out@[k] == zero,
                decreases width - x,
            {
                let source_x: i64 = x as i64 - move_x as i64;
                proof {
                    lemma_cell_in_range(width as int, height as int, x as int, y as int);
                }
                if source_x >= 0 && source_x < width as i64 {
                    proof {
                        lemma_cell_in_range(
                            width as int,
                            height as int,
                            source_x as int,
                            source_y as int,
                        );
                    }
                    let level: T = levels[(source_y as usize) * (width as usize) + (
                    source_x as usize)];
                    out.set(row_base + x as usize, level);
                }
                x += 1;
            }
        }
        y += 1;
    }
    proof {
        assert(height * width == width * height) by (nonlinear_arith);
        assert(out@ =~= goal);
    }
    out
}

/// Reads the level that pixel `(x, y)` takes from the source `from`.
pub fn place<T: Copy>(
    levels: &Vec<T>,
    width: u32,
    height: u32,
    zero: T,
    freedom: Freedom,
    x: u32,
    y: u32,
    from: Option<(i32, i32)>,
) -> (out: T)
    requires
        levels@.len() == width * height,
        x < width,
        y < height,
    ensures
        out == placed(
            levels@,
            width as int,
            height as int,
            zero,
            freedom,
            x as int,
            y as int,
            from,
        ),
{
    proof {
        lemma_cell_in_range(width as int, height as int, x as int, y as int);
        assert(levels@.len() == levels.len());
    }
    match from {
        None => levels[(y as usize) * (width as usize) + (x as usize)],
        Some(p) => match freedom {
            Freedom::Both => fetch(levels, width, height, zero, p.0, p.1),
            Freedom::AlongRow => {
                if p.0 >= 0 && (p.0 as u32) < width {
                    proof {
                        lemma_cell_in_range(width as int, height as int, p.0 as int, y as int);
                    }
                    levels[(y as usize) * (width as usize) + (p.0 as usize)]
                } else {
                    zero
                }
            },
            Freedom::AlongColumn => {
                if p.1 >= 0 && (p.1 as u32) < height {
                    proof {
                        lemma_cell_in_range(width as int, height as int, x as int, p.1 as int);
                    }
                    levels[(p.1 as usize) * (width as usize) + (x as usize)]
                } else {
                    zero
                }
            },
        },
    }
}

/// `source`, asked about the pixel at place `k` of the grid with that pixel's tier, may give
/// `from`.
pub open spec fn asked<S: Fn(u32, u32, QualityTier) -> Option<(i32, i32)>>(
    source: S,
    width: int,
    height: int,
    freedom: Freedom,
    k: int,
    from: Option<(i32, i32)>,
) -> bool {
    source.ensures(
        ((k % width) as u32, (k / width) as u32, tier_seen(freedom, width, height, k % width, k / width)),
        from,
    )
}

/// Builds the grid in which every pixel holds the level that `source` places there. `source`
/// is asked once for each pixel, row by row, with the pixel's place and the tier that the
/// table `tiers` holds for it.
pub fn remap<T: Copy, S: Fn(u32, u32, QualityTier) -> Option<(i32, i32)>>(
    levels: &Vec<T>,
    tiers: &Vec<QualityTier>,
    width: u32,
    height: u32,
    zero: T,
    freedom: Freedom,
    source: S,
) -> (out: Vec<T>)
    requires
        levels@.len() == width * height,
        tiers@ == tier_table(width as int, height as int),
        covers(source, width as int, height as int),
    ensures
        remapped_by(source, levels@, width as int, height as int, zero, freedom, out@),
{
    let mut out: Vec<T> = Vec::new();
    if width == 0 {
        assert(width * height == 0) by (nonlinear_arith)
            requires
                width == 0,
        ;
        return out;
    }
    let ghost mut froms: Seq<Option<(i32, i32)>> = Seq::empty();
    let mut y: u32 = 0;
    while y < height
        invariant
            y <= height,
            0 < width,
            levels@.len() == width * height,
            tiers@ == tier_table(width as int, height as int),
            covers(source, width as int, height as int),
            out@.len() == y * width,
            froms.len() == out@.len(),
            forall|k: int|
                0 <= k < out@.len() ==> #[trigger] asked(
                    source,
                    width as int,
                    height as int,
                    freedom,
                    k,
                    froms[k],
                ),
            forall|k: int|
                0 <= k < out@.len() ==> #[trigger] out@[k] == placed(
                    levels@,
                    width as int,
                    height as int,
                    zero,
                    freedom,
                    k % width as int,
                    k / width as int,
                    froms[k],
                ),
        decreases height - y,
    {
        proof {
            lemma_cell_in_range(width as int, height as int, width as int / 2, y as int);
            assert(levels@.len() == levels.len());
        }
        let row_tier: QualityTier = tiers[(y as usize) * (width as usize) + (width as usize) / 2];
        let mut x: u32 = 0;
        while x < width
            invariant
                x <= width,
                y < height,
                0 < width,
                levels@.len() == width * height,
                tiers@ == tier_table(width as int, height as int),
                covers(source, width as int, height as int),
                row_tier == tier_of(width as int, height as int, width as int / 2, y as int),
                out@.len() == y * width + x,
                froms.len() == out@.len(),
                forall|k: int|
                    0 <= k < out@.len() ==> #[trigger] asked(
                        source,
                        width as int,
                        height as int,
                        freedom,
                        k,
                        froms[k],
                    ),
                forall|k: int|
                    0 <= k < out@.len() ==> #[trigger] out@[k] == placed(
                        levels@,
                        width as int,
                        height as int,
                        zero,
                        freedom,
                        k % width as int,
                        k / width as int,
                        froms[k],
                    ),
            decreases width - x,
        {
            proof {
                lemma_cell_in_range(width as int, height as int, x as int, y as int);
                assert(levels@.len() == levels.len());
            }
            let tier: QualityTier = match freedom {
                Freedom::AlongRow => row_tier,
                _ => tiers[(y as usize) * (width as usize) + (x as usize)],
            };
            let from: Option<(i32, i32)> = source(x, y, tier);
            let level: T = place(levels, width, height, zero, freedom, x, y, from);
            proof {
                froms = froms.push(from);
            }
            out.push(level);
            x += 1;
        }
        proof {
            assert((y + 1) * width == y * width + width) by (nonlinear_arith);
        }
        y += 1;
    }
    proof {
        assert(height * width == width * height) by (nonlinear_arith);
        assert forall|x: u32, y: u32| x < width && y < height implies #[trigger] placed_by(
            source,
            levels@,
            width as int,
            height as int,
            zero,
            freedom,
            out@,
            x,
            y,
        ) by {
            lemma_cell_in_range(width as int, height as int, x as int, y as int);
            let k = cell(width as int, x as int, y as int);
            assert(asked(source, width as int, height as int, freedom, k, froms[k]));
            assert(out@[k] == placed(
                levels@,
                width as int,
                height as int,
                zero,
                freedom,
                k % width as int,
                k / width as int,
                froms[k],
            ));
        }
    }
    out
}

} // verus!
