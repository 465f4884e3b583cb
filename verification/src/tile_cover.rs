use vstd::prelude::*;
use crate::tiles::TileKey;

verus! {

/// `x` brought into `lo..=hi`.
pub open spec fn clamp_int(x: int, lo: int, hi: int) -> int {
    if x < lo {
        lo
    } else if x > hi {
        hi
    } else {
        x
    }
}

/// The number of tiles from columns `x_min..=x_max` and rows `y_min..=y_max`, none for
/// an empty range, saturating.
pub open spec fn span_count(x_min: int, x_max: int, y_min: int, y_max: int) -> int {
    let w = if x_max - x_min + 1 > 0 { x_max - x_min + 1 } else { 0 };
    let h = if y_max - y_min + 1 > 0 { y_max - y_min + 1 } else { 0 };
    if w * h > usize::MAX {
        usize::MAX as int
    } else {
        w * h
    }
}

/// How many tiles a view spans whose corner tiles are at columns `x_min`, `x_max` and
/// rows `y_min`, `y_max`.
pub fn tile_span_count(x_min: i64, x_max: i64, y_min: i64, y_max: i64) -> (n: usize)
    requires
        i64::MIN <= x_max - x_min,
        x_max - x_min + 1 <= i64::MAX,
        i64::MIN <= y_max - y_min,
        y_max - y_min + 1 <= i64::MAX,
    ensures
        n == span_count(x_min as int, x_max as int, y_min as int, y_max as int),
{
    let dw = x_max - x_min + 1;
    let dh = y_max - y_min + 1;
    let w: u64 = if dw > 0 { dw as u64 } else { 0 };
    let h: u64 = if dh > 0 { dh as u64 } else { 0 };
    let limit = usize::MAX as u64;
    if h != 0 && w > limit / h {
        assert(w * h > limit) by (nonlinear_arith)
            requires
                h > 0,
                w > limit / h,
        ;
        usize::MAX
    } else {
        assert(w * h <= limit) by (nonlinear_arith)
            requires
                h == 0 || w <= limit / h,
        ;
        (w * h) as usize
    }
}

/// The zoom chosen from the first `i` counts: the zoom of the last of them that spans at
/// most twelve tiles (`counts[j]` is the count at zoom `12 + j`), or 12 when none does.
pub open spec fn zoom_after(counts: Seq<usize>, i: int) -> int
    decreases i,
{
    if i <= 0 {
        12
    } else if counts[i - 1] <= 12 {
        12 + i - 1
    } else {
        zoom_after(counts, i - 1)
    }
}

/// The zoom to draw tiles at, given how many tiles the view spans at each zoom from 12
/// to 16 (`counts[i]` at zoom `12 + i`): the highest at which it spans at most twelve,
/// or 12 when none does.
pub fn choose_tile_zoom(counts: &[usize; 5]) -> (zoom: u8)
    ensures
        zoom == zoom_after(counts@, 5),
{
    let mut chosen: u8 = 12;
    let mut i: usize = 0;
    while i < 5
        invariant
            i <= 5,
            counts@.len() == 5,
            chosen == zoom_after(counts@, i as int),
        decreases 5 - i,
    {
        if counts[i] <= 12 {
            chosen = 12 + i as u8;
        }
        i = i + 1;
    }
    chosen
}

/// The tile at position `k` of the rectangle whose first tile is at column `xs` and row
/// `ys`, `h` rows tall, listed column by column.
pub open spec fn rect_tile(z: u8, xs: int, ys: int, h: int, k: int) -> TileKey {
    TileKey { z, x: (xs + k / h) as u32, y: (ys + k % h) as u32 }
}

/// The tiles at zoom `zoom` from columns `x_min..=x_max` and rows `y_min..=y_max`, each
/// bound brought onto the map first, listed column by column and down each column.
pub fn tiles_in_range(zoom: u8, x_min: i64, x_max: i64, y_min: i64, y_max: i64) -> (tiles: Vec<
    TileKey,
>)
    requires
        zoom < 32,
        ({
            let m = vstd::arithmetic::power2::pow2(zoom as nat) - 1;
            let xs = clamp_int(x_min as int, 0, m);
            let xe = clamp_int(x_max as int, 0, m);
            let ys = clamp_int(y_min as int, 0, m);
            let ye = clamp_int(y_max as int, 0, m);
            xs <= xe && ys <= ye ==> (xe - xs + 1) * (ye - ys + 1) <= usize::MAX
        }),
    ensures
        ({
            let m = vstd::arithmetic::power2::pow2(zoom as nat) - 1;
            let xs = clamp_int(x_min as int, 0, m);
            let xe = clamp_int(x_max as int, 0, m);
            let ys = clamp_int(y_min as int, 0, m);
            let ye = clamp_int(y_max as int, 0, m);
            if xs <= xe && ys <= ye {
                &&& tiles@.len() == (xe - xs + 1) * (ye - ys + 1)
                &&& forall|k: int|
                    0 <= k < tiles@.len() ==> #[trigger] tiles@[k] == rect_tile(
                        zoom,
                        xs,
                        ys,
                        ye - ys + 1,
                        k,
                    )
            } else {
                tiles@.len() == 0
            }
        }),
{
    let shift = zoom as u64;
    proof {
        vstd::bits::lemma_u32_pow2_no_overflow(zoom as nat);
        vstd::bits::lemma_u64_pow2_no_overflow(zoom as nat);
        vstd::bits::lemma_u64_shl_is_mul(1, shift);
    }
    let max_index: i64 = ((1u64 << shift) - 1) as i64;
    let xs = clamp_i64(x_min, 0, max_index);
    let xe = clamp_i64(x_max, 0, max_index);
    let ys = clamp_i64(y_min, 0, max_index);
    let ye = clamp_i64(y_max, 0, max_index);
    let mut tiles: Vec<TileKey> = Vec::new();
    if xs > xe || ys > ye {
        return tiles;
    }
    let ghost h = ye - ys + 1;
    let mut x = xs;
    while x <= xe
        invariant
            xs <= x <= xe + 1,
            0 <= xs <= xe <= max_index,
            0 <= ys <= ye <= max_index,
            max_index < 0x1_0000_0000,
            h == ye - ys + 1,
            (xe - xs + 1) * h <= usize::MAX,
            tiles@.len() == (x - xs) * h,
            forall|k: int|
                0 <= k < tiles@.len() ==> #[trigger] tiles@[k] == rect_tile(zoom, xs as int, ys as int, h, k),
        decreases xe - x + 1,
    {
        let mut y = ys;
        while y <= ye
            invariant
                xs <= x <= xe,
                ys <= y <= ye + 1,
                0 <= xs <= xe <= max_index,
                0 <= ys <= ye <= max_index,
                max_index < 0x1_0000_0000,
                h == ye - ys + 1,
                (xe - xs + 1) * h <= usize::MAX,
                tiles@.len() == (x - xs) * h + (y - ys),
                forall|k: int|
                    0 <= k < tiles@.len() ==> #[trigger] tiles@[k] == rect_tile(
                        zoom,
                        xs as int,
                        ys as int,
                        h,
                        k,
                    ),
            decreases ye - y + 1,
        {
            proof {
                let k = (x - xs) * h + (y - ys);
                assert(k < (xe - xs + 1) * h) by (nonlinear_arith)
                    requires
                        k == (x - xs) * h + (y - ys),
                        y - ys < h,
                        0 <= y - ys,
                        xs <= x <= xe,
                        h > 0,
                ;
                vstd::arithmetic::div_mod::lemma_fundamental_div_mod_converse(
                    k,
                    h,
                    (x - xs) as int,
                    (y - ys) as int,
                );
            }
            tiles.push(TileKey { z: zoom, x: x as u32, y: y as u32 });
            y = y + 1;
        }
        proof {
            assert((x - xs) * h + h == (x + 1 - xs) * h) by (nonlinear_arith);
        }
        x = x + 1;
    }
    tiles
}

fn clamp_i64(x: i64, lo: i64, hi: i64) -> (r: i64)
    requires
        lo <= hi,
    ensures
        r == clamp_int(x as int, lo as int, hi as int),
{
    if x < lo {
        lo
    } else if x > hi {
        hi
    } else {
        x
    }
}

} // verus!
