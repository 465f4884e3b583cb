use vstd::prelude::*;

verus! {

/// A map tile: zoom level and column and row at that zoom.
#[derive(Debug, Clone, Copy, PartialEq, Eq, Hash, Structural)]
pub struct TileKey {
    pub z: u8,
    pub x: u32,
    pub y: u32,
}

/// The zoom and the rounded bounds that a map view was drawn for.
#[derive(Debug, Clone, Copy, PartialEq, Eq, Hash, Structural)]
pub struct MapSignature {
    pub z: u8,
    pub lat_min: i64,
    pub lat_max: i64,
    pub lng_min: i64,
    pub lng_max: i64,
}

/// How many tile fetches may be in flight: a few while the first tiles warm up, more
/// once six or more tiles are known.
pub fn current_inflight_limit(tile_count: usize) -> (limit: usize)
    ensures
        limit == if tile_count >= 6 {
            12usize
        } else {
            4usize
        },
{
    if tile_count >= 6 {
        12
    } else {
        4
    }
}

/// The signed integer that a zigzag-encoded word stands for: even words are the
/// non-negative numbers `0, 1, 2, ...`, odd words the negative `-1, -2, ...`.
pub open spec fn zigzag_value(v: u32) -> int {
    if v % 2 == 0 {
        (v / 2) as int
    } else {
        -((v / 2) as int) - 1
    }
}

/// The zigzag encoding of a signed integer.
pub open spec fn zigzag_encode(n: i32) -> u32 {
    (((n as u32) << 1u32) ^ ((n >> 31u32) as u32)) as u32
}

/// Decodes a zigzag-encoded integer.
pub fn decode_zigzag(value: u32) -> (n: i32)
    ensures
        n == zigzag_value(value),
{
    proof {
        assert(value & 1 <= 1) by (bit_vector);
        assert(value >> 1 <= 0x7fff_ffff) by (bit_vector);
    }
    let half = (value >> 1) as i32;
    let sign = -((value & 1) as i32);
    let n = half ^ sign;
    proof {
        assert(value >> 1 == value / 2) by (bit_vector);
        assert(value & 1 == value % 2) by (bit_vector);
        assert(value / 2 <= 0x7fff_ffff);
        if value % 2 == 0 {
            assert(sign == 0);
            assert(half ^ 0i32 == half) by (bit_vector);
        } else {
            assert(sign == -1);
            assert(0 <= half ==> half ^ -1i32 == -half - 1) by (bit_vector);
        }
    }
    n
}

/// Zigzag decoding undoes zigzag encoding: every `i32` comes back.
pub proof fn law_zigzag_round_trip(n: i32)
    ensures
        zigzag_value(zigzag_encode(n)) == n,
{
    let e = zigzag_encode(n);
    assert(e % 2 == 0 <==> n >= 0) by (bit_vector)
        requires
            e == (((n as u32) << 1u32) ^ ((n >> 31u32) as u32)) as u32,
    ;
    assert(n >= 0 ==> e / 2 == n) by (bit_vector)
        requires
            e == (((n as u32) << 1u32) ^ ((n >> 31u32) as u32)) as u32,
    ;
    assert(n < 0 ==> e / 2 == -(n as int) - 1) by (bit_vector)
        requires
            e == (((n as u32) << 1u32) ^ ((n >> 31u32) as u32)) as u32,
    ;
}

/// What decoding a line-string geometry yields from position `cursor` on, at pen
/// position `(x, y)`, with `remaining` parameter pairs still due to command `id`.
/// A command word holds its id in the low three bits and its repeat count above them:
/// move-to (1) starts a new line at each point, line-to (2) extends the last line,
/// close-path (7) does nothing; any other id ends decoding, and so does the end of the
/// input, a pair cut short ending the current command.
pub open spec fn decode_lines_from(
    geometry: Seq<u32>,
    cursor: int,
    x: int,
    y: int,
    id: u32,
    remaining: nat,
    lines: Seq<Seq<(i32, i32)>>,
) -> Seq<Seq<(i32, i32)>>
    decreases geometry.len() - cursor, remaining,
    when 0 <= cursor <= geometry.len()
{
    if remaining > 0 && (id == 1 || id == 2) {
        if cursor + 1 >= geometry.len() {
            decode_lines_from(geometry, cursor, x, y, id, 0, lines)
        } else {
            let nx = x + zigzag_value(geometry[cursor]);
            let ny = y + zigzag_value(geometry[cursor + 1]);
            let p = (nx as i32, ny as i32);
            let next = if id == 1 {
                lines.push(seq![p])
            } else if lines.len() > 0 {
                lines.update(lines.len() - 1, lines.last().push(p))
            } else {
                lines
            };
            decode_lines_from(geometry, cursor + 2, nx, ny, id, (remaining - 1) as nat, next)
        }
    } else if cursor < geometry.len() {
        let command = geometry[cursor];
        let cid = command & 7;
        if cid == 1 || cid == 2 {
            decode_lines_from(geometry, cursor + 1, x, y, cid, (command >> 3) as nat, lines)
        } else if cid == 7 {
            decode_lines_from(geometry, cursor + 1, x, y, cid, 0, lines)
        } else {
            lines
        }
    } else {
        lines
    }
}

/// Decoding from this state keeps every pen position within `i32`.
pub open spec fn decode_fits_from(
    geometry: Seq<u32>,
    cursor: int,
    x: int,
    y: int,
    id: u32,
    remaining: nat,
) -> bool
    decreases geometry.len() - cursor, remaining,
    when 0 <= cursor <= geometry.len()
{
    if remaining > 0 && (id == 1 || id == 2) {
        if cursor + 1 >= geometry.len() {
            decode_fits_from(geometry, cursor, x, y, id, 0)
        } else {
            let nx = x + zigzag_value(geometry[cursor]);
            let ny = y + zigzag_value(geometry[cursor + 1]);
            i32::MIN <= nx <= i32::MAX && i32::MIN <= ny <= i32::MAX && decode_fits_from(
                geometry,
                cursor + 2,
                nx,
                ny,
                id,
                (remaining - 1) as nat,
            )
        }
    } else if cursor < geometry.len() {
        let command = geometry[cursor];
        let cid = command & 7;
        if cid == 1 || cid == 2 {
            decode_fits_from(geometry, cursor + 1, x, y, cid, (command >> 3) as nat)
        } else if cid == 7 {
            decode_fits_from(geometry, cursor + 1, x, y, cid, 0)
        } else {
            true
        }
    } else {
        true
    }
}

/// The lines that a vector-tile line-string geometry draws, each a list of points.
pub open spec fn decoded_lines(geometry: Seq<u32>) -> Seq<Seq<(i32, i32)>> {
    decode_lines_from(geometry, 0, 0, 0, 0, 0, Seq::empty())
}

pub open spec fn lines_view(lines: Seq<Vec<(i32, i32)>>) -> Seq<Seq<(i32, i32)>> {
    lines.map_values(|l: Vec<(i32, i32)>| l@)
}

/// Decodes the line strings of a vector-tile geometry (command words with zigzag
/// parameter pairs, pen positions relative to the previous one).
pub fn decode_line_strings(geometry: &[u32]) -> (lines: Vec<Vec<(i32, i32)>>)
    requires
        decode_fits_from(geometry@, 0, 0, 0, 0, 0),
    ensures
        lines_view(lines@) == decoded_lines(geometry@),
{
    let mut lines: Vec<Vec<(i32, i32)>> = Vec::new();
    let mut cursor: usize = 0;
    let mut x: i32 = 0;
    let mut y: i32 = 0;
    let mut id: u32 = 0;
    let mut remaining: u32 = 0;
    let n = geometry.len();
    assert(lines_view(lines@) =~= Seq::<Seq<(i32, i32)>>::empty());
    loop
        invariant_except_break
            decoded_lines(geometry@) == decode_lines_from(
                geometry@,
                cursor as int,
                x as int,
                y as int,
                id,
                remaining as nat,
                lines_view(lines@),
            ),
            decode_fits_from(geometry@, cursor as int, x as int, y as int, id, remaining as nat),
        invariant
            n == geometry@.len(),
            cursor <= n,
        ensures
            lines_view(lines@) == decoded_lines(geometry@),
        decreases n - cursor, remaining,
    {
        if remaining > 0 && (id == 1 || id == 2) {
            if n - cursor <= 1 {
                remaining = 0;
            } else {
                let nx = x + decode_zigzag(geometry[cursor]);
                let ny = y + decode_zigzag(geometry[cursor + 1]);
                cursor = cursor + 2;
                remaining = remaining - 1;
                let ghost before = lines_view(lines@);
                if id == 1 {
                    let mut line: Vec<(i32, i32)> = Vec::new();
                    line.push((nx, ny));
                    lines.push(line);
                    assert(lines_view(lines@) =~= before.push(seq![(nx, ny)]));
                } else if lines.len() > 0 {
                    let mut last = lines.pop().unwrap();
                    last.push((nx, ny));
                    lines.push(last);
                    assert(lines_view(lines@) =~= before.update(
                        before.len() - 1,
                        before.last().push((nx, ny)),
                    ));
                }
                x = nx;
                y = ny;
            }
        } else if cursor < n {
            let command = geometry[cursor];
            let cid = command & 0x7;
            if cid == 1 || cid == 2 {
                cursor = cursor + 1;
                id = cid;
                remaining = command >> 3;
            } else if cid == 7 {
                cursor = cursor + 1;
                id = cid;
                remaining = 0;
            } else {
                break;
            }
        } else {
            break;
        }
    }
    lines
}

/// Whether decoding `geometry` keeps every pen position within `i32`, so that
/// `decode_line_strings` may run on it.
pub fn geometry_fits(geometry: &[u32]) -> (b: bool)
    ensures
        b == decode_fits_from(geometry@, 0, 0, 0, 0, 0),
{
    let mut cursor: usize = 0;
    let mut x: i64 = 0;
    let mut y: i64 = 0;
    let mut id: u32 = 0;
    let mut remaining: u32 = 0;
    let n = geometry.len();
    loop
        invariant_except_break
            decode_fits_from(geometry@, 0, 0, 0, 0, 0) == decode_fits_from(
                geometry@,
                cursor as int,
                x as int,
                y as int,
                id,
                remaining as nat,
            ),
            i32::MIN <= x <= i32::MAX,
            i32::MIN <= y <= i32::MAX,
        invariant
            n == geometry@.len(),
            cursor <= n,
        ensures
            decode_fits_from(geometry@, 0, 0, 0, 0, 0),
        decreases n - cursor, remaining,
    {
        if remaining > 0 && (id == 1 || id == 2) {
            if n - cursor <= 1 {
                remaining = 0;
            } else {
                let nx = x + decode_zigzag(geometry[cursor]) as i64;
                let ny = y + decode_zigzag(geometry[cursor + 1]) as i64;
                if nx < i32::MIN as i64 || nx > i32::MAX as i64 || ny < i32::MIN as i64 || ny
                    > i32::MAX as i64 {
                    return false;
                }
                cursor = cursor + 2;
                remaining = remaining - 1;
                x = nx;
                y = ny;
            }
        } else if cursor < n {
            let command = geometry[cursor];
            let cid = command & 0x7;
            if cid == 1 || cid == 2 {
                cursor = cursor + 1;
                id = cid;
                remaining = command >> 3;
            } else if cid == 7 {
                cursor = cursor + 1;
                id = cid;
                remaining = 0;
            } else {
                break;
            }
        } else {
            break;
        }
    }
    true
}

/// A feature of a vector-tile layer: its geometry type and its geometry words.
pub struct TileFeature {
    pub geom_type: i32,
    pub geometry: Vec<u32>,
}

/// A vector-tile layer: its name, its extent (0 when unset) and its features.
pub struct TileLayer {
    pub name: String,
    pub extent: u32,
    pub features: Vec<TileFeature>,
}

/// The geometry type of a line string.
pub const LINESTRING: i32 = 2;

/// The first layer called `speeds`, if any.
pub open spec fn first_speed_layer(layers: Seq<TileLayer>) -> Option<TileLayer>
    decreases layers.len(),
{
    if layers.len() == 0 {
        None
    } else if layers[0].name@ == "speeds"@ {
        Some(layers[0])
    } else {
        first_speed_layer(layers.drop_first())
    }
}

/// The lines of the line-string features of `features`, feature after feature.
pub open spec fn feature_lines(features: Seq<TileFeature>) -> Seq<Seq<(i32, i32)>>
    decreases features.len(),
{
    if features.len() == 0 {
        Seq::empty()
    } else {
        let rest = feature_lines(features.drop_last());
        if features.last().geom_type == LINESTRING {
            rest + decoded_lines(features.last().geometry@)
        } else {
            rest
        }
    }
}

/// Every line-string feature decodes within `i32`.
pub open spec fn features_fit(features: Seq<TileFeature>) -> bool {
    forall|i: int|
        0 <= i < features.len() && (#[trigger] features[i]).geom_type == LINESTRING
            ==> decode_fits_from(features[i].geometry@, 0, 0, 0, 0, 0)
}

/// The road lines of a decoded tile, in tile coordinates, with the extent they are
/// measured in: those of the line-string features of its first `speeds` layer, the
/// extent defaulting to 4096; a tile without such a layer has no lines.
pub fn speed_layer_lines(layers: &Vec<TileLayer>) -> (res: (u32, Vec<Vec<(i32, i32)>>))
    requires
        first_speed_layer(layers@) matches Some(l) ==> features_fit(l.features@),
    ensures
        match first_speed_layer(layers@) {
            None => res.1@.len() == 0,
            Some(l) => {
                &&& res.0 == (if l.extent == 0 { 4096 } else { l.extent })
                &&& lines_view(res.1@) == feature_lines(l.features@)
            },
        },
{
    let mut i: usize = 0;
    assert(layers@.skip(0) =~= layers@);
    while i < layers.len()
        invariant
            i <= layers@.len(),
            first_speed_layer(layers@) == first_speed_layer(layers@.skip(i as int)),
            first_speed_layer(layers@) matches Some(l) ==> features_fit(l.features@),
        decreases layers@.len() - i,
    {
        assert(layers@.skip(i as int)[0] == layers@[i as int]);
        assert(layers@.skip(i as int).drop_first() =~= layers@.skip(i + 1));
        if crate::text::str_eq(layers[i].name.as_str(), "speeds") {
            let layer = &layers[i];
            let extent = if layer.extent == 0 { 4096 } else { layer.extent };
            let mut lines: Vec<Vec<(i32, i32)>> = Vec::new();
            let mut j: usize = 0;
            while j < layer.features.len()
                invariant
                    j <= layer.features@.len(),
                    features_fit(layer.features@),
                    lines_view(lines@) == feature_lines(layer.features@.take(j as int)),
                decreases layer.features@.len() - j,
            {
                proof {
                    assert(layer.features@.take(j + 1).drop_last() =~= layer.features@.take(j as int));
                    assert(layer.features@.take(j + 1).last() == layer.features@[j as int]);
                }
                if layer.features[j].geom_type == LINESTRING {
                    let mut decoded = decode_line_strings(layer.features[j].geometry.as_slice());
                    let ghost before = lines_view(lines@);
                    let ghost all = lines_view(decoded@);
                    lines.append(&mut decoded);
                    assert(lines_view(lines@) =~= before + all);
                }
                j = j + 1;
            }
            assert(layer.features@.take(layer.features@.len() as int) =~= layer.features@);
            return (extent, lines);
        }
        i = i + 1;
    }
    assert(layers@.skip(i as int) =~= Seq::<TileLayer>::empty());
    (4096, Vec::new())
}

} // verus!
