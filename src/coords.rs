//! Tile coordinates, tiles taking part in auto tiling, neighbor enumeration
//! and the rule a set of neighbors generates.
use vstd::prelude::*;
use vstd::arithmetic::div_mod::lemma_fundamental_div_mod_converse;

use crate::ids::AutoTileId;
use crate::rules::AutoTileRule;

verus! {

/// A grid cell: its position and the map and layer it lies on.
#[derive(Debug, Clone, Copy, PartialEq, Eq, Structural, Hash)]
pub struct TileCoord {
    pub x: u32,
    pub y: u32,
    pub map_id: u16,
    pub layer_id: u16,
}

/// A tile taking part in auto tiling.
#[derive(Debug, Clone, Copy, PartialEq, Eq, Structural, Hash)]
pub struct TileObject {
    pub coord: TileCoord,
    /// The caller's identity of the tile (an entity, for instance).
    pub entity: u64,
    /// The group tag of the tile.
    pub auto_tile: AutoTileId,
}

/// A request to show `tile` as `rule` selects.
#[derive(Debug, Clone, Copy, PartialEq, Eq, Structural, Hash)]
pub struct AutoTileRequest {
    pub tile: TileObject,
    pub rule: AutoTileRule,
}

/// A number that identifies a coordinate: its four fields in mixed radix.
pub open spec fn coord_key(c: TileCoord) -> int {
    c.x + 0x1_0000_0000 * (c.y + 0x1_0000_0000 * (c.map_id + 0x1_0000 * c.layer_id))
}

/// The key of `c` as the 128-bit number that hash tables index by.
pub open spec fn key_of(c: TileCoord) -> u128 {
    coord_key(c) as u128
}

/// The coordinate at offset (`dx`, `dy`) from `c` on the same map and layer,
/// unless it falls outside the unsigned grid.
pub open spec fn shifted(c: TileCoord, dx: int, dy: int) -> Option<TileCoord> {
    if 0 <= c.x + dx <= u32::MAX && 0 <= c.y + dy <= u32::MAX {
        Some(TileCoord { x: (c.x + dx) as u32, y: (c.y + dy) as u32, ..c })
    } else {
        None
    }
}

pub open spec fn push_some(s: Seq<TileCoord>, o: Option<TileCoord>) -> Seq<TileCoord> {
    match o {
        Some(c) => s.push(c),
        None => s,
    }
}

/// The candidate neighbor coordinates of `c`, north row first, west to east.
pub open spec fn candidate_coords(c: TileCoord) -> Seq<TileCoord> {
    let s = push_some(Seq::empty(), shifted(c, -1, 1));
    let s = push_some(s, shifted(c, 0, 1));
    let s = push_some(s, shifted(c, 1, 1));
    let s = push_some(s, shifted(c, -1, 0));
    let s = push_some(s, shifted(c, 1, 0));
    let s = push_some(s, shifted(c, -1, -1));
    let s = push_some(s, shifted(c, 0, -1));
    push_some(s, shifted(c, 1, -1))
}

/// Whether two tiles may count as each other's neighbors: same map, same
/// layer and the same group tag.
pub open spec fn same_group(a: TileObject, b: TileObject) -> bool {
    &&& a.coord.map_id == b.coord.map_id
    &&& a.coord.layer_id == b.coord.layer_id
    &&& a.auto_tile == b.auto_tile
}

/// Whether `c` lies at offset (`dx`, `dy`) from `center`.
pub open spec fn offset_is(center: TileCoord, c: TileCoord, dx: int, dy: int) -> bool {
    c.x - center.x == dx && c.y - center.y == dy
}

/// Whether some tile of `ns` lies at offset (`dx`, `dy`) from `center`.
pub open spec fn has_neighbor(center: TileCoord, ns: Seq<TileObject>, dx: int, dy: int) -> bool {
    exists|i: int| 0 <= i < ns.len() && offset_is(center, (#[trigger] ns[i]).coord, dx, dy)
}

/// `Some(true)` for evidence of a neighbor, unset for none.
pub open spec fn evidence(b: bool) -> Option<bool> {
    if b {
        Some(true)
    } else {
        None
    }
}

/// The rule that the neighbors `ns` of `center` generate: each direction in
/// which a neighbor lies is `Some(true)`, every other direction is unset.
/// North is +y and east is +x.
pub open spec fn rule_from(center: TileCoord, ns: Seq<TileObject>) -> AutoTileRule {
    AutoTileRule {
        north: evidence(has_neighbor(center, ns, 0, 1)),
        east: evidence(has_neighbor(center, ns, 1, 0)),
        south: evidence(has_neighbor(center, ns, 0, -1)),
        west: evidence(has_neighbor(center, ns, -1, 0)),
        north_east: evidence(has_neighbor(center, ns, 1, 1)),
        north_west: evidence(has_neighbor(center, ns, -1, 1)),
        south_east: evidence(has_neighbor(center, ns, 1, -1)),
        south_west: evidence(has_neighbor(center, ns, -1, -1)),
    }
}

/// Distinct coordinates have distinct keys.
pub proof fn lemma_coord_key_injective(a: TileCoord, b: TileCoord)
    requires
        coord_key(a) == coord_key(b),
    ensures
        a == b,
{
    let sa = a.map_id + 0x1_0000 * a.layer_id;
    let sb = b.map_id + 0x1_0000 * b.layer_id;
    let ra = a.y + 0x1_0000_0000 * sa;
    let rb = b.y + 0x1_0000_0000 * sb;
    assert(coord_key(a) == ra * 0x1_0000_0000 + a.x);
    assert(coord_key(b) == rb * 0x1_0000_0000 + b.x);
    lemma_fundamental_div_mod_converse(coord_key(a), 0x1_0000_0000, ra, a.x as int);
    lemma_fundamental_div_mod_converse(coord_key(b), 0x1_0000_0000, rb, b.x as int);
    lemma_fundamental_div_mod_converse(ra, 0x1_0000_0000, sa, a.y as int);
    lemma_fundamental_div_mod_converse(rb, 0x1_0000_0000, sb, b.y as int);
    lemma_fundamental_div_mod_converse(sa, 0x1_0000, a.layer_id as int, a.map_id as int);
    lemma_fundamental_div_mod_converse(sb, 0x1_0000, b.layer_id as int, b.map_id as int);
}

/// Every key fits in 128 bits.
pub proof fn lemma_coord_key_bounds(c: TileCoord)
    ensures
        0 <= coord_key(c) <= u128::MAX,
{
    let s = c.map_id + 0x1_0000 * c.layer_id;
    assert(0 <= s <= 0xFFFF_FFFF);
    let r = c.y + 0x1_0000_0000 * s;
    assert(0 <= r <= 0xFFFF_FFFF_FFFF_FFFF);
    assert(0 <= coord_key(c) <= u128::MAX);
}

/// Distinct coordinates have distinct 128-bit keys.
pub proof fn lemma_key_of_injective(a: TileCoord, b: TileCoord)
    requires
        key_of(a) == key_of(b),
    ensures
        a == b,
{
    lemma_coord_key_bounds(a);
    lemma_coord_key_bounds(b);
    lemma_coord_key_injective(a, b);
}

impl TileCoord {
    pub fn new(x: u32, y: u32, map_id: u16, layer_id: u16) -> (r: Self)
        ensures
            r == (TileCoord { x, y, map_id, layer_id }),
    {
        TileCoord { x, y, map_id, layer_id }
    }

    /// The key of this coordinate.
    pub fn key(&self) -> (r: u128)
        ensures
            r == coord_key(*self),
            r == key_of(*self),
    {
        let b32: u128 = 0x1_0000_0000;
        let l = self.layer_id as u128;
        let m = self.map_id as u128;
        let y = self.y as u128;
        assert(0x1_0000 * l <= 0x1_0000 * 0xFFFF) by (nonlinear_arith)
            requires
                l <= 0xFFFF,
        ;
        let s = m + 0x1_0000 * l;
        assert(b32 * s <= b32 * 0xFFFF_FFFF) by (nonlinear_arith)
            requires
                s <= 0xFFFF_FFFF,
                b32 == 0x1_0000_0000,
        ;
        let r = y + b32 * s;
        assert(b32 * r <= b32 * 0xFFFF_FFFF_FFFF_FFFF) by (nonlinear_arith)
            requires
                r <= 0xFFFF_FFFF_FFFF_FFFF,
                b32 == 0x1_0000_0000,
        ;
        self.x as u128 + b32 * r
    }

    /// The coordinate at offset (`dx`, `dy`) on the same map and layer, unless
    /// it falls outside the unsigned grid.
    pub fn offset(&self, dx: i8, dy: i8) -> (r: Option<TileCoord>)
        ensures
            r == shifted(*self, dx as int, dy as int),
    {
        let nx = self.x as i64 + dx as i64;
        let ny = self.y as i64 + dy as i64;
        if 0 <= nx && nx <= u32::MAX as i64 && 0 <= ny && ny <= u32::MAX as i64 {
            Some(TileCoord { x: nx as u32, y: ny as u32, map_id: self.map_id, layer_id: self.layer_id })
        } else {
            None
        }
    }
}

impl TileObject {
    pub fn new(coord: TileCoord, entity: u64, auto_tile: AutoTileId) -> (r: Self)
        ensures
            r == (TileObject { coord, entity, auto_tile }),
    {
        TileObject { coord, entity, auto_tile }
    }

    /// Checks whether `other` may count as a neighbor of this tile.
    pub fn can_match(&self, other: &TileObject) -> (r: bool)
        ensures
            r == same_group(*self, *other),
    {
        self.coord.map_id == other.coord.map_id && self.coord.layer_id == other.coord.layer_id
            && self.auto_tile == other.auto_tile
    }
}

fn push_offset(v: &mut Vec<TileCoord>, center: &TileCoord, dx: i8, dy: i8)
    ensures
        final(v)@ == push_some(old(v)@, shifted(*center, dx as int, dy as int)),
{
    if let Some(c) = center.offset(dx, dy) {
        v.push(c);
    }
}

/// The coordinates of the eight cells around `center`, without those that
/// fall outside the grid (no negative positions, no wrap-around).
pub fn neighbor_coordinates(center: &TileCoord) -> (r: Vec<TileCoord>)
    ensures
        r@ == candidate_coords(*center),
{
    let mut v: Vec<TileCoord> = Vec::with_capacity(8);
    // north row
    push_offset(&mut v, center, -1, 1);
    push_offset(&mut v, center, 0, 1);
    push_offset(&mut v, center, 1, 1);
    // same row
    push_offset(&mut v, center, -1, 0);
    push_offset(&mut v, center, 1, 0);
    // south row
    push_offset(&mut v, center, -1, -1);
    push_offset(&mut v, center, 0, -1);
    push_offset(&mut v, center, 1, -1);
    v
}

proof fn lemma_has_neighbor_step(center: TileCoord, ns: Seq<TileObject>, i: int)
    requires
        0 <= i < ns.len(),
    ensures
        forall|dx: int, dy: int|
            #[trigger] has_neighbor(center, ns.take(i + 1), dx, dy) == (has_neighbor(
                center,
                ns.take(i),
                dx,
                dy,
            ) || offset_is(center, ns[i].coord, dx, dy)),
{
    assert forall|dx: int, dy: int|
        #[trigger] has_neighbor(center, ns.take(i + 1), dx, dy) == (has_neighbor(
            center,
            ns.take(i),
            dx,
            dy,
        ) || offset_is(center, ns[i].coord, dx, dy)) by {
        let s1 = ns.take(i + 1);
        let s0 = ns.take(i);
        if has_neighbor(center, s1, dx, dy) {
            let k = choose|k: int| 0 <= k < s1.len() && offset_is(center, (#[trigger] s1[k]).coord, dx, dy);
            if k < i {
                assert(s0[k] == s1[k]);
            }
        }
        if has_neighbor(center, s0, dx, dy) {
            let k = choose|k: int| 0 <= k < s0.len() && offset_is(center, (#[trigger] s0[k]).coord, dx, dy);
            assert(s1[k] == s0[k]);
        }
        if offset_is(center, ns[i].coord, dx, dy) {
            assert(s1[i] == ns[i]);
        }
    }
}

/// The rule that the neighbors `neighbors` of the cell `center` generate.
///
/// Each neighbor's offset from `center` sets its direction to `Some(true)`;
/// directions without a neighbor stay unset, meaning no evidence. A tile that
/// is not one of the eight adjacent cells sets nothing.
pub fn generate_rule(center: &TileCoord, neighbors: &[TileObject]) -> (r: AutoTileRule)
    ensures
        r == rule_from(*center, neighbors@),
{
    let mut rule = AutoTileRule {
        north: None,
        east: None,
        south: None,
        west: None,
        north_east: None,
        north_west: None,
        south_east: None,
        south_west: None,
    };
    let mut i: usize = 0;
    while i < neighbors.len()
        invariant
            i <= neighbors@.len(),
            rule == rule_from(*center, neighbors@.take(i as int)),
        decreases neighbors@.len() - i,
    {
        proof {
            lemma_has_neighbor_step(*center, neighbors@, i as int);
        }
        let n = &neighbors[i].coord;
        let dx = n.x as i64 - center.x as i64;
        let dy = n.y as i64 - center.y as i64;
        if dy == 1 {
            if dx == 0 {
                rule.north = Some(true);
            } else if dx == -1 {
                rule.north_west = Some(true);
            } else if dx == 1 {
                rule.north_east = Some(true);
            }
        } else if dy == 0 {
            if dx == -1 {
                rule.west = Some(true);
            } else if dx == 1 {
                rule.east = Some(true);
            }
        } else if dy == -1 {
            if dx == 0 {
                rule.south = Some(true);
            } else if dx == -1 {
                rule.south_west = Some(true);
            } else if dx == 1 {
                rule.south_east = Some(true);
            }
        }
        i = i + 1;
    }
    assert(neighbors@.take(neighbors@.len() as int) =~= neighbors@);
    rule
}

} // verus!
