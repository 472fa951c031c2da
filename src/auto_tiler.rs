//! The resolution pass: for changed or removed tiles, the rules that they and
//! their neighbors now satisfy, as deduplicated update requests.
use vstd::prelude::*;

use std::collections::{HashMap, HashSet};

use crate::coords::{
    candidate_coords,
    generate_rule,
    key_of,
    lemma_key_of_injective,
    neighbor_coordinates,
    rule_from,
    same_group,
    AutoTileRequest,
    TileCoord,
    TileObject,
};
use crate::rules::AutoTileRule;

verus! {

/// Read access to the tiles of a map that take part in auto tiling.
///
/// A lookup must be a pure read: the same coordinate gives the same answer
/// for the whole of a resolution pass.
pub trait AutoTilemap {
    /// The tile found at `coords`, if any.
    spec fn tile_at(&self, coords: TileCoord) -> Option<TileObject>;

    /// Looks up the tile at `coords`.
    fn get_tile_at(&self, coords: &TileCoord) -> (r: Option<TileObject>)
        ensures
            r == self.tile_at(*coords),
    ;
}

/// A sparse map of tiles, keyed by coordinate.
pub struct SparseTilemap {
    tiles: HashMap<u128, TileObject>,
}

impl AutoTilemap for SparseTilemap {
    open spec fn tile_at(&self, coords: TileCoord) -> Option<TileObject> {
        self.stored(coords)
    }

    fn get_tile_at(&self, coords: &TileCoord) -> (r: Option<TileObject>) {
        match self.tiles.get(&coords.key()) {
            Some(t) => Some(*t),
            None => None,
        }
    }
}

impl SparseTilemap {
    /// The tile stored at `coords`, if any.
    pub closed spec fn stored(&self, coords: TileCoord) -> Option<TileObject> {
        if self.tiles@.contains_key(key_of(coords)) {
            Some(self.tiles@[key_of(coords)])
        } else {
            None
        }
    }

    /// An empty map.
    pub fn new() -> (r: Self)
        ensures
            forall|c: TileCoord| r.tile_at(c) is None,
    {
        SparseTilemap { tiles: HashMap::new() }
    }

    /// Stores `tile` at its coordinate, replacing what was there.
    pub fn insert(&mut self, tile: TileObject)
        ensures
            forall|c: TileCoord|
                #[trigger] final(self).tile_at(c) == if c == tile.coord {
                    Some(tile)
                } else {
                    old(self).tile_at(c)
                },
    {
        let k = tile.coord.key();
        self.tiles.insert(k, tile);
        proof {
            assert forall|c: TileCoord|
                #[trigger] self.tile_at(c) == if c == tile.coord {
                    Some(tile)
                } else {
                    old(self).tile_at(c)
                } by {
                if key_of(c) == k {
                    lemma_key_of_injective(c, tile.coord);
                }
            }
        }
    }

    /// Removes the tile at `coords`, returning it.
    pub fn remove(&mut self, coords: &TileCoord) -> (r: Option<TileObject>)
        ensures
            r == old(self).tile_at(*coords),
            forall|c: TileCoord|
                #[trigger] final(self).tile_at(c) == if c == *coords {
                    None
                } else {
                    old(self).tile_at(c)
                },
    {
        let k = coords.key();
        let r = self.tiles.remove(&k);
        proof {
            assert forall|c: TileCoord|
                #[trigger] self.tile_at(c) == if c == *coords {
                    None
                } else {
                    old(self).tile_at(c)
                } by {
                if key_of(c) == k {
                    lemma_key_of_injective(c, *coords);
                }
            }
        }
        r
    }
}

/// The tiles found at `coords` that may count as neighbors of `center`, in order.
pub open spec fn valid_among<T: AutoTilemap>(
    map: T,
    center: TileObject,
    coords: Seq<TileCoord>,
) -> Seq<TileObject>
    decreases coords.len(),
{
    if coords.len() == 0 {
        Seq::empty()
    } else {
        let prev = valid_among(map, center, coords.drop_last());
        match map.tile_at(coords.last()) {
            Some(t) => if same_group(center, t) {
                prev.push(t)
            } else {
                prev
            },
            None => prev,
        }
    }
}

/// The valid neighbors of `tile`: tiles of the same group in the eight cells around it.
pub open spec fn valid_neighbors<T: AutoTilemap>(map: T, tile: TileObject) -> Seq<TileObject> {
    valid_among(map, tile, candidate_coords(tile.coord))
}

/// The rule that `tile` satisfies on `map`.
pub open spec fn tile_rule<T: AutoTilemap>(map: T, tile: TileObject) -> AutoTileRule {
    rule_from(tile.coord, valid_neighbors(map, tile))
}

/// Whether some request of `reqs` is for the cell `c`.
pub open spec fn is_requested(reqs: Seq<AutoTileRequest>, c: TileCoord) -> bool {
    exists|i: int| 0 <= i < reqs.len() && (#[trigger] reqs[i]).tile.coord == c
}

/// No two requests of `reqs` are for the same cell.
pub open spec fn no_duplicate_coords(reqs: Seq<AutoTileRequest>) -> bool {
    forall|i: int, j: int|
        0 <= i < j < reqs.len() ==> (#[trigger] reqs[i]).tile.coord != (#[trigger] reqs[j]).tile.coord
}

/// Adds a request for `tile` unless its cell already has one.
pub open spec fn emit(reqs: Seq<AutoTileRequest>, tile: TileObject, rule: AutoTileRule) -> Seq<
    AutoTileRequest,
> {
    if is_requested(reqs, tile.coord) {
        reqs
    } else {
        reqs.push(AutoTileRequest { tile, rule })
    }
}

/// Adds a request for each tile of `ns`, in order, with the rule it satisfies.
pub open spec fn emit_all<T: AutoTilemap>(
    map: T,
    reqs: Seq<AutoTileRequest>,
    ns: Seq<TileObject>,
) -> Seq<AutoTileRequest>
    decreases ns.len(),
{
    if ns.len() == 0 {
        reqs
    } else {
        let prev = emit_all(map, reqs, ns.drop_last());
        emit(prev, ns.last(), tile_rule(map, ns.last()))
    }
}

/// The requests after processing one changed tile: the tile itself when
/// `include_self` holds, then each of its valid neighbors (one level only).
pub open spec fn add_tile_spec<T: AutoTilemap>(
    map: T,
    reqs: Seq<AutoTileRequest>,
    tile: TileObject,
    include_self: bool,
) -> Seq<AutoTileRequest> {
    let r0 = if include_self {
        emit(reqs, tile, tile_rule(map, tile))
    } else {
        reqs
    };
    emit_all(map, r0, valid_neighbors(map, tile))
}

/// The requests of a whole pass over `changes`, in order.
pub open spec fn resolve_spec<T: AutoTilemap>(map: T, changes: Seq<(TileObject, bool)>) -> Seq<
    AutoTileRequest,
>
    decreases changes.len(),
{
    if changes.len() == 0 {
        Seq::empty()
    } else {
        add_tile_spec(
            map,
            resolve_spec(map, changes.drop_last()),
            changes.last().0,
            changes.last().1,
        )
    }
}

proof fn lemma_emit_no_duplicates(reqs: Seq<AutoTileRequest>, tile: TileObject, rule: AutoTileRule)
    requires
        no_duplicate_coords(reqs),
    ensures
        no_duplicate_coords(emit(reqs, tile, rule)),
{
    if !is_requested(reqs, tile.coord) {
        let r = emit(reqs, tile, rule);
        assert forall|i: int, j: int| 0 <= i < j < r.len() implies (#[trigger] r[i]).tile.coord != (
        #[trigger] r[j]).tile.coord by {
            if j == reqs.len() {
                assert(r[i] == reqs[i]);
            } else {
                assert(r[i] == reqs[i] && r[j] == reqs[j]);
            }
        }
    }
}

proof fn lemma_emit_all_no_duplicates<T: AutoTilemap>(
    map: T,
    reqs: Seq<AutoTileRequest>,
    ns: Seq<TileObject>,
)
    requires
        no_duplicate_coords(reqs),
    ensures
        no_duplicate_coords(emit_all(map, reqs, ns)),
    decreases ns.len(),
{
    if ns.len() > 0 {
        lemma_emit_all_no_duplicates(map, reqs, ns.drop_last());
        lemma_emit_no_duplicates(
            emit_all(map, reqs, ns.drop_last()),
            ns.last(),
            tile_rule(map, ns.last()),
        );
    }
}

/// A resolution pass never emits two requests for the same cell, whatever the
/// batch of changes.
pub proof fn lemma_resolve_no_duplicates<T: AutoTilemap>(map: T, changes: Seq<(TileObject, bool)>)
    ensures
        no_duplicate_coords(resolve_spec(map, changes)),
    decreases changes.len(),
{
    if changes.len() > 0 {
        let prev = resolve_spec(map, changes.drop_last());
        let (tile, include_self) = changes.last();
        lemma_resolve_no_duplicates(map, changes.drop_last());
        let r0 = if include_self {
            lemma_emit_no_duplicates(prev, tile, tile_rule(map, tile));
            emit(prev, tile, tile_rule(map, tile))
        } else {
            prev
        };
        lemma_emit_all_no_duplicates(map, r0, valid_neighbors(map, tile));
    }
}

/// Computes the update requests of one resolution pass.
///
/// It holds a cache of the tiles found during the pass (only those that passed
/// the same-group check) and the set of cells that already have a request.
pub struct AutoTiler<'a, T: AutoTilemap> {
    tilemap: &'a T,
    cache: HashMap<u128, TileObject>,
    requests: Vec<AutoTileRequest>,
    requested: HashSet<u128>,
}

impl<'a, T: AutoTilemap> View for AutoTiler<'a, T> {
    type V = Seq<AutoTileRequest>;

    closed spec fn view(&self) -> Seq<AutoTileRequest> {
        self.requests@
    }
}

impl<'a, T: AutoTilemap> AutoTiler<'a, T> {
    /// The map this pass reads.
    pub closed spec fn tilemap(&self) -> T {
        *self.tilemap
    }

    /// The cache agrees with the map, the requested set holds exactly the
    /// cells of the requests, and no cell has two requests.
    pub closed spec fn wf(&self) -> bool {
        &&& forall|c: TileCoord|
            #[trigger] self.cache@.contains_key(key_of(c)) ==> self.tilemap.tile_at(c) == Some(
                self.cache@[key_of(c)],
            )
        &&& forall|c: TileCoord|
            #![trigger self.requested@.contains(key_of(c))]
            #![trigger is_requested(self.requests@, c)]
            self.requested@.contains(key_of(c)) <==> is_requested(self.requests@, c)
        &&& no_duplicate_coords(self.requests@)
    }

    /// Starts a pass over `tilemap`.
    pub fn new(tilemap: &'a T) -> (r: Self)
        ensures
            r.wf(),
            r@ == Seq::<AutoTileRequest>::empty(),
            r.tilemap() == *tilemap,
    {
        AutoTiler { tilemap, cache: HashMap::new(), requests: Vec::new(), requested: HashSet::new() }
    }

    /// Starts a pass over `tilemap` sized for `inputs` changed tiles: each can
    /// give a request for itself and for each of its eight neighbors.
    pub fn with_capacity(tilemap: &'a T, inputs: usize) -> (r: Self)
        ensures
            r.wf(),
            r@ == Seq::<AutoTileRequest>::empty(),
            r.tilemap() == *tilemap,
    {
        let capacity = if inputs <= 0x10_0000 {
            inputs * 9
        } else {
            0x90_0000
        };
        AutoTiler {
            tilemap,
            cache: HashMap::with_capacity(capacity),
            requests: Vec::with_capacity(capacity),
            requested: HashSet::with_capacity(capacity),
        }
    }

    /// Ends the pass and returns its requests.
    pub fn finish(self) -> (r: Vec<AutoTileRequest>)
        requires
            self.wf(),
        ensures
            r@ == self@,
            no_duplicate_coords(r@),
    {
        self.requests
    }

    /// Processes a changed tile: a request for the tile itself when
    /// `include_self` holds (false is for a removed tile), then one for each
    /// of its valid neighbors with the rule of that neighbor's own neighbors.
    /// A cell that already has a request gets no second one.
    pub fn add_tile(&mut self, tile: TileObject, include_self: bool)
        requires
            old(self).wf(),
        ensures
            final(self).wf(),
            final(self).tilemap() == old(self).tilemap(),
            final(self)@ == add_tile_spec(old(self).tilemap(), old(self)@, tile, include_self),
    {
        let ghost map = self.tilemap();
        let neighbors = self.filter_neighbors(&tile);
        if include_self {
            let rule = generate_rule(&tile.coord, neighbors.as_slice());
            self.try_add_request(tile, rule);
        }
        let ghost r0 = self@;
        let mut i: usize = 0;
        while i < neighbors.len()
            invariant
                self.wf(),
                self.tilemap() == map,
                neighbors@ == valid_neighbors(map, tile),
                i <= neighbors@.len(),
                self@ == emit_all(map, r0, neighbors@.take(i as int)),
            decreases neighbors@.len() - i,
        {
            let neighbor = neighbors[i];
            let sub_neighbors = self.filter_neighbors(&neighbor);
            let rule = generate_rule(&neighbor.coord, sub_neighbors.as_slice());
            self.try_add_request(neighbor, rule);
            proof {
                let t = neighbors@.take(i as int + 1);
                assert(t.drop_last() =~= neighbors@.take(i as int));
                assert(t.last() == neighbor);
            }
            i = i + 1;
        }
        assert(neighbors@.take(neighbors@.len() as int) =~= neighbors@);
    }

    /// Adds a request for `tile` unless its cell already has one.
    fn try_add_request(&mut self, tile: TileObject, rule: AutoTileRule)
        requires
            old(self).wf(),
        ensures
            final(self).wf(),
            final(self).tilemap() == old(self).tilemap(),
            final(self)@ == emit(old(self)@, tile, rule),
    {
        let k = tile.coord.key();
        if self.requested.contains(&k) {
            return;
        }
        self.requested.insert(k);
        self.requests.push(AutoTileRequest { tile, rule });
        proof {
            let reqs = self.requests@;
            let n = reqs.len() - 1;
            assert(reqs[n].tile.coord == tile.coord);
            assert(!is_requested(old(self).requests@, tile.coord));
            assert forall|c: TileCoord|
                #![trigger self.requested@.contains(key_of(c))]
                #![trigger is_requested(self.requests@, c)]
                self.requested@.contains(key_of(c)) <==> is_requested(self.requests@, c) by {
                if key_of(c) == k {
                    lemma_key_of_injective(c, tile.coord);
                } else {
                    if is_requested(reqs, c) {
                        let i = choose|i: int| 0 <= i < reqs.len() && (#[trigger] reqs[i]).tile.coord == c;
                        assert(i != n);
                        assert(old(self).requests@[i] == reqs[i]);
                    }
                    if is_requested(old(self).requests@, c) {
                        let i = choose|i: int|
                            0 <= i < old(self).requests@.len() && (#[trigger] old(
                                self,
                            ).requests@[i]).tile.coord == c;
                        assert(reqs[i] == old(self).requests@[i]);
                    }
                }
            }
            lemma_emit_no_duplicates(old(self).requests@, tile, rule);
        }
    }

    /// The valid neighbors of `tile`, in the order of `neighbor_coordinates`.
    fn filter_neighbors(&mut self, tile: &TileObject) -> (r: Vec<TileObject>)
        requires
            old(self).wf(),
        ensures
            final(self).wf(),
            final(self).tilemap() == old(self).tilemap(),
            final(self)@ == old(self)@,
            r@ == valid_neighbors(old(self).tilemap(), *tile),
    {
        let ghost map = self.tilemap();
        let coords = neighbor_coordinates(&tile.coord);
        let mut found: Vec<TileObject> = Vec::with_capacity(8);
        let mut i: usize = 0;
        while i < coords.len()
            invariant
                self.wf(),
                self.tilemap() == map,
                self@ == old(self)@,
                coords@ == candidate_coords(tile.coord),
                i <= coords@.len(),
                found@ == valid_among(map, *tile, coords@.take(i as int)),
            decreases coords@.len() - i,
        {
            let n = self.get_neighbor_at(tile, &coords[i]);
            if let Some(t) = n {
                found.push(t);
            }
            proof {
                let t = coords@.take(i as int + 1);
                assert(t.drop_last() =~= coords@.take(i as int));
            }
            i = i + 1;
        }
        assert(coords@.take(coords@.len() as int) =~= coords@);
        found
    }

    /// The tile at `coords` if it may count as a neighbor of `center`.
    ///
    /// The cache is checked first; on a miss the map is asked, and a tile that
    /// passes the check is cached. A tile that fails it is not cached.
    fn get_neighbor_at(&mut self, center: &TileObject, coords: &TileCoord) -> (r: Option<TileObject>)
        requires
            old(self).wf(),
        ensures
            final(self).wf(),
            final(self).tilemap() == old(self).tilemap(),
            final(self)@ == old(self)@,
            r == match old(self).tilemap().tile_at(*coords) {
                Some(t) => if same_group(*center, t) {
                    Some(t)
                } else {
                    None
                },
                None => None,
            },
    {
        let k = coords.key();
        let cached: Option<TileObject> = match self.cache.get(&k) {
            Some(t) => Some(*t),
            None => None,
        };
        match cached {
            Some(t) => {
                if center.can_match(&t) {
                    Some(t)
                } else {
                    None
                }
            },
            None => match self.tilemap.get_tile_at(coords) {
                Some(t) => {
                    if center.can_match(&t) {
                        self.cache.insert(k, t);
                        proof {
                            assert forall|c: TileCoord| #[trigger]
                                self.cache@.contains_key(key_of(c)) implies self.tilemap.tile_at(c)
                                == Some(self.cache@[key_of(c)]) by {
                                if key_of(c) == k {
                                    lemma_key_of_injective(c, *coords);
                                }
                            }
                        }
                        Some(t)
                    } else {
                        None
                    }
                },
                None => None,
            },
        }
    }
}

/// Runs one resolution pass over `changes` (each a tile and whether it gets a
/// request itself) and returns the update requests, at most one per cell.
pub fn resolve<T: AutoTilemap>(tilemap: &T, changes: &[(TileObject, bool)]) -> (r: Vec<
    AutoTileRequest,
>)
    ensures
        r@ == resolve_spec(*tilemap, changes@),
        no_duplicate_coords(r@),
{
    let mut tiler = AutoTiler::with_capacity(tilemap, changes.len());
    let mut i: usize = 0;
    while i < changes.len()
        invariant
            tiler.wf(),
            tiler.tilemap() == *tilemap,
            i <= changes@.len(),
            tiler@ == resolve_spec(*tilemap, changes@.take(i as int)),
        decreases changes@.len() - i,
    {
        let (tile, include_self) = changes[i];
        tiler.add_tile(tile, include_self);
        proof {
            let t = changes@.take(i as int + 1);
            assert(t.drop_last() =~= changes@.take(i as int));
        }
        i = i + 1;
    }
    assert(changes@.take(changes@.len() as int) =~= changes@);
    tiler.finish()
}

} // verus!
