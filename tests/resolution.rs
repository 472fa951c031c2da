use auto_tile::{
    generate_rule, neighbor_coordinates, resolve, AutoTileId, AutoTileRequest, AutoTileRule,
    AutoTiler, AutoTilemap, SparseTilemap, TileCoord, TileObject,
};

const GRASS: AutoTileId = AutoTileId {
    group_id: 1,
    tileset_id: 0,
};

const WATER: AutoTileId = AutoTileId {
    group_id: 2,
    tileset_id: 0,
};

fn at(x: u32, y: u32) -> TileCoord {
    TileCoord::new(x, y, 0, 0)
}

fn tile(x: u32, y: u32) -> TileObject {
    TileObject::new(at(x, y), (x as u64) * 1000 + y as u64, GRASS)
}

fn map_of(tiles: &[TileObject]) -> SparseTilemap {
    let mut map = SparseTilemap::new();
    for t in tiles {
        map.insert(*t);
    }
    map
}

fn request_for(reqs: &[AutoTileRequest], c: TileCoord) -> AutoTileRule {
    let found: Vec<&AutoTileRequest> = reqs.iter().filter(|r| r.tile.coord == c).collect();
    assert_eq!(found.len(), 1);
    found[0].rule
}

fn assert_no_duplicates(reqs: &[AutoTileRequest]) {
    for i in 0..reqs.len() {
        for j in (i + 1)..reqs.len() {
            assert_ne!(reqs[i].tile.coord, reqs[j].tile.coord);
        }
    }
}

#[test]
fn origin_has_at_most_four_candidates() {
    let cs = neighbor_coordinates(&at(0, 0));
    assert!(cs.len() <= 4);
    assert_eq!(cs, vec![at(0, 1), at(1, 1), at(1, 0)]);
}

#[test]
fn interior_cell_has_eight_candidates() {
    let cs = neighbor_coordinates(&at(5, 5));
    assert_eq!(
        cs,
        vec![
            at(4, 6),
            at(5, 6),
            at(6, 6),
            at(4, 5),
            at(6, 5),
            at(4, 4),
            at(5, 4),
            at(6, 4),
        ]
    );
}

#[test]
fn edge_of_grid_has_no_wraparound() {
    let cs = neighbor_coordinates(&TileCoord::new(u32::MAX, 3, 2, 1));
    assert_eq!(cs.len(), 5);
    for c in &cs {
        assert!(c.x == u32::MAX || c.x == u32::MAX - 1);
        assert_eq!(c.map_id, 2);
        assert_eq!(c.layer_id, 1);
    }
    assert_eq!(neighbor_coordinates(&at(0, 7)).len(), 5);
}

#[test]
fn rule_from_two_neighbors() {
    let rule = generate_rule(&at(5, 5), &[tile(5, 6), tile(4, 5)]);
    assert_eq!(
        rule,
        AutoTileRule {
            north: Some(true),
            west: Some(true),
            ..Default::default()
        }
    );
}

#[test]
fn rule_from_every_direction() {
    let ns: Vec<TileObject> = neighbor_coordinates(&at(5, 5))
        .into_iter()
        .map(|c| TileObject::new(c, 0, GRASS))
        .collect();
    assert_eq!(generate_rule(&at(5, 5), &ns), AutoTileRule::default_true());
    assert_eq!(generate_rule(&at(5, 5), &[]), AutoTileRule::default());
}

#[test]
fn rule_generation_ignores_distant_tiles() {
    assert_eq!(
        generate_rule(&at(5, 5), &[tile(7, 5), tile(5, 5)]),
        AutoTileRule::default()
    );
    let rule = generate_rule(&at(5, 5), &[tile(6, 4), tile(4, 4)]);
    assert_eq!(
        rule,
        AutoTileRule {
            south_east: Some(true),
            south_west: Some(true),
            ..Default::default()
        }
    );
}

#[test]
fn plus_shape_end_to_end() {
    let tiles = [tile(1, 1), tile(0, 1), tile(2, 1), tile(1, 0), tile(1, 2)];
    let map = map_of(&tiles);
    let reqs = resolve(&map, &[(tile(1, 1), true)]);
    assert_eq!(reqs.len(), 5);
    assert_no_duplicates(&reqs);
    let order: Vec<TileCoord> = reqs.iter().map(|r| r.tile.coord).collect();
    assert_eq!(order, vec![at(1, 1), at(1, 2), at(0, 1), at(2, 1), at(1, 0)]);
    assert_eq!(
        request_for(&reqs, at(1, 1)),
        AutoTileRule {
            north: Some(true),
            south: Some(true),
            east: Some(true),
            west: Some(true),
            ..Default::default()
        }
    );
    // Each arm sees the center in its inward direction; with 8-connected
    // neighborhoods it also sees the two arms beside it diagonally.
    assert_eq!(
        request_for(&reqs, at(0, 1)),
        AutoTileRule {
            east: Some(true),
            north_east: Some(true),
            south_east: Some(true),
            ..Default::default()
        }
    );
    assert_eq!(
        request_for(&reqs, at(2, 1)),
        AutoTileRule {
            west: Some(true),
            north_west: Some(true),
            south_west: Some(true),
            ..Default::default()
        }
    );
    assert_eq!(
        request_for(&reqs, at(1, 0)),
        AutoTileRule {
            north: Some(true),
            north_west: Some(true),
            north_east: Some(true),
            ..Default::default()
        }
    );
    assert_eq!(
        request_for(&reqs, at(1, 2)),
        AutoTileRule {
            south: Some(true),
            south_west: Some(true),
            south_east: Some(true),
            ..Default::default()
        }
    );
    assert_eq!(reqs[0].tile, tile(1, 1));
}

#[test]
fn isolated_arms_get_only_the_inward_direction() {
    // Arms two cells apart from each other only see the center.
    let tiles = [tile(2, 2), tile(1, 2), tile(3, 2)];
    let map = map_of(&tiles);
    let reqs = resolve(&map, &[(tile(2, 2), true)]);
    assert_eq!(reqs.len(), 3);
    assert_eq!(
        request_for(&reqs, at(1, 2)),
        AutoTileRule {
            east: Some(true),
            ..Default::default()
        }
    );
    assert_eq!(
        request_for(&reqs, at(3, 2)),
        AutoTileRule {
            west: Some(true),
            ..Default::default()
        }
    );
}

#[test]
fn overlapping_batch_has_no_duplicates() {
    let tiles = [tile(1, 1), tile(2, 1), tile(3, 1), tile(2, 2)];
    let map = map_of(&tiles);
    let changes: Vec<(TileObject, bool)> = tiles.iter().map(|t| (*t, true)).collect();
    let reqs = resolve(&map, &changes);
    assert_no_duplicates(&reqs);
    assert_eq!(reqs.len(), 4);
    let again = resolve(&map, &[(tile(2, 1), true), (tile(2, 1), true), (tile(2, 1), false)]);
    assert_no_duplicates(&again);
    assert_eq!(again.len(), 4);
}

#[test]
fn removal_updates_neighbors_only() {
    let mut map = map_of(&[tile(1, 1), tile(2, 1), tile(1, 2)]);
    let removed = map.remove(&at(1, 1));
    assert_eq!(removed, Some(tile(1, 1)));
    assert_eq!(map.get_tile_at(&at(1, 1)), None);
    let reqs = resolve(&map, &[(tile(1, 1), false)]);
    let order: Vec<TileCoord> = reqs.iter().map(|r| r.tile.coord).collect();
    assert_eq!(order, vec![at(1, 2), at(2, 1)]);
    assert_eq!(
        request_for(&reqs, at(2, 1)),
        AutoTileRule {
            north_west: Some(true),
            ..Default::default()
        }
    );
    assert_eq!(
        request_for(&reqs, at(1, 2)),
        AutoTileRule {
            south_east: Some(true),
            ..Default::default()
        }
    );
}

#[test]
fn other_groups_and_layers_are_not_neighbors() {
    let mut map = map_of(&[tile(1, 1)]);
    map.insert(TileObject::new(at(2, 1), 1, WATER));
    map.insert(TileObject::new(TileCoord::new(1, 2, 0, 1), 2, GRASS));
    map.insert(TileObject::new(TileCoord::new(0, 1, 3, 0), 3, GRASS));
    let reqs = resolve(&map, &[(tile(1, 1), true)]);
    assert_eq!(reqs.len(), 1);
    assert_eq!(reqs[0].rule, AutoTileRule::default());
}

#[test]
fn builder_matches_resolve() {
    let tiles = [tile(4, 4), tile(5, 4), tile(5, 5)];
    let map = map_of(&tiles);
    let mut tiler = AutoTiler::new(&map);
    tiler.add_tile(tile(4, 4), true);
    tiler.add_tile(tile(5, 5), false);
    let built = tiler.finish();
    let resolved = resolve(&map, &[(tile(4, 4), true), (tile(5, 5), false)]);
    assert_eq!(built, resolved);
    let mut sized = AutoTiler::with_capacity(&map, 2);
    sized.add_tile(tile(4, 4), true);
    sized.add_tile(tile(5, 5), false);
    assert_eq!(sized.finish(), resolved);
}

#[test]
fn sparse_map_insert_replaces() {
    let mut map = SparseTilemap::new();
    assert_eq!(map.get_tile_at(&at(3, 3)), None);
    map.insert(tile(3, 3));
    assert_eq!(map.get_tile_at(&at(3, 3)), Some(tile(3, 3)));
    let other = TileObject::new(at(3, 3), 99, WATER);
    map.insert(other);
    assert_eq!(map.get_tile_at(&at(3, 3)), Some(other));
    assert_eq!(map.get_tile_at(&TileCoord::new(3, 3, 1, 0)), None);
    assert_eq!(map.remove(&at(4, 4)), None);
}

#[test]
fn coordinate_keys_are_distinct() {
    let a = TileCoord::new(1, 0, 0, 0).key();
    let b = TileCoord::new(0, 1, 0, 0).key();
    let c = TileCoord::new(0, 0, 1, 0).key();
    let d = TileCoord::new(0, 0, 0, 1).key();
    assert_eq!(a, 1);
    assert_eq!(b, 1u128 << 32);
    assert_eq!(c, 1u128 << 64);
    assert_eq!(d, 1u128 << 80);
    let max = TileCoord::new(u32::MAX, u32::MAX, u16::MAX, u16::MAX).key();
    assert_eq!(max, (1u128 << 96) - 1);
}

#[test]
fn can_match_requires_same_group_map_and_layer() {
    let a = tile(1, 1);
    assert!(a.can_match(&tile(5, 9)));
    assert!(!a.can_match(&TileObject::new(at(1, 2), 0, WATER)));
    assert!(!a.can_match(&TileObject::new(TileCoord::new(1, 2, 1, 0), 0, GRASS)));
    assert!(!a.can_match(&TileObject::new(TileCoord::new(1, 2, 0, 1), 0, GRASS)));
    assert_eq!(at(3, 3).offset(-1, 1), Some(at(2, 4)));
    assert_eq!(at(0, 3).offset(-1, 0), None);
}
