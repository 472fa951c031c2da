use auto_tile::{
    is_current_variant, resolve_tile_index, select_auto, select_rule_entry, select_variant,
    AnimatedTileData, AutoTileData, AutoTileError, AutoTileRule, PartialTileId, SimpleTileType,
    TileData, TileIndex, TileType, VariantTileData,
};

fn standard(weight: u32, index: usize) -> VariantTileData {
    VariantTileData::new(weight, SimpleTileType::Standard(index))
}

fn rule_n() -> AutoTileRule {
    AutoTileRule {
        north: Some(true),
        ..Default::default()
    }
}

fn rule_ns() -> AutoTileRule {
    AutoTileRule {
        north: Some(true),
        south: Some(true),
        ..Default::default()
    }
}

/// Most specific first: north and south, then north, then a fallback.
fn table() -> Vec<AutoTileData> {
    vec![
        AutoTileData::new(rule_ns(), vec![standard(1, 10), standard(1, 11)]),
        AutoTileData::new(rule_n(), vec![standard(1, 20)]),
        AutoTileData::new(AutoTileRule::default_false(), vec![standard(1, 30)]),
    ]
}

#[test]
fn first_matching_entry_in_declaration_order() {
    let entries = table();
    let generated = rule_ns();
    let e = select_rule_entry(&entries, &generated, None).unwrap();
    assert_eq!(e.rule(), rule_ns());
    let generated = AutoTileRule {
        north: Some(true),
        east: Some(true),
        ..Default::default()
    };
    let e = select_rule_entry(&entries, &generated, None).unwrap();
    assert_eq!(e.rule(), rule_n());
}

#[test]
fn declaration_order_wins_over_specificity() {
    let entries = vec![
        AutoTileData::new(rule_n(), vec![standard(1, 1)]),
        AutoTileData::new(rule_ns(), vec![standard(1, 2)]),
    ];
    let e = select_rule_entry(&entries, &rule_ns(), None).unwrap();
    assert_eq!(e.rule(), rule_n());
}

#[test]
fn no_match_falls_back_to_last_entry() {
    let entries = vec![
        AutoTileData::new(rule_ns(), vec![standard(1, 1)]),
        AutoTileData::new(rule_n(), vec![standard(1, 2)]),
    ];
    let generated = AutoTileRule {
        east: Some(true),
        ..Default::default()
    };
    let e = select_rule_entry(&entries, &generated, None).unwrap();
    assert_eq!(e.rule(), rule_n());
    assert_eq!(e.variants()[0], standard(1, 2));
}

#[test]
fn explicit_entry_index() {
    let entries = table();
    let e = select_rule_entry(&entries, &AutoTileRule::default(), Some(1)).unwrap();
    assert_eq!(e.rule(), rule_n());
    assert_eq!(
        select_rule_entry(&entries, &AutoTileRule::default(), Some(3)).err(),
        Some(AutoTileError::IndexOutOfRange)
    );
}

#[test]
fn empty_rule_table() {
    let entries: Vec<AutoTileData> = Vec::new();
    assert_eq!(
        select_rule_entry(&entries, &rule_n(), None).err(),
        Some(AutoTileError::EmptyRuleTable)
    );
    assert_eq!(
        select_rule_entry(&entries, &rule_n(), Some(0)).err(),
        Some(AutoTileError::IndexOutOfRange)
    );
    assert!(!is_current_variant(&entries, 0, &rule_n()));
}

#[test]
fn explicit_variant_index() {
    let variants = vec![standard(1, 4), standard(0, 5)];
    assert_eq!(select_variant(&variants, Some(1)), Ok(standard(0, 5)));
    assert_eq!(select_variant(&variants, Some(2)), Err(AutoTileError::IndexOutOfRange));
}

#[test]
fn invalid_weights() {
    let zero = vec![standard(0, 4), standard(0, 5)];
    assert_eq!(select_variant(&zero, None), Err(AutoTileError::InvalidWeights));
    let none: Vec<VariantTileData> = Vec::new();
    assert_eq!(select_variant(&none, None), Err(AutoTileError::InvalidWeights));
}

#[test]
fn zero_weight_variants_are_never_drawn() {
    let variants = vec![standard(0, 4), standard(3, 5), standard(0, 6)];
    for _ in 0..200 {
        assert_eq!(select_variant(&variants, None), Ok(standard(3, 5)));
    }
}

#[test]
fn weighted_draw_reaches_each_positive_variant() {
    let variants = vec![standard(1, 4), standard(1, 5)];
    let mut seen = [false, false];
    for _ in 0..400 {
        match select_variant(&variants, None).unwrap().tile {
            SimpleTileType::Standard(4) => seen[0] = true,
            SimpleTileType::Standard(5) => seen[1] = true,
            other => panic!("unexpected variant {:?}", other),
        }
    }
    assert!(seen[0] && seen[1]);
}

#[test]
fn largest_weights_are_summed_without_overflow() {
    let variants = vec![standard(u32::MAX, 1), standard(u32::MAX, 2)];
    let v = select_variant(&variants, None).unwrap();
    assert!(v == standard(u32::MAX, 1) || v == standard(u32::MAX, 2));
}

#[test]
fn stability_keeps_current_variant() {
    let entries = table();
    // Index 11 is the second variant of the entry that north+south matches.
    assert!(is_current_variant(&entries, 11, &rule_ns()));
    assert!(is_current_variant(&entries, 10, &rule_ns()));
    assert_eq!(resolve_tile_index(&entries, 11, &rule_ns()), Ok(None));
    // Index 20 belongs to another entry.
    assert!(!is_current_variant(&entries, 20, &rule_ns()));
    let next = resolve_tile_index(&entries, 20, &rule_ns()).unwrap();
    assert!(next == Some(TileIndex::Standard(10)) || next == Some(TileIndex::Standard(11)));
}

#[test]
fn stability_uses_the_fallback_entry() {
    let entries = table();
    let generated = AutoTileRule {
        east: Some(true),
        ..Default::default()
    };
    // Nothing matches east alone but the all-false entry does not either: the
    // last entry is the one that counts.
    assert!(is_current_variant(&entries, 30, &generated));
    assert_eq!(resolve_tile_index(&entries, 30, &generated), Ok(None));
    assert_eq!(
        resolve_tile_index(&entries, 10, &generated),
        Ok(Some(TileIndex::Standard(30)))
    );
}

#[test]
fn stability_covers_animation_ranges() {
    let anim = AnimatedTileData::new(0x3f80_0000, 40, 43);
    let entries = vec![AutoTileData::new(
        AutoTileRule::default(),
        vec![VariantTileData::new(1, SimpleTileType::Animated(anim))],
    )];
    assert!(is_current_variant(&entries, 40, &rule_n()));
    assert!(is_current_variant(&entries, 42, &rule_n()));
    assert!(is_current_variant(&entries, 43, &rule_n()));
    assert!(!is_current_variant(&entries, 44, &rule_n()));
    assert!(!is_current_variant(&entries, 39, &rule_n()));
    assert_eq!(
        resolve_tile_index(&entries, 0, &rule_n()),
        Ok(Some(TileIndex::Animated(40, 43, 0x3f80_0000)))
    );
}

#[test]
fn select_auto_with_and_without_explicit_indices() {
    let entries = table();
    let id = PartialTileId {
        auto_index: Some(0),
        variant_index: Some(1),
        group_id: 0,
    };
    assert_eq!(
        select_auto(&entries, &AutoTileRule::default(), id),
        Ok(TileIndex::Standard(11))
    );
    let id = PartialTileId::new(0);
    assert_eq!(select_auto(&entries, &rule_n(), id), Ok(TileIndex::Standard(20)));
    let id = PartialTileId {
        auto_index: None,
        variant_index: Some(5),
        group_id: 0,
    };
    assert_eq!(
        select_auto(&entries, &rule_n(), id),
        Err(AutoTileError::IndexOutOfRange)
    );
    let zero = vec![AutoTileData::new(AutoTileRule::default(), vec![standard(0, 1)])];
    assert_eq!(
        select_auto(&zero, &rule_n(), PartialTileId::new(0)),
        Err(AutoTileError::InvalidWeights)
    );
}

#[test]
fn animated_payload_accessors() {
    let anim = AnimatedTileData::new(7, 3, 8);
    assert_eq!(anim.start(), 3);
    assert_eq!(anim.end(), 8);
    assert_eq!(anim.speed(), 7);
    assert_eq!(anim.frame_count(), 5);
    let tile = SimpleTileType::Animated(anim);
    assert!(tile.contains_index(&3));
    assert!(!tile.contains_index(&9));
    assert_eq!(tile.to_index(), TileIndex::Animated(3, 8, 7));
    assert_eq!(SimpleTileType::Standard(2).to_index(), TileIndex::Standard(2));
    let v = VariantTileData::new(4, tile);
    assert_eq!(v.weight(), 4);
    assert_eq!(*v.tile(), tile);
}

#[test]
fn tile_kinds_contain_index() {
    assert!(TileType::Standard(3).contains_index(&3));
    assert!(!TileType::Standard(3).contains_index(&4));
    assert!(TileType::Animated(AnimatedTileData::new(0, 5, 9)).contains_index(&7));
    let variants = TileType::Variant(vec![standard(1, 1), standard(1, 2)]);
    assert!(variants.contains_index(&2));
    assert!(!variants.contains_index(&3));
    let autos = TileType::Auto(table());
    assert!(autos.contains_index(&30));
    assert!(autos.contains_index(&11));
    assert!(!autos.contains_index(&12));
}

#[test]
fn tile_data_kind_checks() {
    let t = TileData::new(String::from("Grass"), TileType::Auto(table()));
    assert_eq!(t.name(), "Grass");
    assert!(t.is_auto());
    assert!(!t.is_standard());
    assert!(!t.is_animated());
    assert!(!t.is_variant());
    assert!(t.tile().contains_index(&20));
    let s = TileData::new(String::from("Stone"), TileType::Standard(1));
    assert!(s.is_standard());
}

#[test]
fn base_index_of_rendered_tiles() {
    assert_eq!(TileIndex::Standard(6).base_index(), 6);
    assert_eq!(TileIndex::Animated(12, 15, 0).base_index(), 12);
}
