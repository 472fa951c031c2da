//! Auto-tile rule resolution: directional rules over 8-connected neighborhoods,
//! rule matching by an asymmetric subset relation, weighted variant selection,
//! and a depth-one resolution pass that emits deduplicated update requests.
pub mod auto_tiler;
pub mod coords;
pub mod ids;
pub mod rules;
pub mod select;
pub mod tiles;

pub use auto_tiler::{resolve, AutoTiler, AutoTilemap, SparseTilemap};
pub use coords::{
    generate_rule, neighbor_coordinates, AutoTileRequest, TileCoord, TileObject,
};
pub use ids::{AutoTileId, PartialTileId, TileGroupId, TileId, TilesetId};
pub use rules::AutoTileRule;
pub use select::{
    is_current_variant, resolve_tile_index, select_auto, select_rule_entry, select_variant,
    AutoTileError,
};
pub use tiles::{
    AnimatedTileData, AutoTileData, SimpleTileType, TileData, TileIndex, TileType, VariantTileData,
};
