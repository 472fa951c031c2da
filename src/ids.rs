//! Identifiers of tiles, tile groups and tilesets.
use vstd::prelude::*;

verus! {

/// The ID of a tileset.
pub type TilesetId = u8;

/// The ID of a tile group within a tileset.
pub type TileGroupId = u32;

/// Identifies a tile within a particular tileset.
#[derive(Debug, Clone, Copy, PartialEq, Eq, Structural, Hash)]
pub struct TileId {
    /// The index of a specific rule entry of an auto tile, if one is forced.
    pub auto_index: Option<usize>,
    /// The index of a specific variant, if one is forced.
    pub variant_index: Option<usize>,
    /// The tile group this tile belongs to.
    pub group_id: TileGroupId,
    /// The ID of the containing tileset.
    pub tileset_id: TilesetId,
}

/// Identifies a tile when its tileset is already known.
#[derive(Debug, Clone, Copy, PartialEq, Eq, Structural, Hash)]
pub struct PartialTileId {
    /// The index of a specific rule entry of an auto tile, if one is forced.
    pub auto_index: Option<usize>,
    /// The index of a specific variant, if one is forced.
    pub variant_index: Option<usize>,
    /// The tile group this tile belongs to.
    pub group_id: TileGroupId,
}

/// The group tag of an auto tile: two tiles can be neighbors only when their
/// tags are equal.
#[derive(Debug, Clone, Copy, PartialEq, Eq, Structural, Hash)]
pub struct AutoTileId {
    pub group_id: TileGroupId,
    pub tileset_id: TilesetId,
}

impl TileId {
    /// A tile ID with no forced rule entry or variant.
    pub fn new(group_id: TileGroupId, tileset_id: TilesetId) -> (r: Self)
        ensures
            r == (TileId { auto_index: None, variant_index: None, group_id, tileset_id }),
    {
        Self { auto_index: None, variant_index: None, group_id, tileset_id }
    }

    /// True when both IDs agree on variant, rule entry, group and tileset.
    pub fn eq_variant(&self, other: &TileId) -> (r: bool)
        ensures
            r == (*self == *other),
    {
        *self == *other
    }

    /// True when both IDs agree on rule entry, group and tileset.
    pub fn eq_auto(&self, other: &TileId) -> (r: bool)
        ensures
            r == (self.auto_index == other.auto_index && self.group_id == other.group_id
                && self.tileset_id == other.tileset_id),
    {
        self.auto_index == other.auto_index && self.eq_tile_group(other)
    }

    /// True when both IDs agree on group and tileset.
    pub fn eq_tile_group(&self, other: &TileId) -> (r: bool)
        ensures
            r == (self.group_id == other.group_id && self.tileset_id == other.tileset_id),
    {
        self.group_id == other.group_id && self.eq_tileset(other)
    }

    /// True when both IDs name the same tileset.
    pub fn eq_tileset(&self, other: &TileId) -> (r: bool)
        ensures
            r == (self.tileset_id == other.tileset_id),
    {
        self.tileset_id == other.tileset_id
    }

    /// Drops the tileset from this ID.
    pub fn partial(self) -> (r: PartialTileId)
        ensures
            r == (PartialTileId {
                auto_index: self.auto_index,
                variant_index: self.variant_index,
                group_id: self.group_id,
            }),
    {
        PartialTileId {
            auto_index: self.auto_index,
            variant_index: self.variant_index,
            group_id: self.group_id,
        }
    }
}

impl PartialTileId {
    /// A partial ID with no forced rule entry or variant.
    pub fn new(group_id: TileGroupId) -> (r: Self)
        ensures
            r == (PartialTileId { auto_index: None, variant_index: None, group_id }),
    {
        Self { auto_index: None, variant_index: None, group_id }
    }

    /// Completes this ID with a tileset.
    pub fn extend(self, tileset_id: TilesetId) -> (r: TileId)
        ensures
            r == (TileId {
                auto_index: self.auto_index,
                variant_index: self.variant_index,
                group_id: self.group_id,
                tileset_id,
            }),
    {
        TileId {
            auto_index: self.auto_index,
            variant_index: self.variant_index,
            group_id: self.group_id,
            tileset_id,
        }
    }
}

impl From<TileId> for AutoTileId {
    fn from(id: TileId) -> (r: Self) {
        AutoTileId { group_id: id.group_id, tileset_id: id.tileset_id }
    }
}

impl vstd::std_specs::convert::FromSpecImpl<TileId> for AutoTileId {
    open spec fn obeys_from_spec() -> bool {
        true
    }

    open spec fn from_spec(id: TileId) -> AutoTileId {
        AutoTileId { group_id: id.group_id, tileset_id: id.tileset_id }
    }
}

impl From<AutoTileId> for TileId {
    fn from(id: AutoTileId) -> (r: Self) {
        TileId::new(id.group_id, id.tileset_id)
    }
}

impl vstd::std_specs::convert::FromSpecImpl<AutoTileId> for TileId {
    open spec fn obeys_from_spec() -> bool {
        true
    }

    open spec fn from_spec(id: AutoTileId) -> TileId {
        TileId {
            auto_index: None,
            variant_index: None,
            group_id: id.group_id,
            tileset_id: id.tileset_id,
        }
    }
}

impl From<TileId> for PartialTileId {
    fn from(id: TileId) -> (r: Self) {
        id.partial()
    }
}

impl vstd::std_specs::convert::FromSpecImpl<TileId> for PartialTileId {
    open spec fn obeys_from_spec() -> bool {
        true
    }

    open spec fn from_spec(id: TileId) -> PartialTileId {
        PartialTileId {
            auto_index: id.auto_index,
            variant_index: id.variant_index,
            group_id: id.group_id,
        }
    }
}

impl From<TileGroupId> for PartialTileId {
    fn from(id: TileGroupId) -> (r: Self) {
        PartialTileId::new(id)
    }
}

impl vstd::std_specs::convert::FromSpecImpl<TileGroupId> for PartialTileId {
    open spec fn obeys_from_spec() -> bool {
        true
    }

    open spec fn from_spec(id: TileGroupId) -> PartialTileId {
        PartialTileId { auto_index: None, variant_index: None, group_id: id }
    }
}

} // verus!
