//! Tile payloads: static and animated texture indices, weighted variants and
//! the rule entries of an auto tile.
use vstd::prelude::*;

use crate::rules::AutoTileRule;

verus! {

/// A frame-based animation over an inclusive range of texture indices.
#[derive(Debug, Clone, Copy, PartialEq, Eq, Structural, Hash)]
pub struct AnimatedTileData {
    /// The IEEE-754 bit pattern of the animation speed.
    pub speed_bits: u32,
    /// The first texture index of the animation (inclusive).
    pub start: usize,
    /// The last texture index of the animation (inclusive).
    pub end: usize,
}

/// A payload that a variant can render.
#[derive(Debug, Clone, Copy, PartialEq, Eq, Structural, Hash)]
pub enum SimpleTileType {
    Standard(usize),
    Animated(AnimatedTileData),
}

/// A payload with its weight for random selection.
#[derive(Debug, Clone, Copy, PartialEq, Eq, Structural, Hash)]
pub struct VariantTileData {
    /// The weight of this variant: its chance is proportional to it.
    pub weight: u32,
    /// The payload.
    pub tile: SimpleTileType,
}

/// One declared entry of an auto tile: a rule and the variants it selects.
#[derive(Debug, Clone)]
pub struct AutoTileData {
    pub rule: AutoTileRule,
    pub variants: Vec<VariantTileData>,
}

/// What a host renders: a static texture index or an animation.
#[derive(Debug, Clone, Copy, PartialEq, Eq, Structural, Hash)]
pub enum TileIndex {
    Standard(usize),
    /// First index, last index (both inclusive) and the speed's bit pattern.
    Animated(usize, usize, u32),
}

/// The kinds of tile a tileset defines.
#[derive(Debug, Clone)]
pub enum TileType {
    /// A single texture.
    Standard(usize),
    /// A frame-based animation.
    Animated(AnimatedTileData),
    /// Variants to sample at random.
    Variant(Vec<VariantTileData>),
    /// Rule entries of an auto tile, most specific first.
    Auto(Vec<AutoTileData>),
}

/// A named tile of a tileset.
#[derive(Debug, Clone)]
pub struct TileData {
    name: String,
    tile: TileType,
}

/// Whether a payload covers the texture index `index`.
pub open spec fn covers_index(tile: SimpleTileType, index: usize) -> bool {
    match tile {
        SimpleTileType::Standard(i) => i == index,
        SimpleTileType::Animated(a) => a.start <= index && index <= a.end,
    }
}

/// The rendered form of a payload.
pub open spec fn index_of(tile: SimpleTileType) -> TileIndex {
    match tile {
        SimpleTileType::Standard(i) => TileIndex::Standard(i),
        SimpleTileType::Animated(a) => TileIndex::Animated(a.start, a.end, a.speed_bits),
    }
}

/// Whether some variant of `variants` covers the texture index `index`.
pub open spec fn variants_cover(variants: Seq<VariantTileData>, index: usize) -> bool {
    exists|j: int| 0 <= j < variants.len() && covers_index(#[trigger] variants[j].tile, index)
}

/// Whether some variant of some entry of `autos` covers the texture index `index`.
pub open spec fn entries_cover(autos: Seq<AutoTileData>, index: usize) -> bool {
    exists|k: int| 0 <= k < autos.len() && variants_cover((#[trigger] autos[k]).variants@, index)
}

/// Whether a tile of any kind covers the texture index `index`.
pub open spec fn tile_covers(tile: TileType, index: usize) -> bool {
    match tile {
        TileType::Standard(i) => i == index,
        TileType::Animated(a) => a.start <= index && index <= a.end,
        TileType::Variant(vs) => variants_cover(vs@, index),
        TileType::Auto(autos) => entries_cover(autos@, index),
    }
}

impl AnimatedTileData {
    pub fn new(speed_bits: u32, start: usize, end: usize) -> (r: Self)
        ensures
            r == (AnimatedTileData { speed_bits, start, end }),
    {
        Self { speed_bits, start, end }
    }

    /// The first texture index (inclusive).
    pub fn start(&self) -> (r: usize)
        ensures
            r == self.start,
    {
        self.start
    }

    /// The last texture index (inclusive).
    pub fn end(&self) -> (r: usize)
        ensures
            r == self.end,
    {
        self.end
    }

    /// The bit pattern of the animation speed.
    pub fn speed(&self) -> (r: u32)
        ensures
            r == self.speed_bits,
    {
        self.speed_bits
    }

    /// The distance from the first to the last frame index.
    pub fn frame_count(&self) -> (r: usize)
        requires
            self.start <= self.end,
        ensures
            r == self.end - self.start,
    {
        self.end - self.start
    }
}

impl SimpleTileType {
    /// Checks whether this payload covers the texture index `index`.
    pub fn contains_index(&self, index: &usize) -> (r: bool)
        ensures
            r == covers_index(*self, *index),
    {
        match self {
            SimpleTileType::Standard(idx) => *idx == *index,
            SimpleTileType::Animated(anim) => anim.start <= *index && *index <= anim.end,
        }
    }

    /// The rendered form of this payload.
    pub fn to_index(&self) -> (r: TileIndex)
        ensures
            r == index_of(*self),
    {
        match self {
            SimpleTileType::Standard(idx) => TileIndex::Standard(*idx),
            SimpleTileType::Animated(anim) => TileIndex::Animated(
                anim.start,
                anim.end,
                anim.speed_bits,
            ),
        }
    }
}

impl TileIndex {
    /// The texture index a host shows: the index of a static tile, the first
    /// frame of an animation.
    pub fn base_index(&self) -> (r: usize)
        ensures
            r == match *self {
                TileIndex::Standard(i) => i,
                TileIndex::Animated(start, _, _) => start,
            },
    {
        match self {
            TileIndex::Standard(idx) => *idx,
            TileIndex::Animated(start, _, _) => *start,
        }
    }
}

impl VariantTileData {
    pub fn new(weight: u32, tile: SimpleTileType) -> (r: Self)
        ensures
            r == (VariantTileData { weight, tile }),
    {
        Self { weight, tile }
    }

    /// The weight of this variant.
    pub fn weight(&self) -> (r: u32)
        ensures
            r == self.weight,
    {
        self.weight
    }

    /// The payload of this variant.
    pub fn tile(&self) -> (r: &SimpleTileType)
        ensures
            *r == self.tile,
    {
        &self.tile
    }
}

impl AutoTileData {
    pub fn new(rule: AutoTileRule, variants: Vec<VariantTileData>) -> (r: Self)
        ensures
            r.rule == rule,
            r.variants@ == variants@,
    {
        AutoTileData { rule, variants }
    }

    /// The rule of this entry.
    pub fn rule(&self) -> (r: AutoTileRule)
        ensures
            r == self.rule,
    {
        self.rule
    }

    /// The variants of this entry, in declaration order.
    pub fn variants(&self) -> (r: &Vec<VariantTileData>)
        ensures
            r@ == self.variants@,
    {
        &self.variants
    }

    /// Checks whether some variant of this entry covers the texture index `index`.
    pub fn contains_index(&self, index: &usize) -> (r: bool)
        ensures
            r == variants_cover(self.variants@, *index),
    {
        let mut j: usize = 0;
        while j < self.variants.len()
            invariant
                j <= self.variants@.len(),
                forall|k: int| 0 <= k < j ==> !covers_index(#[trigger] self.variants@[k].tile, *index),
            decreases self.variants@.len() - j,
        {
            if self.variants[j].tile.contains_index(index) {
                return true;
            }
            j = j + 1;
        }
        false
    }
}

impl TileType {
    /// Checks whether the texture index `index` belongs to this tile.
    pub fn contains_index(&self, index: &usize) -> (r: bool)
        ensures
            r == tile_covers(*self, *index),
    {
        match self {
            TileType::Standard(idx) => *idx == *index,
            TileType::Animated(anim) => anim.start <= *index && *index <= anim.end,
            TileType::Variant(variants) => {
                let mut j: usize = 0;
                while j < variants.len()
                    invariant
                        tile_covers(*self, *index) == variants_cover(variants@, *index),
                        j <= variants@.len(),
                        forall|k: int|
                            0 <= k < j ==> !covers_index(#[trigger] variants@[k].tile, *index),
                    decreases variants@.len() - j,
                {
                    if variants[j].tile.contains_index(index) {
                        return true;
                    }
                    j = j + 1;
                }
                false
            },
            TileType::Auto(autos) => {
                let mut k: usize = 0;
                while k < autos.len()
                    invariant
                        tile_covers(*self, *index) == entries_cover(autos@, *index),
                        k <= autos@.len(),
                        forall|m: int|
                            0 <= m < k ==> !variants_cover((#[trigger] autos@[m]).variants@, *index),
                    decreases autos@.len() - k,
                {
                    if autos[k].contains_index(index) {
                        return true;
                    }
                    k = k + 1;
                }
                false
            },
        }
    }
}

impl TileData {
    pub fn new(name: String, tile: TileType) -> (r: Self)
        ensures
            r.label() == name@,
            r.kind() == tile,
    {
        TileData { name, tile }
    }

    /// The kind of this tile.
    pub closed spec fn kind(&self) -> TileType {
        self.tile
    }

    /// The name of this tile.
    pub closed spec fn label(&self) -> Seq<char> {
        self.name@
    }

    /// The name of this tile.
    pub fn name(&self) -> (r: &str)
        ensures
            r@ == self.label(),
    {
        self.name.as_str()
    }

    /// The kind of this tile.
    pub fn tile(&self) -> (r: &TileType)
        ensures
            *r == self.kind(),
    {
        &self.tile
    }

    pub fn is_standard(&self) -> (r: bool)
        ensures
            r == self.kind() is Standard,
    {
        matches!(self.tile, TileType::Standard(..))
    }

    pub fn is_animated(&self) -> (r: bool)
        ensures
            r == self.kind() is Animated,
    {
        matches!(self.tile, TileType::Animated(..))
    }

    pub fn is_variant(&self) -> (r: bool)
        ensures
            r == self.kind() is Variant,
    {
        matches!(self.tile, TileType::Variant(..))
    }

    pub fn is_auto(&self) -> (r: bool)
        ensures
            r == self.kind() is Auto,
    {
        matches!(self.tile, TileType::Auto(..))
    }
}

} // verus!
