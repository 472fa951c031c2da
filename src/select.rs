//! Choosing the rule entry that a generated rule selects, and a variant of it.
use vstd::prelude::*;

use crate::ids::PartialTileId;
use crate::rules::AutoTileRule;
use crate::tiles::{index_of, variants_cover, AutoTileData, TileIndex, VariantTileData};

verus! {

/// The failures of entry and variant selection.
#[derive(Debug, Clone, Copy, PartialEq, Eq, Structural, Hash)]
pub enum AutoTileError {
    /// An explicit rule entry or variant index does not exist.
    IndexOutOfRange,
    /// The weights cannot be sampled: their total is zero (or there are none),
    /// or it does not fit in 64 bits.
    InvalidWeights,
    /// There is no rule entry to fall back on.
    EmptyRuleTable,
}

/// Entry `i` is the first, in declaration order, whose rule is a subset of `rule`.
pub open spec fn is_first_match(entries: Seq<AutoTileData>, rule: AutoTileRule, i: int) -> bool {
    &&& 0 <= i < entries.len()
    &&& entries[i].rule.subset_of(rule)
    &&& forall|j: int| 0 <= j < i ==> !(#[trigger] entries[j].rule).subset_of(rule)
}

/// The entry that matching selects for `rule`: the first whose rule is a
/// subset of `rule`, or else the last one declared.
pub open spec fn matched_index(entries: Seq<AutoTileData>, rule: AutoTileRule) -> int {
    if exists|i: int| is_first_match(entries, rule, i) {
        choose|i: int| is_first_match(entries, rule, i)
    } else {
        entries.len() - 1
    }
}

/// The entry that selection returns: the explicit one if given, else the matched one.
pub open spec fn selected_index(
    entries: Seq<AutoTileData>,
    rule: AutoTileRule,
    auto_index: Option<usize>,
) -> int {
    match auto_index {
        Some(i) => i as int,
        None => matched_index(entries, rule),
    }
}

/// Why entry selection fails, if it does.
pub open spec fn entry_error(n: nat, auto_index: Option<usize>) -> Option<AutoTileError> {
    match auto_index {
        Some(i) => if i < n {
            None
        } else {
            Some(AutoTileError::IndexOutOfRange)
        },
        None => if n > 0 {
            None
        } else {
            Some(AutoTileError::EmptyRuleTable)
        },
    }
}

/// The sum of the weights of `variants`.
pub open spec fn total_weight(variants: Seq<VariantTileData>) -> int
    decreases variants.len(),
{
    if variants.len() == 0 {
        0
    } else {
        total_weight(variants.drop_last()) + variants.last().weight
    }
}

/// The sum of a sequence of 64-bit weights.
pub open spec fn weight_sum(weights: Seq<u64>) -> int
    decreases weights.len(),
{
    if weights.len() == 0 {
        0
    } else {
        weight_sum(weights.drop_last()) + weights.last()
    }
}

/// Why variant selection fails, if it does.
pub open spec fn variant_error(variants: Seq<VariantTileData>, variant_index: Option<usize>) -> Option<
    AutoTileError,
> {
    match variant_index {
        Some(i) => if i < variants.len() {
            None
        } else {
            Some(AutoTileError::IndexOutOfRange)
        },
        None => if 0 < total_weight(variants) <= u64::MAX {
            None
        } else {
            Some(AutoTileError::InvalidWeights)
        },
    }
}

/// Whether `v` is an outcome that variant selection may give: the explicit
/// variant if one is given, else some variant of positive weight.
pub open spec fn may_select(
    variants: Seq<VariantTileData>,
    variant_index: Option<usize>,
    v: VariantTileData,
) -> bool {
    match variant_index {
        Some(i) => v == variants[i as int],
        None => exists|j: int|
            0 <= j < variants.len() && (#[trigger] variants[j]).weight > 0 && variants[j] == v,
    }
}

/// Whether `index` is already shown by the entry that `rule` matches.
pub open spec fn current_variant(entries: Seq<AutoTileData>, index: usize, rule: AutoTileRule) -> bool {
    entries.len() > 0 && variants_cover(entries[matched_index(entries, rule)].variants@, index)
}

proof fn lemma_first_match_is_matched(entries: Seq<AutoTileData>, rule: AutoTileRule, i: int)
    requires
        is_first_match(entries, rule, i),
    ensures
        matched_index(entries, rule) == i,
{
    let k = choose|k: int| is_first_match(entries, rule, k);
    assert(is_first_match(entries, rule, k));
    if k < i {
        assert(!entries[k].rule.subset_of(rule));
    } else if k > i {
        assert(!entries[i].rule.subset_of(rule));
    }
}

proof fn lemma_weight_sum_step(weights: Seq<u64>, variants: Seq<VariantTileData>, i: int)
    requires
        0 <= i < variants.len(),
        weights.len() == i,
        weight_sum(weights) == total_weight(variants.take(i)),
    ensures
        weight_sum(weights.push(variants[i].weight as u64)) == total_weight(variants.take(i + 1)),
        weight_sum(weights.push(variants[i].weight as u64)) == weight_sum(weights)
            + variants[i].weight,
{
    assert(weights.push(variants[i].weight as u64).drop_last() =~= weights);
    assert(variants.take(i + 1).drop_last() =~= variants.take(i));
}

/// Relies on rand's `WeightedIndex::new` (an error when there is no weight or
/// the total is zero; the running total never exceeds the stated sum) and its
/// `Distribution::sample`, drawn from `thread_rng`, which picks an index whose
/// weight is positive.
#[verifier::external_body]
fn draw_weighted_index(weights: &Vec<u64>) -> (r: Option<usize>)
    requires
        weight_sum(weights@) <= u64::MAX,
    ensures
        r is Some <==> (weights@.len() > 0 && weight_sum(weights@) > 0),
        r is Some ==> r->Some_0 < weights@.len() && weights@[r->Some_0 as int] > 0,
{
    match rand::distributions::WeightedIndex::new(weights) {
        Ok(dist) => Some(rand::distributions::Distribution::sample(&dist, &mut rand::thread_rng())),
        Err(_) => None,
    }
}

/// Selects the rule entry for `rule`.
///
/// With an explicit index, that entry is returned, or `IndexOutOfRange`.
/// Otherwise the entries are scanned in declaration order and the first whose
/// rule is a subset of `rule` is returned; when none matches, the last entry
/// is the fallback.
pub fn select_rule_entry<'a>(
    entries: &'a [AutoTileData],
    rule: &AutoTileRule,
    auto_index: Option<usize>,
) -> (r: Result<&'a AutoTileData, AutoTileError>)
    ensures
        match entry_error(entries@.len(), auto_index) {
            Some(e) => r == Err::<&AutoTileData, AutoTileError>(e),
            None => r is Ok && *r->Ok_0 == entries@[selected_index(entries@, *rule, auto_index)],
        },
        auto_index is None && entries@.len() > 0 && (forall|i: int|
            0 <= i < entries@.len() ==> !(#[trigger] entries@[i].rule).subset_of(*rule)) ==> r is Ok
            && *r->Ok_0 == entries@[entries@.len() - 1],
{
    match auto_index {
        Some(i) => {
            if i < entries.len() {
                Ok(&entries[i])
            } else {
                Err(AutoTileError::IndexOutOfRange)
            }
        },
        None => {
            let k = matching_entry(entries, rule);
            match k {
                Some(k) => Ok(&entries[k]),
                None => Err(AutoTileError::EmptyRuleTable),
            }
        },
    }
}

/// The index of the entry that matching selects for `rule`, if there is any entry.
fn matching_entry(entries: &[AutoTileData], rule: &AutoTileRule) -> (r: Option<usize>)
    ensures
        entries@.len() == 0 ==> r is None,
        entries@.len() > 0 ==> r is Some && r->Some_0 == matched_index(entries@, *rule),
{
    let mut i: usize = 0;
    while i < entries.len()
        invariant
            i <= entries@.len(),
            forall|j: int| 0 <= j < i ==> !(#[trigger] entries@[j].rule).subset_of(*rule),
        decreases entries@.len() - i,
    {
        if entries[i].rule.is_subset_of(rule) {
            proof {
                lemma_first_match_is_matched(entries@, *rule, i as int);
            }
            return Some(i);
        }
        i = i + 1;
    }
    if entries.len() == 0 {
        None
    } else {
        assert(!exists|i: int| is_first_match(entries@, *rule, i));
        Some(entries.len() - 1)
    }
}

/// Checks whether the texture index `index` already belongs to the entry that
/// `rule` matches, by the same matching as `select_rule_entry`.
///
/// A tile whose shown variant belongs to that entry keeps it, so that a
/// re-resolution does not flicker between variants of one entry.
pub fn is_current_variant(entries: &[AutoTileData], index: usize, rule: &AutoTileRule) -> (r: bool)
    ensures
        r == current_variant(entries@, index, *rule),
{
    match matching_entry(entries, rule) {
        Some(k) => entries[k].contains_index(&index),
        None => false,
    }
}

/// Selects a variant.
///
/// With an explicit index, that variant is returned, or `IndexOutOfRange`.
/// Otherwise a variant is drawn at random with a chance proportional to its
/// weight; a set whose total weight is zero is `InvalidWeights`.
pub fn select_variant(variants: &[VariantTileData], variant_index: Option<usize>) -> (r: Result<
    VariantTileData,
    AutoTileError,
>)
    ensures
        match variant_error(variants@, variant_index) {
            Some(e) => r == Err::<VariantTileData, AutoTileError>(e),
            None => r is Ok && may_select(variants@, variant_index, r->Ok_0),
        },
{
    match variant_index {
        Some(i) => {
            if i < variants.len() {
                Ok(variants[i])
            } else {
                Err(AutoTileError::IndexOutOfRange)
            }
        },
        None => {
            let mut weights: Vec<u64> = Vec::with_capacity(variants.len());
            let mut total: u64 = 0;
            let mut i: usize = 0;
            while i < variants.len()
                invariant
                    variant_index is None,
                    i <= variants@.len(),
                    weights@.len() == i,
                    forall|j: int| 0 <= j < i ==> weights@[j] == (#[trigger] variants@[j]).weight,
                    weight_sum(weights@) == total_weight(variants@.take(i as int)),
                    total == weight_sum(weights@),
                decreases variants@.len() - i,
            {
                let w = variants[i].weight as u64;
                proof {
                    lemma_weight_sum_step(weights@, variants@, i as int);
                }
                match total.checked_add(w) {
                    Some(t) => total = t,
                    None => {
                        proof {
                            lemma_total_weight_above(variants@, i as int + 1);
                        }
                        return Err(AutoTileError::InvalidWeights);
                    },
                }
                weights.push(w);
                i = i + 1;
            }
            assert(variants@.take(variants@.len() as int) =~= variants@);
            if total == 0 {
                return Err(AutoTileError::InvalidWeights);
            }
            match draw_weighted_index(&weights) {
                Some(k) => Ok(variants[k]),
                None => Err(AutoTileError::InvalidWeights),
            }
        },
    }
}

proof fn lemma_total_weight_above(variants: Seq<VariantTileData>, i: int)
    requires
        0 <= i <= variants.len(),
    ensures
        total_weight(variants) >= total_weight(variants.take(i)),
    decreases variants.len(),
{
    if i < variants.len() {
        assert(variants.drop_last().take(i) =~= variants.take(i));
        lemma_total_weight_above(variants.drop_last(), i);
    } else {
        assert(variants.take(i) =~= variants);
    }
}

/// Selects the rendered index for `rule`: the entry as `select_rule_entry`
/// does, with `id.auto_index` as the explicit entry, then a variant of it as
/// `select_variant` does, with `id.variant_index` as the explicit variant.
pub fn select_auto(entries: &[AutoTileData], rule: &AutoTileRule, id: PartialTileId) -> (r: Result<
    TileIndex,
    AutoTileError,
>)
    ensures
        match entry_error(entries@.len(), id.auto_index) {
            Some(e) => r == Err::<TileIndex, AutoTileError>(e),
            None => {
                let vs = entries@[selected_index(entries@, *rule, id.auto_index)].variants@;
                match variant_error(vs, id.variant_index) {
                    Some(e) => r == Err::<TileIndex, AutoTileError>(e),
                    None => exists|v: VariantTileData|
                        may_select(vs, id.variant_index, v) && r == Ok::<
                            TileIndex,
                            AutoTileError,
                        >(#[trigger] index_of(v.tile)),
                }
            },
        },
{
    let entry = select_rule_entry(entries, rule, id.auto_index)?;
    let variant = select_variant(entry.variants.as_slice(), id.variant_index)?;
    Ok(variant.tile.to_index())
}

/// Decides how a tile that shows texture index `current_index` is updated for
/// a freshly generated `rule`: `None` keeps what it shows, because that
/// already belongs to the matched entry; otherwise the newly selected index.
pub fn resolve_tile_index(entries: &[AutoTileData], current_index: usize, rule: &AutoTileRule) -> (r:
    Result<Option<TileIndex>, AutoTileError>)
    ensures
        current_variant(entries@, current_index, *rule) ==> r == Ok::<
            Option<TileIndex>,
            AutoTileError,
        >(None),
        !current_variant(entries@, current_index, *rule) ==> match entry_error(
            entries@.len(),
            None,
        ) {
            Some(e) => r == Err::<Option<TileIndex>, AutoTileError>(e),
            None => {
                let vs = entries@[matched_index(entries@, *rule)].variants@;
                match variant_error(vs, None) {
                    Some(e) => r == Err::<Option<TileIndex>, AutoTileError>(e),
                    None => exists|v: VariantTileData|
                        may_select(vs, None, v) && r == Ok::<Option<TileIndex>, AutoTileError>(
                            Some(#[trigger] index_of(v.tile)),
                        ),
                }
            },
        },
{
    if is_current_variant(entries, current_index, rule) {
        return Ok(None);
    }
    let entry = select_rule_entry(entries, rule, None)?;
    let variant = select_variant(entry.variants.as_slice(), None)?;
    Ok(Some(variant.tile.to_index()))
}

} // verus!
