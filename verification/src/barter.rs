//! Trading: item values, offer evaluation and faction price modifiers.
use vstd::prelude::*;
use crate::reputation::{FactionReputation, ReputationRank, rank_of};
use crate::tags::{TagRegistry, Tags};

verus! {

/// An item stack offered or requested in a trade.
#[derive(Debug, PartialEq)]
pub struct BarterItem {
    pub name: String,
    pub quantity: u32,
    pub base_value: u32,
}

impl Clone for BarterItem {
    fn clone(&self) -> (r: Self)
        ensures
            r == *self,
    {
        BarterItem { name: self.name.clone(), quantity: self.quantity, base_value: self.base_value }
    }
}

/// What one side gives and what it asks for.
#[derive(Debug, PartialEq)]
pub struct BarterOffer {
    pub offered: Vec<BarterItem>,
    pub requested: Vec<BarterItem>,
}

impl Clone for BarterOffer {
    fn clone(&self) -> (r: Self)
        ensures
            r.offered@ == self.offered@,
            r.requested@ == self.requested@,
    {
        let offered = self.offered.clone();
        let requested = self.requested.clone();
        assert(offered@ =~= self.offered@);
        assert(requested@ =~= self.requested@);
        BarterOffer { offered, requested }
    }
}

/// The outcome of a trade.
#[derive(Debug, PartialEq)]
pub struct BarterResult {
    pub accepted: bool,
    pub exchanged_items: Vec<BarterItem>,
    pub received_items: Vec<BarterItem>,
    pub value_delta: i64,
}

impl Clone for BarterResult {
    fn clone(&self) -> (r: Self)
        ensures
            r.accepted == self.accepted,
            r.exchanged_items@ == self.exchanged_items@,
            r.received_items@ == self.received_items@,
            r.value_delta == self.value_delta,
    {
        let exchanged_items = self.exchanged_items.clone();
        let received_items = self.received_items.clone();
        assert(exchanged_items@ =~= self.exchanged_items@);
        assert(received_items@ =~= self.received_items@);
        BarterResult { accepted: self.accepted, exchanged_items, received_items, value_delta: self.value_delta }
    }
}

/// Total value of item stacks: the sum of base value times quantity.
pub open spec fn total_value(items: Seq<BarterItem>) -> int
    decreases items.len(),
{
    if items.len() == 0 {
        0
    } else {
        total_value(items.drop_last()) + items.last().base_value * items.last().quantity
    }
}

/// The price after a faction's standing is applied: Hostile and Unfriendly pay double
/// (saturating), Friendly get 15% off, Honored and Exalted 30% off (rounded down).
pub open spec fn modified_price(base: u32, rank: ReputationRank) -> int {
    match rank {
        ReputationRank::Hostile | ReputationRank::Unfriendly => if 2 * base > u32::MAX { u32::MAX as int } else { 2 * base },
        ReputationRank::Friendly => (base * 85) / 100,
        ReputationRank::Honored | ReputationRank::Exalted => (base * 70) / 100,
        ReputationRank::Neutral => base as int,
    }
}

/// Applies the faction price modifier; without reputation data the price is unchanged.
pub fn apply_faction_price_modifier(
    base_price: u32,
    faction_name: &str,
    reputation: Option<&FactionReputation>,
) -> (r: u32)
    ensures
        r == (match reputation {
            Some(rep) => modified_price(base_price, rank_of(rep.standing(faction_name@))),
            None => base_price as int,
        }),
{
    match reputation {
        Some(rep) => match rep.rank(faction_name) {
            ReputationRank::Hostile | ReputationRank::Unfriendly => {
                if base_price > u32::MAX / 2 { u32::MAX } else { base_price * 2 }
            },
            ReputationRank::Friendly => ((base_price as u64 * 85) / 100) as u32,
            ReputationRank::Honored | ReputationRank::Exalted => ((base_price as u64 * 70) / 100) as u32,
            ReputationRank::Neutral => base_price,
        },
        None => base_price,
    }
}

/// The quality tag names, from lowest to highest.
pub open spec fn quality_name(k: int) -> Seq<char> {
    if k == 0 { "COMMON"@ } else if k == 1 { "UNCOMMON"@ } else if k == 2 { "RARE"@ }
    else if k == 3 { "EPIC"@ } else { "LEGENDARY"@ }
}

/// The multiplier of quality tag `k` when the item carries it and it has one.
pub open spec fn quality_hit(reg: TagRegistry, tags: Seq<bool>, k: int) -> Option<u32> {
    match reg.id_of(quality_name(k)) {
        Some(id) => if 0 <= id < tags.len() && tags[id as int] { reg.defs@[id as int].multiplier } else { None },
        None => None,
    }
}

/// Trade multiplier over the first `k` quality tags: the highest quality carried
/// (with a multiplier) wins; 1 when none.
pub open spec fn trade_multiplier(reg: TagRegistry, tags: Seq<bool>, k: int) -> u32
    decreases k,
{
    if k <= 0 {
        1
    } else {
        match quality_hit(reg, tags, k - 1) {
            Some(m) => m,
            None => trade_multiplier(reg, tags, k - 1),
        }
    }
}

/// `a * b`, saturating at `u32::MAX`.
pub open spec fn sat_mul(a: int, b: int) -> int {
    if a * b > u32::MAX { u32::MAX as int } else { a * b }
}

pub fn saturating_mul_u32(a: u32, b: u32) -> (r: u32)
    ensures
        r == sat_mul(a as int, b as int),
{
    assert(a as int * b as int <= u32::MAX as int * u32::MAX as int) by (nonlinear_arith)
        requires a <= u32::MAX, b <= u32::MAX, a >= 0, b >= 0;
    let p: u64 = a as u64 * b as u64;
    if p > u32::MAX as u64 { u32::MAX } else { p as u32 }
}

fn quality_lookup(k: usize, tags: &Tags, reg: &TagRegistry) -> (r: Option<u32>)
    requires
        k < 5,
    ensures
        r == quality_hit(*reg, tags.present@, k as int),
{
    let name = if k == 0 { "COMMON" } else if k == 1 { "UNCOMMON" } else if k == 2 { "RARE" }
        else if k == 3 { "EPIC" } else { "LEGENDARY" };
    match reg.tag_id(name) {
        Some(id) => if tags.has(id) { reg.tag_by_id(id).multiplier } else { None },
        None => None,
    }
}

/// Value of an item stack: base value times the trade multiplier (when tags and a
/// registry are given) times quantity, each product saturating.
pub fn value_of_item(item: &BarterItem, entity_tags: Option<&Tags>, tag_registry: Option<&TagRegistry>) -> (r: u32)
    ensures
        r == sat_mul(
            sat_mul(item.base_value as int, (match (entity_tags, tag_registry) {
                (Some(t), Some(g)) => trade_multiplier(*g, t.present@, 5),
                _ => 1u32,
            }) as int),
            item.quantity as int,
        ),
{
    let mult: u32 = match (entity_tags, tag_registry) {
        (Some(tags), Some(reg)) => {
            let mut m: u32 = 1;
            let mut k: usize = 0;
            while k < 5
                invariant
                    k <= 5,
                    m == trade_multiplier(*reg, tags.present@, k as int),
                decreases 5 - k,
            {
                if let Some(x) = quality_lookup(k, tags, reg) {
                    m = x;
                }
                k = k + 1;
            }
            m
        },
        _ => 1,
    };
    saturating_mul_u32(saturating_mul_u32(item.base_value, mult), item.quantity)
}

fn sum_values(items: &Vec<BarterItem>) -> (r: u64)
    requires
        total_value(items@) <= i64::MAX,
    ensures
        r == total_value(items@),
{
    let mut total: u64 = 0;
    let mut i: usize = 0;
    while i < items.len()
        invariant
            i <= items@.len(),
            total == total_value(items@.subrange(0, i as int)),
            total_value(items@) <= i64::MAX,
        decreases items.len() - i,
    {
        proof {
            assert(items@.subrange(0, i + 1).drop_last() =~= items@.subrange(0, i as int));
            lemma_total_prefix(items@, i + 1);
        }
        let bv = items[i].base_value as u64;
        let q = items[i].quantity as u64;
        assert(bv * q <= u32::MAX as int * u32::MAX as int) by (nonlinear_arith)
            requires bv <= u32::MAX, q <= u32::MAX, bv >= 0, q >= 0;
        total = total + bv * q;
        i = i + 1;
    }
    assert(items@.subrange(0, items@.len() as int) =~= items@);
    total
}

/// Totals of prefixes never exceed the whole total.
pub proof fn lemma_total_prefix(items: Seq<BarterItem>, k: int)
    requires
        0 <= k <= items.len(),
    ensures
        0 <= total_value(items.subrange(0, k)) <= total_value(items),
    decreases items.len() - k,
{
    lemma_total_nonneg(items.subrange(0, k));
    if k < items.len() {
        lemma_total_prefix(items, k + 1);
        assert(items.subrange(0, k + 1).drop_last() =~= items.subrange(0, k));
        assert(items.subrange(0, k + 1).last().base_value * items.subrange(0, k + 1).last().quantity >= 0) by (nonlinear_arith)
            requires items.subrange(0, k + 1).last().base_value >= 0, items.subrange(0, k + 1).last().quantity >= 0;
    } else {
        assert(items.subrange(0, k) =~= items);
    }
}

pub proof fn lemma_total_nonneg(items: Seq<BarterItem>)
    ensures
        total_value(items) >= 0,
    decreases items.len(),
{
    if items.len() > 0 {
        lemma_total_nonneg(items.drop_last());
        assert(items.last().base_value * items.last().quantity >= 0) by (nonlinear_arith)
            requires items.last().base_value >= 0, items.last().quantity >= 0;
    }
}

/// Net value of an offer to the receiving side: what is offered minus what is requested.
pub fn evaluate_offer(offer: &BarterOffer) -> (r: i64)
    requires
        total_value(offer.offered@) <= i64::MAX,
        total_value(offer.requested@) <= i64::MAX,
    ensures
        r == total_value(offer.offered@) - total_value(offer.requested@),
{
    proof {
        lemma_total_nonneg(offer.offered@);
        lemma_total_nonneg(offer.requested@);
    }
    let offered_value = sum_values(&offer.offered);
    let requested_value = sum_values(&offer.requested);
    offered_value as i64 - requested_value as i64
}

/// Resolves a trade: it goes through exactly when the offer is worth at least what is
/// requested; then the offered and requested stacks change hands.
pub fn resolve_barter(
    offer: &BarterOffer,
    _tags_a: Option<&Tags>,
    _tags_b: Option<&Tags>,
    _registry: Option<&TagRegistry>,
) -> (r: BarterResult)
    requires
        total_value(offer.offered@) <= i64::MAX,
        total_value(offer.requested@) <= i64::MAX,
    ensures
        r.value_delta == total_value(offer.offered@) - total_value(offer.requested@),
        r.accepted == (r.value_delta >= 0),
        r.exchanged_items@ == (if r.accepted { offer.offered@ } else { Seq::<BarterItem>::empty() }),
        r.received_items@ == (if r.accepted { offer.requested@ } else { Seq::<BarterItem>::empty() }),
{
    let value_delta = evaluate_offer(offer);
    let accepted = value_delta >= 0;
    let exchanged_items = if accepted { offer.offered.clone() } else { Vec::new() };
    let received_items = if accepted { offer.requested.clone() } else { Vec::new() };
    assert(accepted ==> exchanged_items@ =~= offer.offered@);
    assert(accepted ==> received_items@ =~= offer.requested@);
    BarterResult { accepted, exchanged_items, received_items, value_delta }
}

/// A trade is accepted exactly when the offered value covers the requested value.
pub proof fn law_trade_fairness(offered: Seq<BarterItem>, requested: Seq<BarterItem>)
    ensures
        (total_value(offered) - total_value(requested) >= 0) == (total_value(offered) >= total_value(requested)),
{
}


/// The price table: hostile and unfriendly factions pay double (capped at the largest `u32`),
/// neutral ones the base price, friendly ones 85% and honored or exalted ones 70% (rounded
/// down); so the worse the standing, the higher the price.
pub proof fn law_price_by_rank(base: u32)
    ensures
        modified_price(base, ReputationRank::Hostile) == if base as int * 2 <= 0xffff_ffff { base as int * 2 } else { 0xffff_ffff },
        modified_price(base, ReputationRank::Unfriendly) == if base as int * 2 <= 0xffff_ffff { base as int * 2 } else { 0xffff_ffff },
        modified_price(base, ReputationRank::Neutral) == base as int,
        modified_price(base, ReputationRank::Friendly) == (base as int * 85) / 100,
        modified_price(base, ReputationRank::Honored) == (base as int * 70) / 100,
        modified_price(base, ReputationRank::Exalted) == (base as int * 70) / 100,
        modified_price(base, ReputationRank::Unfriendly) >= modified_price(base, ReputationRank::Neutral),
        modified_price(base, ReputationRank::Neutral) >= modified_price(base, ReputationRank::Friendly),
        modified_price(base, ReputationRank::Friendly) >= modified_price(base, ReputationRank::Honored),
{
    assert((base as int * 85) / 100 <= base) by (nonlinear_arith);
    assert((base as int * 70) / 100 <= (base as int * 85) / 100) by (nonlinear_arith);
}

} // verus!
