//! Wear on weapons and armor: degrading, breaking, repairing, and the durability an item
//! starts with by its rarity.
use vstd::prelude::*;
use vstd::string::*;
use crate::components::{EntityId, Equipment};
use crate::events::{EventBus, GameEvent};
use crate::tags::{TagRegistry, Tags};

verus! {

/// How much wear an item can still take.
#[derive(Debug, Clone, Copy, PartialEq, Eq, Structural)]
pub struct Durability {
    pub current: u32,
    pub max: u32,
    pub broken: bool,
}

/// `a - b`, stopping at zero.
pub open spec fn sat_sub(a: u32, b: u32) -> u32 {
    if a >= b { (a - b) as u32 } else { 0 }
}

impl Durability {
    /// Full durability `max`.
    pub fn new(max: u32) -> (r: Self)
        ensures
            r == (Durability { current: max, max, broken: false }),
    {
        Durability { current: max, max, broken: false }
    }

    /// Wears the item by `amount` (never below zero); it breaks on reaching zero. Says whether
    /// it is at zero now.
    pub fn degrade(&mut self, amount: u32) -> (r: bool)
        ensures
            final(self).current == sat_sub(old(self).current, amount),
            final(self).max == old(self).max,
            final(self).broken == (old(self).broken || final(self).current == 0),
            r == (final(self).current == 0),
    {
        self.current = self.current.saturating_sub(amount);
        if self.current == 0 {
            self.broken = true;
            true
        } else {
            false
        }
    }

    /// Whether the item is broken or worn to nothing.
    pub fn is_broken(&self) -> (r: bool)
        ensures
            r == (self.broken || self.current == 0),
    {
        self.broken || self.current == 0
    }

    /// Restores up to `amount`, never above the maximum; a repaired item with durability left is
    /// no longer broken. Returns how much was restored.
    pub fn repair(&mut self, amount: u32) -> (r: u32)
        requires
            old(self).current <= old(self).max,
        ensures
            r == if amount <= sat_sub(old(self).max, old(self).current) { amount } else { sat_sub(old(self).max, old(self).current) },
            final(self).current == old(self).current + r,
            final(self).max == old(self).max,
            final(self).broken == (old(self).broken && final(self).current == 0),
    {
        let room = self.max.saturating_sub(self.current);
        let repaired = if amount < room { amount } else { room };
        self.current = self.current + repaired;
        if self.current > 0 {
            self.broken = false;
        }
        repaired
    }
}

/// Repairing never pushes durability past the maximum, and degrading then repairing by the same
/// amount restores an item that did not reach zero.
pub proof fn law_repair_bounded(d: Durability, amount: u32)
    requires
        d.current <= d.max,
    ensures
        d.current + (if amount <= sat_sub(d.max, d.current) { amount } else { sat_sub(d.max, d.current) }) <= d.max,
        sat_sub(d.current, amount) > 0 ==> sat_sub(d.current, amount)
            + (if amount <= sat_sub(d.max, sat_sub(d.current, amount)) { amount } else { sat_sub(d.max, sat_sub(d.current, amount)) })
            == d.current,
{
}

/// "Your <name> breaks!", with `fallback` for a nameless item.
pub open spec fn break_message(name: Option<Seq<char>>, fallback: Seq<char>) -> Seq<char> {
    "Your "@ + (match name { Some(n) => n, None => fallback }) + " breaks!"@
}

/// Which equipment slot a worn item sits in.
#[derive(Debug, Clone, Copy, PartialEq, Eq, Structural)]
pub enum WornSlot {
    Weapon,
    Armor,
}

/// Wears an equipped item; when it is at zero afterwards, it leaves the player's slot (if it is
/// the item there) and "Your <name> breaks!" is raised. An item without durability is untouched.
fn degrade_worn(
    slot: WornSlot,
    durability: &mut Option<Durability>,
    name: &Option<String>,
    entity: EntityId,
    amount: u32,
    equipment: &mut Option<Equipment>,
    bus: &mut EventBus,
) -> (broke: bool)
    ensures
        final(durability).is_some() == old(durability).is_some(),
        old(durability).is_some() ==> {
            let d = old(durability).unwrap();
            let n = final(durability).unwrap();
            &&& n.current == sat_sub(d.current, amount) && n.max == d.max
            &&& n.broken == (d.broken || n.current == 0)
        },
        broke == (old(durability).is_some() && final(durability).unwrap().current == 0),
        !broke ==> *final(equipment) == *old(equipment) && final(bus).events@ == old(bus).events@,
        broke ==> {
            let fallback = if slot == WornSlot::Weapon { "weapon"@ } else { "armor"@ };
            &&& final(bus).events@.len() == old(bus).events@.len() + 1
            &&& final(bus).events@.drop_last() == old(bus).events@
            &&& (final(bus).events@.last() matches GameEvent::Message(m)
                && m@ == break_message(match name { Some(x) => Some(x@), None => None }, fallback))
            &&& final(equipment).is_some() == old(equipment).is_some()
            &&& old(equipment).is_some() ==> *final(equipment) == if slot == WornSlot::Weapon {
                    if old(equipment).unwrap().weapon == Some(entity) {
                        Some(Equipment { weapon: None, ..old(equipment).unwrap() })
                    } else { *old(equipment) }
                } else {
                    if old(equipment).unwrap().armor == Some(entity) {
                        Some(Equipment { armor: None, ..old(equipment).unwrap() })
                    } else { *old(equipment) }
                }
        },
{
    let broke = match durability {
        Some(d) => d.degrade(amount),
        None => false,
    };
    if broke {
        let mut msg = String::from_str("Your ");
        match name {
            Some(n) => msg.append(n.as_str()),
            None => {
                if slot == WornSlot::Weapon { msg.append("weapon"); } else { msg.append("armor"); }
            },
        }
        msg.append(" breaks!");
        match equipment {
            Some(eq) => {
                if slot == WornSlot::Weapon {
                    if eq.weapon == Some(entity) { eq.weapon = None; }
                } else {
                    if eq.armor == Some(entity) { eq.armor = None; }
                }
            },
            None => {},
        }
        bus.push(GameEvent::Message(msg));
    }
    broke
}

/// Wears the weapon `entity`; a weapon that breaks leaves the player's hand.
pub fn degrade_weapon(
    durability: &mut Option<Durability>,
    name: &Option<String>,
    entity: EntityId,
    amount: u32,
    equipment: &mut Option<Equipment>,
    bus: &mut EventBus,
) -> (broke: bool)
    ensures
        final(durability).is_some() == old(durability).is_some(),
        old(durability).is_some() ==> final(durability).unwrap().current == sat_sub(old(durability).unwrap().current, amount)
            && final(durability).unwrap().max == old(durability).unwrap().max
            && final(durability).unwrap().broken == (old(durability).unwrap().broken || final(durability).unwrap().current == 0),
        broke == (old(durability).is_some() && final(durability).unwrap().current == 0),
        !broke ==> *final(equipment) == *old(equipment) && final(bus).events@ == old(bus).events@,
        broke ==> final(bus).events@.len() == old(bus).events@.len() + 1
            && final(bus).events@.drop_last() == old(bus).events@
            && (final(bus).events@.last() matches GameEvent::Message(m)
                && m@ == break_message(match name { Some(x) => Some(x@), None => None }, "weapon"@))
            && final(equipment).is_some() == old(equipment).is_some()
            && (old(equipment).is_some() ==> final(equipment).unwrap().armor == old(equipment).unwrap().armor
                && final(equipment).unwrap().accessory == old(equipment).unwrap().accessory
                && final(equipment).unwrap().weapon == if old(equipment).unwrap().weapon == Some(entity) {
                    None
                } else {
                    old(equipment).unwrap().weapon
                }),
{
    degrade_worn(WornSlot::Weapon, durability, name, entity, amount, equipment, bus)
}

/// Wears the armor `entity`; armor that breaks is taken off.
pub fn degrade_armor(
    durability: &mut Option<Durability>,
    name: &Option<String>,
    entity: EntityId,
    amount: u32,
    equipment: &mut Option<Equipment>,
    bus: &mut EventBus,
) -> (broke: bool)
    ensures
        final(durability).is_some() == old(durability).is_some(),
        old(durability).is_some() ==> final(durability).unwrap().current == sat_sub(old(durability).unwrap().current, amount)
            && final(durability).unwrap().max == old(durability).unwrap().max
            && final(durability).unwrap().broken == (old(durability).unwrap().broken || final(durability).unwrap().current == 0),
        broke == (old(durability).is_some() && final(durability).unwrap().current == 0),
        !broke ==> *final(equipment) == *old(equipment) && final(bus).events@ == old(bus).events@,
        broke ==> final(bus).events@.len() == old(bus).events@.len() + 1
            && final(bus).events@.drop_last() == old(bus).events@
            && (final(bus).events@.last() matches GameEvent::Message(m)
                && m@ == break_message(match name { Some(x) => Some(x@), None => None }, "armor"@))
            && final(equipment).is_some() == old(equipment).is_some()
            && (old(equipment).is_some() ==> final(equipment).unwrap().weapon == old(equipment).unwrap().weapon
                && final(equipment).unwrap().accessory == old(equipment).unwrap().accessory
                && final(equipment).unwrap().armor == if old(equipment).unwrap().armor == Some(entity) {
                    None
                } else {
                    old(equipment).unwrap().armor
                }),
{
    degrade_worn(WornSlot::Armor, durability, name, entity, amount, equipment, bus)
}

/// Repairs an item by up to `amount`; returns how much was restored (nothing without durability).
pub fn repair_item(durability: &mut Option<Durability>, amount: u32) -> (r: u32)
    requires
        old(durability).is_some() ==> old(durability).unwrap().current <= old(durability).unwrap().max,
    ensures
        old(durability).is_none() ==> r == 0 && final(durability).is_none(),
        old(durability).is_some() ==> {
            let d = old(durability).unwrap();
            let room = sat_sub(d.max, d.current);
            &&& r == if amount <= room { amount } else { room }
            &&& *final(durability) == Some(Durability { current: (d.current + r) as u32, max: d.max,
                    broken: d.broken && d.current + r == 0 })
        },
{
    match durability {
        Some(d) => d.repair(amount),
        None => 0,
    }
}

/// The rarity tiers and the durability each gives, best match first in this order.
pub open spec fn tier_name(k: int) -> Seq<char> {
    if k == 0 { "COMMON"@ } else if k == 1 { "UNCOMMON"@ } else if k == 2 { "RARE"@ }
    else if k == 3 { "EPIC"@ } else { "LEGENDARY"@ }
}

/// The durability of tier `k`.
pub open spec fn tier_durability(k: int) -> u32 {
    if k == 0 { 20 } else if k == 1 { 40 } else if k == 2 { 80 } else if k == 3 { 160 } else { 320 }
}

/// Whether an item's tags carry the registered tier tag `k`.
pub open spec fn has_tier(tags: Tags, reg: TagRegistry, k: int) -> bool {
    reg.id_of(tier_name(k)) matches Some(id) && tags.contains(id as int)
}

/// The durability an item starts with: that of the first tier (COMMON, UNCOMMON, RARE, EPIC,
/// LEGENDARY) its tags carry, or 20.
pub open spec fn default_durability(tags: Option<Tags>, reg: Option<TagRegistry>) -> u32 {
    match (tags, reg) {
        (Some(t), Some(r)) =>
            if has_tier(t, r, 0) { 20 } else if has_tier(t, r, 1) { 40 } else if has_tier(t, r, 2) { 80 }
            else if has_tier(t, r, 3) { 160 } else if has_tier(t, r, 4) { 320 } else { 20 },
        _ => 20,
    }
}

fn tier_label(k: usize) -> (r: &'static str)
    ensures
        r@ == tier_name(k as int),
{
    if k == 0 { "COMMON" } else if k == 1 { "UNCOMMON" } else if k == 2 { "RARE" } else if k == 3 { "EPIC" } else { "LEGENDARY" }
}

fn tier_value(k: usize) -> (r: u32)
    ensures
        r == tier_durability(k as int),
{
    if k == 0 { 20 } else if k == 1 { 40 } else if k == 2 { 80 } else if k == 3 { 160 } else { 320 }
}

/// The durability an item starts with (see `default_durability`).
pub fn default_durability_for_item(tags: Option<&Tags>, registry: Option<&TagRegistry>) -> (r: u32)
    ensures
        r == default_durability(match tags { Some(t) => Some(*t), None => None },
            match registry { Some(g) => Some(*g), None => None }),
{
    match (tags, registry) {
        (Some(t), Some(reg)) => {
            let mut k: usize = 0;
            while k < 5
                invariant
                    k <= 5,
                    tags == Some(t),
                    registry == Some(reg),
                    forall|j: int| 0 <= j < k ==> !has_tier(*t, *reg, j),
                decreases 5 - k,
            {
                if let Some(id) = reg.tag_id(tier_label(k)) {
                    if t.has(id) {
                        proof {
                            assert(has_tier(*t, *reg, k as int));
                            if k >= 1 { assert(!has_tier(*t, *reg, 0)); }
                            if k >= 2 { assert(!has_tier(*t, *reg, 1)); }
                            if k >= 3 { assert(!has_tier(*t, *reg, 2)); }
                            if k >= 4 { assert(!has_tier(*t, *reg, 3)); }
                            assert(default_durability(Some(*t), Some(*reg)) == tier_durability(k as int));
                        }
                        return tier_value(k);
                    }
                }
                k = k + 1;
            }
            20
        },
        _ => 20,
    }
}

/// Gives an item being equipped its starting durability, unless it already has one.
pub fn set_durability_on_equip(durability: &mut Option<Durability>, tags: Option<&Tags>, registry: Option<&TagRegistry>)
    ensures
        old(durability).is_some() ==> *final(durability) == *old(durability),
        old(durability).is_none() ==> {
            let m = default_durability(match tags { Some(t) => Some(*t), None => None },
                match registry { Some(g) => Some(*g), None => None });
            *final(durability) == Some(Durability { current: m, max: m, broken: false })
        },
{
    if durability.is_none() {
        let max = default_durability_for_item(tags, registry);
        *durability = Some(Durability::new(max));
    }
}


/// Whether the tags carry the registered tag of this name.
pub open spec fn carries_named(t: Tags, r: TagRegistry, name: Seq<char>) -> bool {
    r.id_of(name) matches Some(id) && t.contains(id as int)
}

/// The starting durability by rarity: the lowest rarity tag the item carries decides it,
/// COMMON 20, UNCOMMON 40, RARE 80, EPIC 160, LEGENDARY 320; an item with none of them, or
/// without tags or registry, starts at 20.
pub proof fn law_durability_by_rarity(tags: Option<Tags>, reg: Option<TagRegistry>)
    ensures ({
        let d = default_durability(tags, reg);
        match (tags, reg) {
            (Some(t), Some(r)) => {
                &&& carries_named(t, r, "COMMON"@) ==> d == 20
                &&& !carries_named(t, r, "COMMON"@) && carries_named(t, r, "UNCOMMON"@) ==> d == 40
                &&& !carries_named(t, r, "COMMON"@) && !carries_named(t, r, "UNCOMMON"@)
                    && carries_named(t, r, "RARE"@) ==> d == 80
                &&& !carries_named(t, r, "COMMON"@) && !carries_named(t, r, "UNCOMMON"@)
                    && !carries_named(t, r, "RARE"@) && carries_named(t, r, "EPIC"@) ==> d == 160
                &&& !carries_named(t, r, "COMMON"@) && !carries_named(t, r, "UNCOMMON"@)
                    && !carries_named(t, r, "RARE"@) && !carries_named(t, r, "EPIC"@)
                    && carries_named(t, r, "LEGENDARY"@) ==> d == 320
                &&& !carries_named(t, r, "COMMON"@) && !carries_named(t, r, "UNCOMMON"@)
                    && !carries_named(t, r, "RARE"@) && !carries_named(t, r, "EPIC"@)
                    && !carries_named(t, r, "LEGENDARY"@) ==> d == 20
            },
            _ => d == 20,
        }
    }),
{
}

} // verus!
