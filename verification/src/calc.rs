//! Derived combat numbers: weapon damage, armor protection and item quality.
use vstd::prelude::*;
use crate::barter::{quality_name, sat_mul, saturating_mul_u32};
use crate::components::Equipment;
use crate::tags::{TagRegistry, Tags};
use crate::text::{lowercase, owned, to_lower};

verus! {

/// Whether the tag called `name` is registered and present.
pub open spec fn has_named(reg: TagRegistry, tags: Seq<bool>, name: Seq<char>) -> bool {
    match reg.id_of(name) {
        Some(id) => 0 <= id < tags.len() && tags[id as int],
        None => false,
    }
}

/// Decides `has_named`.
pub fn has_named_tag(tags: &Tags, reg: &TagRegistry, name: &str) -> (r: bool)
    ensures
        r == has_named(*reg, tags.present@, name@),
{
    match reg.tag_id(name) {
        Some(id) => tags.has(id),
        None => false,
    }
}

/// The multiplier of the lowest quality at or after `k` that the item carries and that
/// has a multiplier; 1 when none does.
pub open spec fn quality_multiplier_from(reg: TagRegistry, tags: Seq<bool>, k: int) -> u32
    decreases 5 - k,
{
    if k >= 5 {
        1
    } else {
        match reg.id_of(quality_name(k)) {
            Some(id) => if 0 <= id < tags.len() && tags[id as int] && reg.defs@[id as int].multiplier is Some {
                reg.defs@[id as int].multiplier->0
            } else {
                quality_multiplier_from(reg, tags, k + 1)
            },
            None => quality_multiplier_from(reg, tags, k + 1),
        }
    }
}

fn quality_literal(k: usize) -> (r: &'static str)
    requires
        k < 5,
    ensures
        r@ == quality_name(k as int),
{
    if k == 0 { "COMMON" } else if k == 1 { "UNCOMMON" } else if k == 2 { "RARE" } else if k == 3 { "EPIC" } else { "LEGENDARY" }
}

/// The quality multiplier of an item: that of the first quality tag (COMMON, UNCOMMON,
/// RARE, EPIC, LEGENDARY) it carries that has a multiplier, or 1.
pub fn get_quality_multiplier(tags: &Tags, registry: &TagRegistry) -> (r: u32)
    ensures
        r == quality_multiplier_from(*registry, tags.present@, 0),
{
    let mut k: usize = 0;
    while k < 5
        invariant
            k <= 5,
            quality_multiplier_from(*registry, tags.present@, 0) == quality_multiplier_from(*registry, tags.present@, k as int),
        decreases 5 - k,
    {
        if let Some(id) = registry.tag_id(quality_literal(k)) {
            if tags.has(id) {
                if let Some(m) = registry.tag_by_id(id).multiplier {
                    return m;
                }
            }
        }
        k = k + 1;
    }
    1
}

/// The first quality tag (in quality order) that the item carries, if any.
pub open spec fn first_quality_from(reg: TagRegistry, tags: Seq<bool>, k: int) -> Option<int>
    decreases 5 - k,
{
    if k >= 5 {
        None
    } else if has_named(reg, tags, quality_name(k)) {
        Some(k)
    } else {
        first_quality_from(reg, tags, k + 1)
    }
}

/// The name prefix for an item's quality: nothing for COMMON or no quality, else the
/// quality's name lowercased followed by a space.
pub open spec fn quality_prefix(reg: TagRegistry, tags: Seq<bool>) -> Seq<char> {
    match first_quality_from(reg, tags, 0) {
        Some(k) => if k == 0 { seq![] } else { lowercase(quality_name(k)) + " "@ },
        None => seq![],
    }
}

pub fn get_quality_prefix(tags: &Tags, registry: &TagRegistry) -> (r: String)
    ensures
        r@ == quality_prefix(*registry, tags.present@),
{
    let mut k: usize = 0;
    while k < 5
        invariant
            k <= 5,
            first_quality_from(*registry, tags.present@, 0) == first_quality_from(*registry, tags.present@, k as int),
        decreases 5 - k,
    {
        let name = quality_literal(k);
        if has_named_tag(tags, registry, name) {
            if k == 0 {
                return String::new();
            }
            let mut p = to_lower(name);
            p.append(" ");
            return p;
        }
        k = k + 1;
    }
    String::new()
}

/// Damage of the equipped weapon: 0 without a weapon, 5 for a weapon without tags, else
/// 5 plus a material bonus (METAL 3, else STONE 1) times the quality multiplier, saturating.
pub open spec fn weapon_damage(e: Equipment, weapon_tags: Option<Seq<bool>>, reg: TagRegistry) -> int {
    match e.weapon {
        None => 0,
        Some(_) => match weapon_tags {
            None => 5,
            Some(t) => sat_mul(
                5 + if has_named(reg, t, "METAL"@) { 3int } else if has_named(reg, t, "STONE"@) { 1int } else { 0int },
                quality_multiplier_from(reg, t, 0) as int,
            ),
        },
    }
}

/// Weapon damage; `weapon_tags` are the tags of the equipped weapon when it has any.
pub fn calc_weapon_damage(equipment: &Equipment, weapon_tags: Option<&Tags>, registry: &TagRegistry) -> (r: u32)
    ensures
        r == weapon_damage(*equipment, match weapon_tags { Some(t) => Some(t.present@), None => None }, *registry),
{
    if equipment.weapon.is_none() {
        return 0;
    }
    let tags = match weapon_tags {
        Some(t) => t,
        None => return 5,
    };
    let material: u32 = if has_named_tag(tags, registry, "METAL") { 3 } else if has_named_tag(tags, registry, "STONE") { 1 } else { 0 };
    let q = get_quality_multiplier(tags, registry);
    saturating_mul_u32(5 + material, q)
}

/// Protection of the equipped armor: 0 without armor or without tags, else a material
/// bonus (METAL 5, else LEATHER 3, else CLOTH 1) times the quality multiplier, saturating.
pub open spec fn armor_protection(e: Equipment, armor_tags: Option<Seq<bool>>, reg: TagRegistry) -> int {
    match e.armor {
        None => 0,
        Some(_) => match armor_tags {
            None => 0,
            Some(t) => sat_mul(
                if has_named(reg, t, "METAL"@) { 5int } else if has_named(reg, t, "LEATHER"@) { 3int }
                else if has_named(reg, t, "CLOTH"@) { 1int } else { 0int },
                quality_multiplier_from(reg, t, 0) as int,
            ),
        },
    }
}

/// Armor protection; `armor_tags` are the tags of the equipped armor when it has any.
pub fn calc_armor_protection(equipment: &Equipment, armor_tags: Option<&Tags>, registry: &TagRegistry) -> (r: u32)
    ensures
        r == armor_protection(*equipment, match armor_tags { Some(t) => Some(t.present@), None => None }, *registry),
{
    if equipment.armor.is_none() {
        return 0;
    }
    let tags = match armor_tags {
        Some(t) => t,
        None => return 0,
    };
    let material: u32 = if has_named_tag(tags, registry, "METAL") { 5 }
        else if has_named_tag(tags, registry, "LEATHER") { 3 }
        else if has_named_tag(tags, registry, "CLOTH") { 1 } else { 0 };
    let q = get_quality_multiplier(tags, registry);
    saturating_mul_u32(material, q)
}


/// The multiplier of the tag called `name` when it is registered, carried and has one.
pub open spec fn named_multiplier(reg: TagRegistry, tags: Seq<bool>, name: Seq<char>) -> Option<u32> {
    match reg.id_of(name) {
        Some(id) => if 0 <= id < tags.len() && tags[id as int] { reg.defs@[id as int].multiplier } else { None },
        None => None,
    }
}

/// The quality multiplier is that of the first of COMMON, UNCOMMON, RARE, EPIC and
/// LEGENDARY (in that order) that the item carries with a multiplier, and 1 when none does.
pub proof fn law_quality_multiplier_in_order(reg: TagRegistry, tags: Seq<bool>)
    ensures
        quality_multiplier_from(reg, tags, 0) == match named_multiplier(reg, tags, "COMMON"@) {
            Some(m) => m,
            None => match named_multiplier(reg, tags, "UNCOMMON"@) {
                Some(m) => m,
                None => match named_multiplier(reg, tags, "RARE"@) {
                    Some(m) => m,
                    None => match named_multiplier(reg, tags, "EPIC"@) {
                        Some(m) => m,
                        None => match named_multiplier(reg, tags, "LEGENDARY"@) {
                            Some(m) => m,
                            None => 1u32,
                        },
                    },
                },
            },
        },
{
    reveal_with_fuel(quality_multiplier_from, 6);
}

/// The quality prefix names the first of COMMON, UNCOMMON, RARE, EPIC and LEGENDARY the item
/// carries, lowercased and followed by a space; COMMON and no quality give no prefix.
pub proof fn law_quality_prefix_in_order(reg: TagRegistry, tags: Seq<bool>)
    ensures
        quality_prefix(reg, tags) == if has_named(reg, tags, "COMMON"@) {
            Seq::<char>::empty()
        } else if has_named(reg, tags, "UNCOMMON"@) {
            lowercase("UNCOMMON"@) + " "@
        } else if has_named(reg, tags, "RARE"@) {
            lowercase("RARE"@) + " "@
        } else if has_named(reg, tags, "EPIC"@) {
            lowercase("EPIC"@) + " "@
        } else if has_named(reg, tags, "LEGENDARY"@) {
            lowercase("LEGENDARY"@) + " "@
        } else {
            Seq::<char>::empty()
        },
{
    reveal_with_fuel(first_quality_from, 6);
}

/// Weapon damage: none without a weapon, 5 for a weapon without tags, else 8 for metal, 6
/// for stone and 5 otherwise, times the quality multiplier (capped at the largest `u32`).
pub proof fn law_weapon_damage_table(e: Equipment, t: Seq<bool>, reg: TagRegistry)
    requires
        e.weapon is Some,
    ensures
        weapon_damage(e, None, reg) == 5,
        weapon_damage(e, Some(t), reg) == sat_mul(
            if has_named(reg, t, "METAL"@) { 8int } else if has_named(reg, t, "STONE"@) { 6int } else { 5int },
            quality_multiplier_from(reg, t, 0) as int),
        weapon_damage(Equipment { weapon: None, ..e }, Some(t), reg) == 0,
{
}

/// Armor protection: none without armor or without tags, else 5 for metal, 3 for leather, 1
/// for cloth and 0 otherwise, times the quality multiplier (capped at the largest `u32`).
pub proof fn law_armor_protection_table(e: Equipment, t: Seq<bool>, reg: TagRegistry)
    requires
        e.armor is Some,
    ensures
        armor_protection(e, None, reg) == 0,
        armor_protection(e, Some(t), reg) == sat_mul(
            if has_named(reg, t, "METAL"@) { 5int } else if has_named(reg, t, "LEATHER"@) { 3int }
            else if has_named(reg, t, "CLOTH"@) { 1int } else { 0int },
            quality_multiplier_from(reg, t, 0) as int),
        armor_protection(Equipment { armor: None, ..e }, Some(t), reg) == 0,
{
}

} // verus!
