//! NPC personality: ten trait scores and the behaviour tags they imply.
use vstd::prelude::*;
use crate::dice::std_range_u8_inclusive;
use crate::tags::{TagRegistry, Tags};

verus! {

/// Ten personality traits, each scored 0-100.
#[derive(Debug, Clone, Copy, PartialEq, Eq, Structural)]
pub struct PersonalityScores {
    pub aggression: u8,
    pub bravery: u8,
    pub sociability: u8,
    pub orderliness: u8,
    pub curiosity: u8,
    pub industriousness: u8,
    pub honesty: u8,
    pub spirituality: u8,
    pub gregariousness: u8,
    pub volatility: u8,
}

impl Default for PersonalityScores {
    /// Every trait at zero.
    fn default() -> (r: Self)
        ensures
            r == (PersonalityScores { aggression: 0, bravery: 0, sociability: 0, orderliness: 0, curiosity: 0,
                industriousness: 0, honesty: 0, spirituality: 0, gregariousness: 0, volatility: 0 }),
    {
        PersonalityScores { aggression: 0, bravery: 0, sociability: 0, orderliness: 0, curiosity: 0,
            industriousness: 0, honesty: 0, spirituality: 0, gregariousness: 0, volatility: 0 }
    }
}

/// Whether every trait lies in the middle band 20..=80.
pub open spec fn moderate(s: PersonalityScores) -> bool {
    &&& 20 <= s.aggression <= 80 && 20 <= s.bravery <= 80 && 20 <= s.sociability <= 80
    &&& 20 <= s.orderliness <= 80 && 20 <= s.curiosity <= 80 && 20 <= s.industriousness <= 80
    &&& 20 <= s.honesty <= 80 && 20 <= s.spirituality <= 80 && 20 <= s.gregariousness <= 80
    &&& 20 <= s.volatility <= 80
}

impl PersonalityScores {
    /// Each trait drawn at random from 20..=80.
    pub fn new_random(rng: &mut rand::rngs::StdRng) -> (r: Self)
        ensures
            moderate(r),
    {
        PersonalityScores {
            aggression: std_range_u8_inclusive(rng, 20, 80),
            bravery: std_range_u8_inclusive(rng, 20, 80),
            sociability: std_range_u8_inclusive(rng, 20, 80),
            orderliness: std_range_u8_inclusive(rng, 20, 80),
            curiosity: std_range_u8_inclusive(rng, 20, 80),
            industriousness: std_range_u8_inclusive(rng, 20, 80),
            honesty: std_range_u8_inclusive(rng, 20, 80),
            spirituality: std_range_u8_inclusive(rng, 20, 80),
            gregariousness: std_range_u8_inclusive(rng, 20, 80),
            volatility: std_range_u8_inclusive(rng, 20, 80),
        }
    }
}

/// Whether a registered tag named `name` has id `id` and its condition holds.
pub open spec fn implied(reg: TagRegistry, name: Seq<char>, cond: bool, id: int) -> bool {
    cond && (reg.id_of(name) matches Some(t) && t == id)
}

/// Whether personality implies tag `id`: AGGRESSIVE above 70 aggression, PEACEFUL below 30,
/// COWARDLY below 30 bravery, FEARLESS above 70, CURIOUS above 60 curiosity, TERRITORIAL above
/// 70 orderliness.
pub open spec fn personality_tag(s: PersonalityScores, reg: TagRegistry, id: int) -> bool {
    ||| implied(reg, "AGGRESSIVE"@, s.aggression > 70, id)
    ||| implied(reg, "PEACEFUL"@, s.aggression < 30, id)
    ||| implied(reg, "COWARDLY"@, s.bravery < 30, id)
    ||| implied(reg, "FEARLESS"@, s.bravery > 70, id)
    ||| implied(reg, "CURIOUS"@, s.curiosity > 60, id)
    ||| implied(reg, "TERRITORIAL"@, s.orderliness > 70, id)
}

fn add_if(tags: &mut Tags, registry: &TagRegistry, name: &str, cond: bool)
    ensures
        final(tags).present@.len() == old(tags).present@.len(),
        forall|i: int| #[trigger] final(tags).contains(i) == (old(tags).contains(i)
            || (implied(*registry, name@, cond, i) && i < old(tags).present@.len())),
{
    if let Some(id) = registry.tag_id(name) {
        if cond {
            tags.add_tag(id);
        }
    }
}

/// Adds the behaviour tags a personality implies (tags beyond the set's room are skipped).
pub fn tags_from_personality(scores: &PersonalityScores, tags: &mut Tags, registry: &TagRegistry)
    ensures
        final(tags).present@.len() == old(tags).present@.len(),
        forall|i: int| #[trigger] final(tags).contains(i) == (old(tags).contains(i)
            || (personality_tag(*scores, *registry, i) && i < old(tags).present@.len())),
{
    add_if(tags, registry, "AGGRESSIVE", scores.aggression > 70);
    add_if(tags, registry, "PEACEFUL", scores.aggression < 30);
    add_if(tags, registry, "COWARDLY", scores.bravery < 30);
    add_if(tags, registry, "FEARLESS", scores.bravery > 70);
    add_if(tags, registry, "CURIOUS", scores.curiosity > 60);
    add_if(tags, registry, "TERRITORIAL", scores.orderliness > 70);
}

} // verus!
