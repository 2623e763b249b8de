//! NPC actions: the kinds of action, and the parts of action scoring that are exact
//! (trait lookup, standing, tag requirements).
use vstd::prelude::*;
use crate::components::EntityId;
use crate::personality::PersonalityScores;
use crate::tags::{TagRegistry, Tags};
use crate::text::str_eq;

verus! {

/// What an NPC can do.
#[derive(Debug)]
pub enum NpcAction {
    Move { dx: i32, dy: i32 },
    Flee { dx: i32, dy: i32 },
    Wait,
    Speak { line: String },
    OfferTrade,
    AttackTarget { target: EntityId },
    GiveQuest,
    EndConversation,
}

/// The score of the trait with the given name; 50 for an unknown name.
pub open spec fn trait_value(s: PersonalityScores, name: Seq<char>) -> u8 {
    if name == "aggression"@ { s.aggression }
    else if name == "bravery"@ { s.bravery }
    else if name == "sociability"@ { s.sociability }
    else if name == "orderliness"@ { s.orderliness }
    else if name == "curiosity"@ { s.curiosity }
    else if name == "industriousness"@ { s.industriousness }
    else if name == "honesty"@ { s.honesty }
    else if name == "spirituality"@ { s.spirituality }
    else if name == "gregariousness"@ { s.gregariousness }
    else if name == "volatility"@ { s.volatility }
    else { 50 }
}

/// The score of a personality trait by name (50 for an unknown name).
pub fn get_personality_trait(scores: &PersonalityScores, name: &str) -> (r: u8)
    ensures
        r == trait_value(*scores, name@),
{
    if str_eq(name, "aggression") { scores.aggression }
    else if str_eq(name, "bravery") { scores.bravery }
    else if str_eq(name, "sociability") { scores.sociability }
    else if str_eq(name, "orderliness") { scores.orderliness }
    else if str_eq(name, "curiosity") { scores.curiosity }
    else if str_eq(name, "industriousness") { scores.industriousness }
    else if str_eq(name, "honesty") { scores.honesty }
    else if str_eq(name, "spirituality") { scores.spirituality }
    else if str_eq(name, "gregariousness") { scores.gregariousness }
    else if str_eq(name, "volatility") { scores.volatility }
    else { 50 }
}

/// How an NPC stands toward a target. Every NPC is neutral for now: no tag or faction decides it.
pub fn determine_standing(npc_tags: &Tags, target_tags: &Tags, registry: &TagRegistry) -> (r: String)
    ensures
        r@ == "neutral"@,
{
    String::from_str("neutral")
}

/// Whether an NPC carries every registered tag an action requires (unregistered names are
/// not required).
pub open spec fn requirements_met(required: Seq<String>, tags: Tags, reg: TagRegistry) -> bool {
    forall|k: int| 0 <= k < required.len() ==>
        (#[trigger] reg.id_of(required[k]@) matches Some(id) ==> tags.contains(id as int))
}

/// Decides `requirements_met`; an action whose requirement fails scores zero.
pub fn action_requirements_met(required: &Vec<String>, tags: &Tags, registry: &TagRegistry) -> (r: bool)
    ensures
        r == requirements_met(required@, *tags, *registry),
{
    let mut k: usize = 0;
    while k < required.len()
        invariant
            k <= required@.len(),
            forall|j: int| 0 <= j < k ==>
                (#[trigger] registry.id_of(required@[j]@) matches Some(id) ==> tags.contains(id as int)),
        decreases required.len() - k,
    {
        if let Some(id) = registry.tag_id(required[k].as_str()) {
            if !tags.has(id) {
                return false;
            }
        }
        k = k + 1;
    }
    true
}

} // verus!
