//! Canned NPC dialogue chosen by the NPC's tags and the player's standing.
use vstd::prelude::*;
use crate::calc::{has_named, has_named_tag};
use crate::dice::thread_range_usize;
use crate::tags::{TagRegistry, Tags};
use crate::text::str_eq;

verus! {

/// Lines an NPC may say when it carries all the trigger tags (and, if given, the player's
/// standing with its faction is the one named).
#[derive(Debug)]
pub struct DialogueLine {
    pub trigger_tags: Vec<String>,
    pub standing: Option<String>,
    pub lines: Vec<String>,
}

/// All dialogue entries.
#[derive(Debug, Default)]
pub struct DialogueLinesResource {
    pub lines: Vec<DialogueLine>,
}

/// Whether the NPC carries every trigger tag (each registered and present).
pub open spec fn all_triggers_present(triggers: Seq<String>, tags: Seq<bool>, reg: TagRegistry) -> bool {
    forall|i: int| 0 <= i < triggers.len() ==> #[trigger] has_named(reg, tags, triggers[i]@)
}

/// The score of an entry when it applies: one point per trigger tag, ten more for a standing
/// requirement; `None` when it does not apply.
pub open spec fn entry_score(e: DialogueLine, tags: Seq<bool>, reg: TagRegistry, standing: Seq<char>) -> Option<int> {
    if !all_triggers_present(e.trigger_tags@, tags, reg) {
        None
    } else {
        match e.standing {
            Some(s) => if s@ == standing { Some((e.trigger_tags@.len() + 10) as int) } else { None },
            None => Some(e.trigger_tags@.len() as int),
        }
    }
}

/// The best entry among the first `k`: the earliest with the highest positive score.
pub open spec fn best_entry(es: Seq<DialogueLine>, tags: Seq<bool>, reg: TagRegistry, standing: Seq<char>, k: int) -> (Option<int>, int)
    decreases k,
{
    if k <= 0 {
        (None, 0)
    } else {
        let prev = best_entry(es, tags, reg, standing, k - 1);
        match entry_score(es[k - 1], tags, reg, standing) {
            Some(sc) => if sc > prev.1 { (Some(k - 1), sc) } else { prev },
            None => prev,
        }
    }
}

fn score_entry(e: &DialogueLine, tags: &Tags, reg: &TagRegistry, standing: &str) -> (r: Option<usize>)
    requires
        e.trigger_tags@.len() < usize::MAX - 10,
    ensures
        r matches Some(s) ==> entry_score(*e, tags.present@, *reg, standing@) == Some(s as int),
        r is None ==> entry_score(*e, tags.present@, *reg, standing@) is None,
{
    let mut i: usize = 0;
    while i < e.trigger_tags.len()
        invariant
            i <= e.trigger_tags@.len(),
            forall|j: int| 0 <= j < i ==> #[trigger] has_named(*reg, tags.present@, e.trigger_tags@[j]@),
        decreases e.trigger_tags.len() - i,
    {
        if !has_named_tag(tags, reg, e.trigger_tags[i].as_str()) {
            return None;
        }
        i = i + 1;
    }
    let n = e.trigger_tags.len();
    match &e.standing {
        Some(s) => if str_eq(s.as_str(), standing) {
            Some(n + 10)
        } else {
            None
        },
        None => Some(n),
    }
}

/// Picks a line for an NPC: the best applying entry (highest score, earliest on ties,
/// score above zero), then one of its lines at random; `None` when no entry applies or
/// the chosen entry has no lines.
pub fn select_dialogue(
    npc_tags: &Tags,
    faction_standing: &str,
    dialogue_lines: &Vec<DialogueLine>,
    registry: &TagRegistry,
) -> (r: Option<String>)
    requires
        forall|k: int| 0 <= k < dialogue_lines@.len() ==> #[trigger] dialogue_lines@[k].trigger_tags@.len() < usize::MAX - 10,
    ensures
        best_entry(dialogue_lines@, npc_tags.present@, *registry, faction_standing@, dialogue_lines@.len() as int).0 is None ==> r is None,
        forall|b: int| best_entry(dialogue_lines@, npc_tags.present@, *registry, faction_standing@, dialogue_lines@.len() as int).0 == Some(b) ==> {
            &&& 0 <= b < dialogue_lines@.len()
            &&& dialogue_lines@[b].lines@.len() == 0 ==> r is None
            &&& dialogue_lines@[b].lines@.len() > 0 ==> (r matches Some(line) && exists|j: int| 0 <= j < dialogue_lines@[b].lines@.len()
                    && line@ == #[trigger] dialogue_lines@[b].lines@[j]@)
        },
{
    let mut best: Option<usize> = None;
    let mut best_score: usize = 0;
    let mut k: usize = 0;
    while k < dialogue_lines.len()
        invariant
            k <= dialogue_lines@.len(),
            forall|m: int| 0 <= m < dialogue_lines@.len() ==> #[trigger] dialogue_lines@[m].trigger_tags@.len() < usize::MAX - 10,
            best_entry(dialogue_lines@, npc_tags.present@, *registry, faction_standing@, k as int).1 == best_score as int,
            best matches Some(b) ==> best_entry(dialogue_lines@, npc_tags.present@, *registry, faction_standing@, k as int).0 == Some(b as int),
            best is None ==> best_entry(dialogue_lines@, npc_tags.present@, *registry, faction_standing@, k as int).0 is None,
            best matches Some(b) ==> b < k,
        decreases dialogue_lines.len() - k,
    {
        let sc = score_entry(&dialogue_lines[k], npc_tags, registry, faction_standing);
        if let Some(s) = sc {
            if s > best_score {
                best_score = s;
                best = Some(k);
            }
        }
        k = k + 1;
    }
    assert(k as int == dialogue_lines@.len());
    match best {
        None => {
            assert(best_entry(dialogue_lines@, npc_tags.present@, *registry, faction_standing@, dialogue_lines@.len() as int).0 is None);
            None
        },
        Some(b) => {
            let entry = &dialogue_lines[b];
            assert(best_entry(dialogue_lines@, npc_tags.present@, *registry, faction_standing@, dialogue_lines@.len() as int).0 == Some(b as int));
            if entry.lines.len() == 0 {
                None
            } else {
                let idx = thread_range_usize(0, entry.lines.len());
                let line = entry.lines[idx].clone();
                assert(line@ == dialogue_lines@[b as int].lines@[idx as int]@);
                Some(line)
            }
        },
    }
}

} // verus!
