//! Narrative events: short messages that fire when tagged things meet, with cooldowns.
//! Whether an event may fire, and on which entities, is decided here; the chance rolls are
//! made by the caller.
use vstd::prelude::*;
use crate::components::Position;
use crate::events::{EventBus, GameEvent};
use crate::tags::{TagId, TagRegistry, Tags, first_index, known_ids, known_tag_ids, lemma_first_index, lemma_prefix_first};
use crate::text::{str_eq, views};
use crate::quest::has_all;

verus! {

/// A piece of lore the player can discover.
#[derive(Debug)]
pub struct LoreFragment {
    pub id: String,
    pub category: String,
    pub rarity: String,
    pub faction_source: String,
    pub title_template: String,
    pub content_template: String,
    pub discovery_tags: Vec<String>,
    pub discovery_context: String,
    pub persistence: bool,
}

/// The loaded lore.
#[derive(Debug)]
pub struct LoreFragmentsResource {
    pub fragments: Vec<LoreFragment>,
}

impl Default for LoreFragmentsResource {
    /// No lore loaded.
    fn default() -> (r: Self)
        ensures
            r.fragments@.len() == 0,
    {
        LoreFragmentsResource { fragments: Vec::new() }
    }
}

/// What must be present for a narrative event: tags on an entity, tags on something next to
/// it, and tags on the player.
#[derive(Debug)]
pub struct NarrativeTrigger {
    pub entity_tags: Vec<String>,
    pub nearby_tags: Vec<String>,
    pub player_tags: Vec<String>,
}

/// A narrative event with its trigger tags resolved to registry ids.
#[derive(Debug)]
pub struct NarrativeRule {
    pub id: String,
    pub entity_tag_ids: Vec<TagId>,
    pub nearby_tag_ids: Vec<TagId>,
    pub player_tag_ids: Vec<TagId>,
    pub message: String,
    pub cooldown_ticks: u64,
}

/// Resolves a trigger's tag names (unregistered ones are dropped).
pub fn resolve_narrative_rule(id: &str, trigger: &NarrativeTrigger, message: &str, cooldown_ticks: u64, registry: &TagRegistry) -> (r: NarrativeRule)
    ensures
        r.id@ == id@,
        r.entity_tag_ids@ == known_ids(views(trigger.entity_tags@), *registry),
        r.nearby_tag_ids@ == known_ids(views(trigger.nearby_tags@), *registry),
        r.player_tag_ids@ == known_ids(views(trigger.player_tags@), *registry),
        r.message@ == message@,
        r.cooldown_ticks == cooldown_ticks,
{
    NarrativeRule {
        id: String::from_str(id),
        entity_tag_ids: known_tag_ids(&trigger.entity_tags, registry),
        nearby_tag_ids: known_tag_ids(&trigger.nearby_tags, registry),
        player_tag_ids: known_tag_ids(&trigger.player_tags, registry),
        message: String::from_str(message),
        cooldown_ticks,
    }
}

/// The turn each event last fired on; no event is recorded twice.
#[derive(Debug)]
pub struct NarrativeCooldowns {
    last_fired: Vec<(String, u64)>,
}

/// The ids with a recorded turn.
pub open spec fn fired_ids(entries: Seq<(String, u64)>) -> Seq<Seq<char>> {
    entries.map_values(|e: (String, u64)| e.0@)
}

/// The turn an event last fired on, if recorded.
pub open spec fn last_fired_at(entries: Seq<(String, u64)>, id: Seq<char>) -> Option<u64> {
    match first_index(fired_ids(entries), id) {
        Some(i) => Some(entries[i].1),
        None => None,
    }
}

impl Default for NarrativeCooldowns {
    /// Nothing fired yet.
    fn default() -> (r: Self)
        ensures
            r.entries().len() == 0,
    {
        NarrativeCooldowns { last_fired: Vec::new() }
    }
}

impl NarrativeCooldowns {
    /// No event is recorded twice.
    #[verifier::type_invariant]
    spec fn ids_distinct(self) -> bool {
        fired_ids(self.last_fired@).no_duplicates()
    }

    /// The recorded events and the turns they last fired on.
    pub closed spec fn entries(&self) -> Seq<(String, u64)> {
        self.last_fired@
    }

    /// Number of events with a recorded turn.
    pub fn len(&self) -> (n: usize)
        ensures
            n == self.entries().len(),
    {
        self.last_fired.len()
    }

    /// Whether no event has a recorded turn.
    pub fn is_empty(&self) -> (r: bool)
        ensures
            r == (self.entries().len() == 0),
    {
        self.last_fired.len() == 0
    }

    fn index_of(&self, id: &str) -> (r: Option<usize>)
        ensures
            r matches Some(j) ==> first_index(fired_ids(self.entries()), id@) == Some(j as int),
            r is None ==> first_index(fired_ids(self.entries()), id@) is None,
    {
        let ghost ids = fired_ids(self.last_fired@);
        let mut i: usize = 0;
        while i < self.last_fired.len()
            invariant
                i <= self.last_fired@.len(),
                ids == fired_ids(self.last_fired@),
                first_index(ids.subrange(0, i as int), id@) is None,
            decreases self.last_fired.len() - i,
        {
            assert(ids.subrange(0, i + 1).drop_last() =~= ids.subrange(0, i as int));
            if str_eq(self.last_fired[i].0.as_str(), id) {
                proof {
                    assert(ids.subrange(0, i + 1).last() == id@);
                    lemma_prefix_first(ids, id@, i + 1);
                }
                return Some(i);
            }
            i = i + 1;
        }
        assert(ids.subrange(0, self.last_fired@.len() as int) =~= ids);
        None
    }

    /// The turn an event last fired on.
    pub fn get(&self, id: &str) -> (r: Option<u64>)
        ensures
            r == last_fired_at(self.entries(), id@),
    {
        proof { lemma_first_index(fired_ids(self.last_fired@), id@); }
        match self.index_of(id) {
            Some(i) => {
                assert(first_index(fired_ids(self.last_fired@), id@) == Some(i as int));
                Some(self.last_fired[i].1)
            },
            None => None,
        }
    }

    /// Records that an event fired on a turn.
    pub fn insert(&mut self, id: String, turn: u64)
        ensures
            last_fired_at(final(self).entries(), id@) == Some(turn),
            forall|other: Seq<char>| other != id@ ==>
                #[trigger] last_fired_at(final(self).entries(), other) == last_fired_at(old(self).entries(), other),
    {
        let ghost old_ids = fired_ids(self.last_fired@);
        proof {
            use_type_invariant(&*self);
            lemma_first_index(old_ids, id@);
        }
        let found = self.index_of(id.as_str());
        let mut v: Vec<(String, u64)> = Vec::new();
        std::mem::swap(&mut v, &mut self.last_fired);
        match found {
            Some(i) => {
                v.set(i, (id, turn));
                assert(fired_ids(v@) =~= old_ids);
            },
            None => {
                let ghost kid = id@;
                v.push((id, turn));
                assert(fired_ids(v@) =~= old_ids.push(kid));
                assert forall|a: int, b: int| 0 <= a < b < fired_ids(v@).len()
                    implies fired_ids(v@)[a] != fired_ids(v@)[b] by {
                    if b == old_ids.len() {
                        assert(old_ids[a] != kid);
                    } else {
                        assert(old_ids[a] != old_ids[b]);
                    }
                }
            },
        }
        self.last_fired = v;
        match found {
            Some(i) => {},
            None => {
                let ghost kid = id@;
                proof {
                    let ids = fired_ids(self.last_fired@);
                    assert(ids =~= old_ids.push(kid));
                    assert(ids.drop_last() =~= old_ids);
                    assert forall|other: Seq<char>| other != kid implies
                        #[trigger] last_fired_at(self.last_fired@, other) == last_fired_at(old(self).last_fired@, other) by {
                        lemma_first_index(old_ids, other);
                        lemma_first_index(ids, other);
                        match first_index(old_ids, other) {
                            Some(j) => { assert(self.last_fired@[j] == old(self).last_fired@[j]); },
                            None => {},
                        }
                    }
                }
            },
        }
        proof {
            let ids = fired_ids(self.last_fired@);
            lemma_first_index(ids, id@);
            assert forall|other: Seq<char>| other != id@ implies
                #[trigger] last_fired_at(self.last_fired@, other) == last_fired_at(old(self).last_fired@, other) by {
                lemma_first_index(old_ids, other);
                lemma_first_index(ids, other);
                if first_index(ids, other) != first_index(old_ids, other) {
                    if ids.len() == old_ids.len() {
                        assert(ids =~= old_ids);
                    }
                }
                match first_index(old_ids, other) {
                    Some(j) => {
                        if first_index(ids, other) == Some(j) {
                            if ids.len() == old_ids.len() {
                                assert(self.last_fired@[j].1 == old(self).last_fired@[j].1 || self.last_fired@[j].0@ == id@);
                            }
                        }
                    },
                    None => {},
                }
            }
        }
    }
}

/// Whether two positions are on the same or neighbouring tiles (coordinates taken as `i32`).
pub open spec fn touching(a: Position, b: Position) -> bool {
    let dx = (a.x as i32) - (b.x as i32);
    let dy = (a.y as i32) - (b.y as i32);
    -1 <= dx <= 1 && -1 <= dy <= 1
}

/// Whether the differences of two positions' coordinates, taken as `i32`, stay within `i32`.
pub open spec fn pair_fits(a: Position, b: Position) -> bool {
    &&& i32::MIN <= (a.x as i32) - (b.x as i32) <= i32::MAX
    &&& i32::MIN <= (a.y as i32) - (b.y as i32) <= i32::MAX
}

/// Whether entity `i` can carry the event: it has every entity tag, and, when nearby tags are
/// asked for, it has a position and some entity with a position on a touching tile (itself
/// included) has every nearby tag.
pub open spec fn candidate(rule: NarrativeRule, ents: Seq<(Tags, Option<Position>)>, i: int) -> bool {
    &&& has_all(ents[i].0, rule.entity_tag_ids@)
    &&& rule.nearby_tag_ids@.len() > 0 ==> ents[i].1.is_some() && exists|j: int| 0 <= j < ents.len()
            && (#[trigger] ents[j]).1.is_some() && touching(ents[i].1.unwrap(), ents[j].1.unwrap())
            && has_all(ents[j].0, rule.nearby_tag_ids@)
}

/// Whether the event may fire this turn: it names entity tags, its cooldown has passed, and
/// the player carries the player tags it asks for.
pub open spec fn eligible(rule: NarrativeRule, player: Option<Tags>, last: Option<u64>, turn: u64) -> bool {
    &&& rule.entity_tag_ids@.len() > 0
    &&& last matches Some(l) ==> turn >= l + rule.cooldown_ticks
    &&& rule.player_tag_ids@.len() > 0 ==> player.is_some() && has_all(player.unwrap(), rule.player_tag_ids@)
}

fn has_all_tags(t: &Tags, ids: &Vec<TagId>) -> (r: bool)
    ensures
        r == has_all(*t, ids@),
{
    let mut k: usize = 0;
    while k < ids.len()
        invariant
            k <= ids@.len(),
            forall|j: int| 0 <= j < k ==> #[trigger] t.contains(ids@[j] as int),
        decreases ids.len() - k,
    {
        if !t.has(ids[k]) {
            return false;
        }
        k = k + 1;
    }
    true
}

/// The search, from entity `j` on, for a positioned entity on a tile touching `p` that has
/// every nearby tag: it stops at the first one (`Some(true)`), gives `Some(false)` when there
/// is none, and `None` when it meets a position whose differences from `p` leave `i32` before
/// finding one.
pub open spec fn nearby_scan(rule: NarrativeRule, ents: Seq<(Tags, Option<Position>)>, p: Position, j: int) -> Option<bool>
    decreases ents.len() - j,
{
    if j < 0 || j >= ents.len() {
        Some(false)
    } else {
        match ents[j].1 {
            None => nearby_scan(rule, ents, p, j + 1),
            Some(q) => if !pair_fits(p, q) {
                None
            } else if touching(p, q) && has_all(ents[j].0, rule.nearby_tag_ids@) {
                Some(true)
            } else {
                nearby_scan(rule, ents, p, j + 1)
            },
        }
    }
}

/// Checking whether entity `i` can carry the event: whether it has every entity tag, and, when
/// nearby tags are asked for, the search for a neighbour from its position (see `nearby_scan`).
pub open spec fn candidate_check(rule: NarrativeRule, ents: Seq<(Tags, Option<Position>)>, i: int) -> Option<bool> {
    if !has_all(ents[i].0, rule.entity_tag_ids@) {
        Some(false)
    } else if rule.nearby_tag_ids@.len() == 0 {
        Some(true)
    } else {
        match ents[i].1 {
            None => Some(false),
            Some(p) => nearby_scan(rule, ents, p, 0),
        }
    }
}

/// A finished search answers whether a matching neighbour lies at or after `j`.
proof fn lemma_nearby_scan(rule: NarrativeRule, ents: Seq<(Tags, Option<Position>)>, p: Position, j: int)
    requires
        0 <= j <= ents.len(),
    ensures
        nearby_scan(rule, ents, p, j) matches Some(b) ==> (b <==> exists|k: int| j <= k < ents.len()
            && (#[trigger] ents[k]).1.is_some() && touching(p, ents[k].1.unwrap())
            && has_all(ents[k].0, rule.nearby_tag_ids@)),
    decreases ents.len() - j,
{
    if j < ents.len() {
        lemma_nearby_scan(rule, ents, p, j + 1);
        if nearby_scan(rule, ents, p, j) == Some(false) {
            assert forall|k: int| j <= k < ents.len() implies !((#[trigger] ents[k]).1.is_some()
                && touching(p, ents[k].1.unwrap()) && has_all(ents[k].0, rule.nearby_tag_ids@)) by {
                if k > j {
                    assert(j + 1 <= k < ents.len());
                }
            }
        }
    }
}

/// Whether entity `i` can carry the event (see `candidate`); `None` when the search for a
/// neighbour meets a position whose coordinate differences from the entity's leave `i32`
/// before finding one (see `candidate_check`).
pub fn narrative_candidate(rule: &NarrativeRule, ents: &Vec<(Tags, Option<Position>)>, i: usize) -> (r: Option<bool>)
    requires
        i < ents@.len(),
    ensures
        r == candidate_check(*rule, ents@, i as int),
        r matches Some(b) ==> b == candidate(*rule, ents@, i as int),
{
    if !has_all_tags(&ents[i].0, &rule.entity_tag_ids) {
        return Some(false);
    }
    if rule.nearby_tag_ids.len() == 0 {
        return Some(true);
    }
    let p = match ents[i].1 {
        Some(p) => p,
        None => return Some(false),
    };
    proof {
        lemma_nearby_scan(*rule, ents@, p, 0);
    }
    let mut j: usize = 0;
    while j < ents.len()
        invariant
            j <= ents@.len(),
            i < ents@.len(),
            ents@[i as int].1 == Some(p),
            has_all(ents@[i as int].0, rule.entity_tag_ids@),
            rule.nearby_tag_ids@.len() > 0,
            nearby_scan(*rule, ents@, p, 0) == nearby_scan(*rule, ents@, p, j as int),
        decreases ents.len() - j,
    {
        if let Some(q) = ents[j].1 {
            assert(ents@[j as int].1 == Some(q));
            let pxi: i32 = #[verifier::truncate] (p.x as i32);
            let qxi: i32 = #[verifier::truncate] (q.x as i32);
            let pyi: i32 = #[verifier::truncate] (p.y as i32);
            let qyi: i32 = #[verifier::truncate] (q.y as i32);
            let ax: i64 = pxi as i64;
            let bx: i64 = qxi as i64;
            let ay: i64 = pyi as i64;
            let by: i64 = qyi as i64;
            let dx: i64 = ax - bx;
            let dy: i64 = ay - by;
            if dx < -2147483648i64 || dx > 2147483647i64 || dy < -2147483648i64 || dy > 2147483647i64 {
                assert(!pair_fits(p, q));
                assert(nearby_scan(*rule, ents@, p, j as int) == None::<bool>);
                return None;
            }
            assert(pair_fits(p, q));
            if -1 <= dx && dx <= 1 && -1 <= dy && dy <= 1 && has_all_tags(&ents[j].0, &rule.nearby_tag_ids) {
                assert(touching(p, q));
                assert(nearby_scan(*rule, ents@, p, j as int) == Some(true));
                return Some(true);
            }
        }
        j = j + 1;
    }
    Some(false)
}

/// Whether the event may fire this turn (see `eligible`).
pub fn narrative_eligible(rule: &NarrativeRule, player_tags: Option<&Tags>, cooldowns: &NarrativeCooldowns, turn: u64) -> (r: bool)
    requires
        rule.entity_tag_ids@.len() > 0 ==> (last_fired_at(cooldowns.entries(), rule.id@) matches Some(l)
            ==> l + rule.cooldown_ticks <= u64::MAX),
    ensures
        r == eligible(*rule, match player_tags { Some(t) => Some(*t), None => None },
            last_fired_at(cooldowns.entries(), rule.id@), turn),
{
    if rule.entity_tag_ids.len() == 0 {
        return false;
    }
    if let Some(last) = cooldowns.get(rule.id.as_str()) {
        if turn < last + rule.cooldown_ticks {
            return false;
        }
    }
    if rule.player_tag_ids.len() > 0 {
        match player_tags {
            Some(pt) => has_all_tags(pt, &rule.player_tag_ids),
            None => false,
        }
    } else {
        true
    }
}

/// The message texts of plain message events.
pub open spec fn message_of(e: GameEvent) -> Option<Seq<char>> {
    match e {
        GameEvent::Message(m) => Some(m@),
        _ => None,
    }
}

/// Records the events that fired this turn: their messages go on the bus in order, and each
/// one's cooldown restarts at this turn.
pub fn record_narrative(fired: &Vec<&NarrativeRule>, turn: u64, bus: &mut EventBus, cooldowns: &mut NarrativeCooldowns)
    ensures
        final(bus).events@.len() == old(bus).events@.len() + fired@.len(),
        final(bus).events@.subrange(0, old(bus).events@.len() as int) == old(bus).events@,
        forall|k: int| 0 <= k < fired@.len() ==>
            message_of(#[trigger] final(bus).events@[old(bus).events@.len() + k]) == Some(fired@[k].message@),
        forall|k: int| 0 <= k < fired@.len() ==> #[trigger] last_fired_at(final(cooldowns).entries(), fired@[k].id@) == Some(turn),
        forall|other: Seq<char>| (forall|k: int| 0 <= k < fired@.len() ==> #[trigger] fired@[k].id@ != other) ==>
            #[trigger] last_fired_at(final(cooldowns).entries(), other) == last_fired_at(old(cooldowns).entries(), other),
{
    let ghost ev0 = bus.events@;
    let ghost cd0 = cooldowns.last_fired@;
    let mut k: usize = 0;
    while k < fired.len()
        invariant
            k <= fired@.len(),
            bus.events@.len() == ev0.len() + k,
            bus.events@.subrange(0, ev0.len() as int) == ev0,
            forall|j: int| 0 <= j < k ==> message_of(#[trigger] bus.events@[ev0.len() + j]) == Some(fired@[j].message@),
            forall|j: int| 0 <= j < k ==> #[trigger] last_fired_at(cooldowns.last_fired@, fired@[j].id@) == Some(turn),
            forall|other: Seq<char>| (forall|j: int| 0 <= j < k ==> #[trigger] fired@[j].id@ != other) ==>
                #[trigger] last_fired_at(cooldowns.last_fired@, other) == last_fired_at(cd0, other),
        decreases fired.len() - k,
    {
        let ghost before = bus.events@;
        let rule = fired[k];
        bus.push(GameEvent::Message(rule.message.clone()));
        cooldowns.insert(rule.id.clone(), turn);
        assert(bus.events@.subrange(0, ev0.len() as int) =~= ev0) by {
            assert forall|j: int| 0 <= j < ev0.len() implies bus.events@[j] == ev0[j] by {
                assert(before.subrange(0, ev0.len() as int)[j] == ev0[j]);
            }
        }
        assert forall|j: int| 0 <= j < k + 1 implies message_of(#[trigger] bus.events@[ev0.len() + j]) == Some(fired@[j].message@) by {
            if j < k { assert(bus.events@[ev0.len() + j] == before[ev0.len() + j]); }
        }
        assert forall|j: int| 0 <= j < k + 1 implies #[trigger] last_fired_at(cooldowns.last_fired@, fired@[j].id@) == Some(turn) by {
            if j < k && fired@[j].id@ != fired@[k as int].id@ {
                assert(last_fired_at(cooldowns.last_fired@, fired@[j].id@) == Some(turn));
            }
        }
        k = k + 1;
    }
}


/// An event that fired on a turn may not fire again until its cooldown has passed.
pub proof fn law_cooldown_holds(rule: NarrativeRule, player: Option<Tags>, fired_on: u64, turn: u64)
    requires
        turn < fired_on + rule.cooldown_ticks,
    ensures
        !eligible(rule, player, Some(fired_on), turn),
{
}

} // verus!
