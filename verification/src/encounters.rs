//! Random encounters on the overworld: weighted choice among encounter kinds, the
//! chance of one happening, and what an encounter puts into the world.
use vstd::prelude::*;
use vstd::string::*;
use crate::components::{EntityId, Glyph, Health, Position};
use crate::dice::std_range_u32;
use crate::events::{EventBus, GameEvent};
use crate::tags::{TagId, TagRegistry, Tags, first_index, lemma_first_index, lemma_prefix_first, presence_of, tags_from_names};
use crate::text::{decimal, str_eq, u32_text, views};
use crate::weather::{weight_total, weighted_pick, total_weight, pick_weighted, lemma_weight_total_prefix};

verus! {

/// Creatures an encounter puts down: `count` of them on a diagonal from the offset.
#[derive(Debug)]
pub struct EncounterSpawn {
    pub name: String,
    pub glyph: char,
    pub color: [u8; 3],
    pub tags: Vec<String>,
    pub health: u32,
    pub count: u32,
    pub offset_x: i32,
    pub offset_y: i32,
}

/// Items an encounter leaves on the player's tile.
#[derive(Debug)]
pub struct EncounterLoot {
    pub name: String,
    pub glyph: char,
    pub color: [u8; 3],
    pub tags: Vec<String>,
    pub count: u32,
}

/// What a hazard does: damage to the player and a message.
#[derive(Debug)]
pub struct EncounterEffect {
    pub damage: u32,
    pub message: String,
}

/// A kind of encounter.
#[derive(Debug)]
pub struct EncounterDef {
    pub id: String,
    pub name: String,
    pub description: String,
    /// Relative chance among the encounter kinds.
    pub weight: u32,
    pub min_distance: u32,
    /// "hazard" for encounters whose effects apply.
    pub kind: String,
    pub spawn: Vec<EncounterSpawn>,
    pub loot: Vec<EncounterLoot>,
    pub effect: Vec<EncounterEffect>,
}

/// The encounter kinds of the world.
#[derive(Debug)]
pub struct Encounters {
    pub defs: Vec<EncounterDef>,
}

/// The weights of encounter kinds.
pub open spec fn encounter_weights(defs: Seq<EncounterDef>) -> Seq<u32> {
    defs.map_values(|d: EncounterDef| d.weight)
}

/// The ids of encounter kinds.
pub open spec fn encounter_ids(defs: Seq<EncounterDef>) -> Seq<Seq<char>> {
    defs.map_values(|d: EncounterDef| d.id@)
}

/// The kind a roll selects: where it lands among the weights, or the last kind when it
/// lands past them all; none without kinds.
pub open spec fn encounter_for_roll(defs: Seq<EncounterDef>, roll: int) -> Option<int> {
    match weighted_pick(encounter_weights(defs), roll) {
        Some(i) => Some(i),
        None => if defs.len() > 0 { Some(defs.len() - 1) } else { None },
    }
}

impl Encounters {
    /// Encounter kinds from their definitions.
    pub fn new(defs: Vec<EncounterDef>) -> (r: Self)
        ensures
            r.defs@ == defs@,
    {
        Encounters { defs }
    }

    fn weights(&self) -> (r: Vec<u32>)
        ensures
            r@ == encounter_weights(self.defs@),
    {
        let mut r: Vec<u32> = Vec::new();
        let mut i: usize = 0;
        while i < self.defs.len()
            invariant
                i <= self.defs@.len(),
                r@ == encounter_weights(self.defs@.subrange(0, i as int)),
            decreases self.defs.len() - i,
        {
            r.push(self.defs[i].weight);
            i = i + 1;
            assert(r@ =~= encounter_weights(self.defs@.subrange(0, i as int)));
        }
        assert(self.defs@.subrange(0, self.defs@.len() as int) =~= self.defs@);
        r
    }

    /// The first kind with the given id.
    pub fn def_by_id(&self, id: &str) -> (r: Option<&EncounterDef>)
        ensures
            match first_index(encounter_ids(self.defs@), id@) {
                Some(i) => r == Some(&self.defs@[i]),
                None => r is None,
            },
    {
        let ghost ids = encounter_ids(self.defs@);
        let mut i: usize = 0;
        while i < self.defs.len()
            invariant
                i <= self.defs@.len(),
                ids == encounter_ids(self.defs@),
                first_index(ids.subrange(0, i as int), id@) is None,
            decreases self.defs.len() - i,
        {
            assert(ids.subrange(0, i + 1).drop_last() =~= ids.subrange(0, i as int));
            if str_eq(self.defs[i].id.as_str(), id) {
                proof {
                    assert(ids.subrange(0, i + 1).last() == id@);
                    lemma_prefix_first(ids, id@, i + 1);
                }
                return Some(&self.defs[i]);
            }
            i = i + 1;
        }
        assert(ids.subrange(0, self.defs@.len() as int) =~= ids);
        None
    }

    /// The sum of the kinds' weights.
    pub fn total_weight(&self) -> (r: u32)
        requires
            weight_total(encounter_weights(self.defs@)) <= u32::MAX,
        ensures
            r == weight_total(encounter_weights(self.defs@)),
    {
        let w = self.weights();
        match total_weight(&w) {
            Some(t) => t,
            None => 0,
        }
    }

    /// The kind a given roll selects (see `encounter_for_roll`).
    pub fn encounter_at(&self, roll: u32) -> (r: Option<&EncounterDef>)
        ensures
            match encounter_for_roll(self.defs@, roll as int) {
                Some(i) => r == Some(&self.defs@[i]),
                None => r is None,
            },
    {
        let w = self.weights();
        match pick_weighted(&w, roll) {
            Some(i) => {
                proof { crate::weather::lemma_weighted_pick_bounds(w@, roll as int); }
                Some(&self.defs[i])
            },
            None => {
                if self.defs.len() > 0 {
                    Some(&self.defs[self.defs.len() - 1])
                } else {
                    None
                }
            },
        }
    }

    /// A kind chosen at random in proportion to the weights; none when the weights sum to 0.
    pub fn random_encounter(&self, rng: &mut rand::rngs::StdRng) -> (r: Option<&EncounterDef>)
        requires
            weight_total(encounter_weights(self.defs@)) <= u32::MAX,
        ensures
            weight_total(encounter_weights(self.defs@)) == 0 ==> r is None,
            weight_total(encounter_weights(self.defs@)) > 0 ==> exists|roll: int|
                0 <= roll < weight_total(encounter_weights(self.defs@))
                && (#[trigger] weighted_pick(encounter_weights(self.defs@), roll) matches Some(i)
                    && r == Some(&self.defs@[i])),
    {
        let total = self.total_weight();
        if total == 0 {
            return None;
        }
        let roll = std_range_u32(rng, 0, total);
        proof { crate::weather::law_weighted_pick_lands(encounter_weights(self.defs@), roll as int); }
        self.encounter_at(roll)
    }
}

/// Names of the biomes where encounters come more often.
pub open spec fn hostile_biome(k: int) -> Seq<char> {
    if k == 0 { "BIOME_SWAMP"@ } else if k == 1 { "BIOME_VOLCANIC"@ } else if k == 2 { "BIOME_DESERT"@ }
    else if k == 3 { "BIOME_TUNDRA"@ } else { "BIOME_TAIGA"@ }
}

/// Whether the tag named `name` is registered and among `ids`.
pub open spec fn named_in(reg: TagRegistry, name: Seq<char>, ids: Seq<TagId>) -> bool {
    reg.id_of(name) matches Some(id) && ids.contains(id)
}

/// The number of the first `k` hostile biomes that are among the biome tags.
pub open spec fn hostile_count(reg: TagRegistry, biome_tags: Seq<TagId>, k: int) -> int
    decreases k,
{
    if k <= 0 { 0 } else { hostile_count(reg, biome_tags, k - 1) + if named_in(reg, hostile_biome(k - 1), biome_tags) { 1int } else { 0int } }
}

/// The chance of an encounter this step, in percent: 8 (4 near a location), plus 5 in the dark,
/// 3 in a storm and 2 in reduced visibility (by the weather's applied tags), plus 3 for each
/// hostile biome among the biome tags. Without a registry no modifier applies.
pub open spec fn encounter_chance(near_location: bool, weather_tags: Option<Seq<TagId>>, biome_tags: Seq<TagId>, reg: Option<TagRegistry>) -> int {
    let base: int = if near_location { 4 } else { 8 };
    let weather: int = match (weather_tags, reg) {
        (Some(w), Some(r)) =>
            (if named_in(r, "DARK"@, w) { 5int } else { 0int })
            + (if named_in(r, "STORMY"@, w) { 3int } else { 0int })
            + (if named_in(r, "REDUCED_VISIBILITY"@, w) { 2int } else { 0int }),
        _ => 0,
    };
    let biome: int = match reg {
        Some(r) => 3 * hostile_count(r, biome_tags, 5),
        None => 0,
    };
    base + weather + biome
}

fn contains_tag(ids: &Vec<TagId>, t: TagId) -> (r: bool)
    ensures
        r == ids@.contains(t),
{
    let mut i: usize = 0;
    while i < ids.len()
        invariant
            i <= ids@.len(),
            forall|j: int| 0 <= j < i ==> ids@[j] != t,
        decreases ids.len() - i,
    {
        if ids[i] == t {
            assert(ids@[i as int] == t);
            return true;
        }
        i = i + 1;
    }
    false
}

fn named_tag_in(reg: &TagRegistry, name: &str, ids: &Vec<TagId>) -> (r: bool)
    ensures
        r == named_in(*reg, name@, ids@),
{
    match reg.tag_id(name) {
        Some(id) => contains_tag(ids, id),
        None => false,
    }
}

fn hostile_name(k: usize) -> (r: &'static str)
    ensures
        r@ == hostile_biome(k as int),
{
    if k == 0 { "BIOME_SWAMP" } else if k == 1 { "BIOME_VOLCANIC" } else if k == 2 { "BIOME_DESERT" }
    else if k == 3 { "BIOME_TUNDRA" } else { "BIOME_TAIGA" }
}

/// The chance of an encounter this step, in percent (see `encounter_chance`).
pub fn encounter_chance_percent(near_location: bool, weather_tags: Option<&Vec<TagId>>, biome_tags: &Vec<TagId>, registry: Option<&TagRegistry>) -> (r: u32)
    ensures
        r == encounter_chance(near_location, match weather_tags { Some(w) => Some(w@), None => None }, biome_tags@,
            match registry { Some(g) => Some(*g), None => None }),
{
    let mut chance: u32 = if near_location { 4 } else { 8 };
    match (weather_tags, registry) {
        (Some(w), Some(reg)) => {
            if named_tag_in(reg, "DARK", w) { chance = chance + 5; }
            if named_tag_in(reg, "STORMY", w) { chance = chance + 3; }
            if named_tag_in(reg, "REDUCED_VISIBILITY", w) { chance = chance + 2; }
        },
        _ => {},
    }
    match registry {
        Some(reg) => {
            let ghost base = chance;
            let mut k: usize = 0;
            while k < 5
                invariant
                    k <= 5,
                    base <= 18,
                    chance == base + 3 * hostile_count(*reg, biome_tags@, k as int),
                    hostile_count(*reg, biome_tags@, k as int) <= k,
                decreases 5 - k,
            {
                if named_tag_in(reg, hostile_name(k), biome_tags) {
                    chance = chance + 3;
                }
                k = k + 1;
            }
        },
        None => {},
    }
    chance
}


/// A creature an encounter puts into the world.
#[derive(Debug)]
pub struct SpawnedCreature {
    pub id: EntityId,
    pub name: String,
    pub glyph: Glyph,
    pub position: Position,
    pub tags: Tags,
    pub health: Health,
}

/// An item an encounter leaves in the world.
#[derive(Debug)]
pub struct SpawnedItem {
    pub id: EntityId,
    pub name: String,
    pub glyph: Glyph,
    pub position: Position,
    pub tags: Tags,
}

/// What an encounter put into the world.
#[derive(Debug)]
pub struct EncounterOutcome {
    pub creatures: Vec<SpawnedCreature>,
    pub items: Vec<SpawnedItem>,
}

/// The copies to make of a list of spawns or loot: `(entry, copy)` pairs, entry by entry.
pub open spec fn copies(counts: Seq<u32>) -> Seq<(int, int)>
    decreases counts.len(),
{
    if counts.len() == 0 {
        seq![]
    } else {
        copies(counts.drop_last()) + Seq::new(counts.last() as nat, |i: int| ((counts.len() - 1) as int, i))
    }
}

/// The copy counts of spawns.
pub open spec fn spawn_counts(s: Seq<EncounterSpawn>) -> Seq<u32> {
    s.map_values(|x: EncounterSpawn| x.count)
}

/// The copy counts of loot.
pub open spec fn loot_counts(l: Seq<EncounterLoot>) -> Seq<u32> {
    l.map_values(|x: EncounterLoot| x.count)
}

/// Where copy `i` of a spawn stands: the offset from `pos`, moved `i` tiles down the diagonal.
pub open spec fn spawn_position(pos: Position, s: EncounterSpawn, i: int) -> Position {
    Position {
        x: ((pos.x as i32) + s.offset_x + (i as i32)) as u32,
        y: ((pos.y as i32) + s.offset_y + (i as i32)) as u32,
        z: 0,
    }
}

/// Whether placing every copy of every spawn stays within `i32` arithmetic.
pub open spec fn spawns_in_range(pos: Position, spawns: Seq<EncounterSpawn>) -> bool {
    forall|j: int, i: int| 0 <= j < spawns.len() && 0 <= i < spawns[j].count ==> {
        let s = #[trigger] spawns[j];
        &&& i32::MIN <= (pos.x as i32) + s.offset_x <= i32::MAX
        &&& i32::MIN <= (pos.x as i32) + s.offset_x + (#[trigger] (i as i32)) <= i32::MAX
        &&& i32::MIN <= (pos.y as i32) + s.offset_y <= i32::MAX
        &&& i32::MIN <= (pos.y as i32) + s.offset_y + (i as i32) <= i32::MAX
    }
}

/// Whether creature `c` is copy `i` of spawn `s` placed from `pos`, with id `id`.
pub open spec fn is_spawned(c: SpawnedCreature, s: EncounterSpawn, i: int, pos: Position, id: int, reg: TagRegistry) -> bool {
    &&& c.id == id
    &&& c.name@ == s.name@
    &&& c.glyph == Glyph { char: s.glyph, color: (s.color[0], s.color[1], s.color[2]) }
    &&& c.position == spawn_position(pos, s, i)
    &&& c.tags.present@ == presence_of(s.tags@, reg)
    &&& c.health == Health { current: s.health, max: s.health }
}

/// Whether item `t` is a copy of loot `l` on `pos`, with id `id`.
pub open spec fn is_dropped(t: SpawnedItem, l: EncounterLoot, pos: Position, id: int, reg: TagRegistry) -> bool {
    &&& t.id == id
    &&& t.name@ == l.name@
    &&& t.glyph == Glyph { char: l.glyph, color: (l.color[0], l.color[1], l.color[2]) }
    &&& t.position == Position { x: pos.x, y: pos.y, z: 0 }
    &&& t.tags.present@ == presence_of(l.tags@, reg)
}

proof fn lemma_copies_step(counts: Seq<u32>, j: int)
    requires
        0 <= j < counts.len(),
    ensures
        copies(counts.subrange(0, j + 1)) == copies(counts.subrange(0, j))
            + Seq::new(counts[j] as nat, |i: int| (j, i)),
{
    assert(counts.subrange(0, j + 1).drop_last() =~= counts.subrange(0, j));
}

fn spawn_creatures(spawns: &Vec<EncounterSpawn>, pos: Position, registry: &TagRegistry, first_id: EntityId) -> (r: Vec<SpawnedCreature>)
    requires
        spawns_in_range(pos, spawns@),
        first_id + copies(spawn_counts(spawns@)).len() <= u64::MAX,
    ensures
        r@.len() == copies(spawn_counts(spawns@)).len(),
        forall|k: int| 0 <= k < r@.len() ==> {
            let c = #[trigger] copies(spawn_counts(spawns@))[k];
            is_spawned(r@[k], spawns@[c.0], c.1, pos, first_id + k, *registry)
        },
{
    let ghost counts = spawn_counts(spawns@);
    let mut r: Vec<SpawnedCreature> = Vec::new();
    let mut j: usize = 0;
    while j < spawns.len()
        invariant
            j <= spawns@.len(),
            counts == spawn_counts(spawns@),
            spawns_in_range(pos, spawns@),
            first_id + copies(counts).len() <= u64::MAX,
            r@.len() == copies(counts.subrange(0, j as int)).len(),
            forall|k: int| 0 <= k < r@.len() ==> {
                let c = #[trigger] copies(counts.subrange(0, j as int))[k];
                is_spawned(r@[k], spawns@[c.0], c.1, pos, first_id + k, *registry)
            },
        decreases spawns.len() - j,
    {
        proof {
            lemma_copies_step(counts, j as int);
            lemma_copies_prefix(counts, j as int + 1);
        }
        let ghost base = copies(counts.subrange(0, j as int));
        let ghost next = copies(counts.subrange(0, j + 1));
        let s = &spawns[j];
        let mut i: u32 = 0;
        while i < s.count
            invariant
                j < spawns@.len(),
                *s == spawns@[j as int],
                i <= s.count,
                spawns_in_range(pos, spawns@),
                next == base + Seq::new(s.count as nat, |x: int| (j as int, x)),
                first_id + next.len() <= u64::MAX,
                r@.len() == base.len() + i,
                forall|k: int| 0 <= k < r@.len() ==> {
                    let c = #[trigger] next[k];
                    is_spawned(r@[k], spawns@[c.0], c.1, pos, first_id + k, *registry)
                },
            decreases s.count - i,
        {
            assert(i32::MIN <= (pos.x as i32) + s.offset_x + (i as i32) <= i32::MAX);
            let x = ((pos.x as i32) + s.offset_x + (i as i32)) as u32;
            let y = ((pos.y as i32) + s.offset_y + (i as i32)) as u32;
            let id = first_id + r.len() as u64;
            let tags = tags_from_names(&s.tags, registry);
            r.push(SpawnedCreature {
                id,
                name: s.name.clone(),
                glyph: Glyph { char: s.glyph, color: (s.color[0], s.color[1], s.color[2]) },
                position: Position { x, y, z: 0 },
                tags,
                health: Health { current: s.health, max: s.health },
            });
            assert(next[r@.len() - 1] == (j as int, i as int));
            i = i + 1;
        }
        j = j + 1;
    }
    assert(counts.subrange(0, spawns@.len() as int) =~= counts);
    r
}

proof fn lemma_copies_prefix(counts: Seq<u32>, j: int)
    requires
        0 <= j <= counts.len(),
    ensures
        copies(counts.subrange(0, j)).len() <= copies(counts).len(),
    decreases counts.len() - j,
{
    if j < counts.len() {
        lemma_copies_step(counts, j);
        lemma_copies_prefix(counts, j + 1);
    } else {
        assert(counts.subrange(0, j) =~= counts);
    }
}

fn drop_loot(loot: &Vec<EncounterLoot>, pos: Position, registry: &TagRegistry, first_id: EntityId) -> (r: Vec<SpawnedItem>)
    requires
        first_id + copies(loot_counts(loot@)).len() <= u64::MAX,
    ensures
        r@.len() == copies(loot_counts(loot@)).len(),
        forall|k: int| 0 <= k < r@.len() ==> {
            let c = #[trigger] copies(loot_counts(loot@))[k];
            is_dropped(r@[k], loot@[c.0], pos, first_id + k, *registry)
        },
{
    let ghost counts = loot_counts(loot@);
    let mut r: Vec<SpawnedItem> = Vec::new();
    let mut j: usize = 0;
    while j < loot.len()
        invariant
            j <= loot@.len(),
            counts == loot_counts(loot@),
            first_id + copies(counts).len() <= u64::MAX,
            r@.len() == copies(counts.subrange(0, j as int)).len(),
            forall|k: int| 0 <= k < r@.len() ==> {
                let c = #[trigger] copies(counts.subrange(0, j as int))[k];
                is_dropped(r@[k], loot@[c.0], pos, first_id + k, *registry)
            },
        decreases loot.len() - j,
    {
        proof {
            lemma_copies_step(counts, j as int);
            lemma_copies_prefix(counts, j as int + 1);
        }
        let ghost base = copies(counts.subrange(0, j as int));
        let ghost next = copies(counts.subrange(0, j + 1));
        let l = &loot[j];
        let mut i: u32 = 0;
        while i < l.count
            invariant
                j < loot@.len(),
                *l == loot@[j as int],
                i <= l.count,
                next == base + Seq::new(l.count as nat, |x: int| (j as int, x)),
                first_id + next.len() <= u64::MAX,
                r@.len() == base.len() + i,
                forall|k: int| 0 <= k < r@.len() ==> {
                    let c = #[trigger] next[k];
                    is_dropped(r@[k], loot@[c.0], pos, first_id + k, *registry)
                },
            decreases l.count - i,
        {
            let id = first_id + r.len() as u64;
            let tags = tags_from_names(&l.tags, registry);
            r.push(SpawnedItem {
                id,
                name: l.name.clone(),
                glyph: Glyph { char: l.glyph, color: (l.color[0], l.color[1], l.color[2]) },
                position: Position { x: pos.x, y: pos.y, z: 0 },
                tags,
            });
            assert(next[r@.len() - 1] == (j as int, i as int));
            i = i + 1;
        }
        j = j + 1;
    }
    assert(counts.subrange(0, loot@.len() as int) =~= counts);
    r
}


/// The text of an event that carries a plain message.
pub open spec fn message_text(e: GameEvent) -> Option<Seq<char>> {
    match e {
        GameEvent::Message(m) => Some(m@),
        _ => None,
    }
}

/// The messages a hazard's effects raise, in order: each effect's message when it has one,
/// then, when it deals damage and there is a player, "You take N damage!".
pub open spec fn hazard_messages(effects: Seq<EncounterEffect>, player: bool) -> Seq<Seq<char>>
    decreases effects.len(),
{
    if effects.len() == 0 {
        seq![]
    } else {
        let e = effects.last();
        hazard_messages(effects.drop_last(), player)
            + (if e.message@.len() > 0 { seq![e.message@] } else { seq![] })
            + (if e.damage > 0 && player { seq!["You take "@ + decimal(e.damage as nat) + " damage!"@] } else { seq![] })
    }
}

/// The player's hit points after a hazard's effects: each damaging effect takes its damage,
/// stopping at zero.
pub open spec fn hazard_hp(hp: u32, effects: Seq<EncounterEffect>) -> u32
    decreases effects.len(),
{
    if effects.len() == 0 {
        hp
    } else {
        let before = hazard_hp(hp, effects.drop_last());
        let d = effects.last().damage;
        if d > 0 { if before >= d { (before - d) as u32 } else { 0 } } else { before }
    }
}

fn apply_hazard(effects: &Vec<EncounterEffect>, player_health: &mut Option<Health>, bus: &mut EventBus)
    ensures
        final(player_health).is_some() == old(player_health).is_some(),
        old(player_health).is_some() ==> final(player_health).unwrap().current
            == hazard_hp(old(player_health).unwrap().current, effects@),
        old(player_health).is_some() ==> final(player_health).unwrap().max == old(player_health).unwrap().max,
        final(bus).events@.len() == old(bus).events@.len() + hazard_messages(effects@, old(player_health).is_some()).len(),
        final(bus).events@.subrange(0, old(bus).events@.len() as int) == old(bus).events@,
        forall|k: int| 0 <= k < hazard_messages(effects@, old(player_health).is_some()).len() ==>
            message_text(#[trigger] final(bus).events@[old(bus).events@.len() + k])
                == Some(hazard_messages(effects@, old(player_health).is_some())[k]),
{
    let ghost player = player_health.is_some();
    let ghost start = bus.events@;
    let ghost h0 = *player_health;
    let mut j: usize = 0;
    while j < effects.len()
        invariant
            j <= effects@.len(),
            player_health.is_some() == player,
            player == h0.is_some(),
            player ==> player_health.unwrap().current == hazard_hp(h0.unwrap().current, effects@.subrange(0, j as int)),
            player ==> player_health.unwrap().max == h0.unwrap().max,
            bus.events@.len() == start.len() + hazard_messages(effects@.subrange(0, j as int), player).len(),
            bus.events@.subrange(0, start.len() as int) == start,
            forall|k: int| 0 <= k < hazard_messages(effects@.subrange(0, j as int), player).len() ==>
                message_text(#[trigger] bus.events@[start.len() + k])
                    == Some(hazard_messages(effects@.subrange(0, j as int), player)[k]),
        decreases effects.len() - j,
    {
        let ghost pre = effects@.subrange(0, j as int);
        assert(effects@.subrange(0, j + 1).drop_last() =~= pre);
        let ghost msgs_before = hazard_messages(pre, player);
        let ghost before = bus.events@;
        let e = &effects[j];
        let has_message = e.message.as_str().unicode_len() > 0;
        if has_message {
            bus.push(GameEvent::Message(e.message.clone()));
        }
        let ghost mid = bus.events@;
        let mut took = false;
        if e.damage > 0 {
            match player_health {
                Some(hp) => {
                    hp.current = hp.current.saturating_sub(e.damage);
                    let d = u32_text(e.damage);
                    let mut m = String::from_str("You take ");
                    m.append(d.as_str());
                    m.append(" damage!");
                    bus.push(GameEvent::Message(m));
                    took = true;
                },
                None => {},
            }
        }
        let ghost added: Seq<Seq<char>> = (if e.message@.len() > 0 { seq![e.message@] } else { seq![] })
            + (if e.damage > 0 && player { seq!["You take "@ + decimal(e.damage as nat) + " damage!"@] } else { seq![] });
        assert(hazard_messages(effects@.subrange(0, j + 1), player) == msgs_before + added);
        assert forall|k: int| 0 <= k < msgs_before.len() + added.len() implies
            message_text(#[trigger] bus.events@[start.len() + k]) == Some((msgs_before + added)[k]) by {
            if k < msgs_before.len() {
                assert(bus.events@[start.len() + k] == before[start.len() + k]);
            } else if has_message && k == msgs_before.len() {
                assert(bus.events@[start.len() + k] == mid[start.len() + k]);
            }
        }
        assert(bus.events@.subrange(0, start.len() as int) =~= start) by {
            assert forall|k: int| 0 <= k < start.len() implies bus.events@[k] == start[k] by {
                assert(before.subrange(0, start.len() as int)[k] == start[k]);
            }
        }
        j = j + 1;
    }
    assert(effects@.subrange(0, effects@.len() as int) =~= effects@);
}

/// Everything spawned by an encounter: how many entities it makes.
pub open spec fn spawned_total(d: EncounterDef) -> nat {
    copies(spawn_counts(d.spawn@)).len() + copies(loot_counts(d.loot@)).len()
}

/// Whether the encounter with the given id can be placed at `pos` with ids from `first_id` on.
pub open spec fn encounter_fits(encounters: Encounters, id: Seq<char>, pos: Position, first_id: EntityId) -> bool {
    match first_index(encounter_ids(encounters.defs@), id) {
        Some(i) => spawns_in_range(pos, encounters.defs@[i].spawn@)
            && first_id + spawned_total(encounters.defs@[i]) <= u64::MAX,
        None => true,
    }
}

/// What running encounter kind `d` does to the player's health, the bus and the world.
pub open spec fn encounter_done(
    d: EncounterDef,
    pos: Position,
    reg: TagRegistry,
    first_id: EntityId,
    hp0: Option<Health>,
    hp1: Option<Health>,
    ev0: Seq<GameEvent>,
    ev1: Seq<GameEvent>,
    r: EncounterOutcome,
) -> bool {
    let hazard = d.kind@ == "hazard"@;
    let msgs = if hazard { hazard_messages(d.effect@, hp0.is_some()) } else { seq![] };
    let n = copies(spawn_counts(d.spawn@)).len();
    &&& hp1.is_some() == hp0.is_some()
    &&& hp0.is_some() ==> hp1.unwrap().max == hp0.unwrap().max
    &&& hp0.is_some() ==> hp1.unwrap().current
            == (if hazard { hazard_hp(hp0.unwrap().current, d.effect@) } else { hp0.unwrap().current })
    &&& ev1.len() == ev0.len() + msgs.len()
    &&& ev1.subrange(0, ev0.len() as int) == ev0
    &&& forall|k: int| 0 <= k < msgs.len() ==> message_text(#[trigger] ev1[ev0.len() + k]) == Some(msgs[k])
    &&& r.creatures@.len() == n
    &&& forall|k: int| 0 <= k < n ==> {
            let c = #[trigger] copies(spawn_counts(d.spawn@))[k];
            is_spawned(r.creatures@[k], d.spawn@[c.0], c.1, pos, first_id + k, reg)
        }
    &&& r.items@.len() == copies(loot_counts(d.loot@)).len()
    &&& forall|k: int| 0 <= k < r.items@.len() ==> {
            let c = #[trigger] copies(loot_counts(d.loot@))[k];
            is_dropped(r.items@[k], d.loot@[c.0], pos, first_id + n + k, reg)
        }
}

/// Runs the encounter with the given id at `pos`: a hazard applies its effects (messages on
/// the bus, damage to the player, never below zero), then the creatures and the loot are made
/// with ids from `first_id` on, creatures first. Nothing happens for an unknown id.
pub fn spawn_encounter(
    encounters: &Encounters,
    encounter_id: &str,
    pos: Position,
    registry: &TagRegistry,
    player_health: &mut Option<Health>,
    bus: &mut EventBus,
    first_id: EntityId,
) -> (r: EncounterOutcome)
    requires
        encounter_fits(*encounters, encounter_id@, pos, first_id),
    ensures
        first_index(encounter_ids(encounters.defs@), encounter_id@) is None ==> r.creatures@.len() == 0
            && r.items@.len() == 0 && *final(player_health) == *old(player_health)
            && final(bus).events@ == old(bus).events@,
        first_index(encounter_ids(encounters.defs@), encounter_id@) is Some ==> encounter_done(
            encounters.defs@[first_index(encounter_ids(encounters.defs@), encounter_id@).unwrap()],
            pos, *registry, first_id, *old(player_health), *final(player_health),
            old(bus).events@, final(bus).events@, r),
{
    proof { lemma_first_index(encounter_ids(encounters.defs@), encounter_id@); }
    let def = match encounters.def_by_id(encounter_id) {
        Some(d) => d,
        None => return EncounterOutcome { creatures: Vec::new(), items: Vec::new() },
    };
    if str_eq(def.kind.as_str(), "hazard") {
        apply_hazard(&def.effect, player_health, bus);
    } else {
        assert(bus.events@.subrange(0, bus.events@.len() as int) =~= bus.events@);
    }
    let creatures = spawn_creatures(&def.spawn, pos, registry, first_id);
    let n = creatures.len() as u64;
    let items = drop_loot(&def.loot, pos, registry, first_id + n);
    EncounterOutcome { creatures, items }
}


/// The encounter chance in closed form: 8 percent (4 near a location); with a registry, 5 more
/// in the dark, 3 in a storm and 2 in reduced visibility, and 3 more for each of the hostile
/// biomes SWAMP, VOLCANIC, DESERT, TUNDRA and TAIGA that is registered and among the biome tags.
pub proof fn law_encounter_chance_closed_form(near: bool, weather: Option<Seq<TagId>>, biome: Seq<TagId>, reg: TagRegistry)
    ensures
        encounter_chance(near, weather, biome, Some(reg)) == (if near { 4int } else { 8int })
            + (match weather {
                Some(w) => (if named_in(reg, "DARK"@, w) { 5int } else { 0int })
                    + (if named_in(reg, "STORMY"@, w) { 3int } else { 0int })
                    + (if named_in(reg, "REDUCED_VISIBILITY"@, w) { 2int } else { 0int }),
                None => 0int,
            })
            + (if named_in(reg, "BIOME_SWAMP"@, biome) { 3int } else { 0int })
            + (if named_in(reg, "BIOME_VOLCANIC"@, biome) { 3int } else { 0int })
            + (if named_in(reg, "BIOME_DESERT"@, biome) { 3int } else { 0int })
            + (if named_in(reg, "BIOME_TUNDRA"@, biome) { 3int } else { 0int })
            + (if named_in(reg, "BIOME_TAIGA"@, biome) { 3int } else { 0int }),
        encounter_chance(near, weather, biome, None) == (if near { 4int } else { 8int }),
{
    reveal_with_fuel(hostile_count, 6);
}

/// Each registered hostile biome among the biome tags raises the chance by exactly 3 over the
/// same tags without it.
pub proof fn law_hostile_biome_adds_three(near: bool, weather: Option<Seq<TagId>>, biome: Seq<TagId>, reg: TagRegistry, k: int, id: TagId)
    requires
        0 <= k < 5,
        reg.defs@.len() <= usize::MAX,
        reg.id_of(hostile_biome(k)) == Some(id),
        !biome.contains(id),
    ensures
        encounter_chance(near, weather, biome.push(id), Some(reg)) == encounter_chance(near, weather, biome, Some(reg)) + 3,
{
    law_encounter_chance_closed_form(near, weather, biome, reg);
    law_encounter_chance_closed_form(near, weather, biome.push(id), reg);
    let b2 = biome.push(id);
    assert(b2[biome.len() as int] == id);
    reveal_strlit("BIOME_SWAMP");
    reveal_strlit("BIOME_VOLCANIC");
    reveal_strlit("BIOME_DESERT");
    reveal_strlit("BIOME_TUNDRA");
    reveal_strlit("BIOME_TAIGA");
    lemma_first_index(reg.names(), hostile_biome(k));
    assert forall|n: Seq<char>| #[trigger] named_in(reg, n, b2) == (named_in(reg, n, biome) || n == hostile_biome(k)) by {
        lemma_first_index(reg.names(), n);
        if n == hostile_biome(k) {
            assert(b2.contains(id));
        }
        if named_in(reg, n, biome) {
            let j = choose|j: int| 0 <= j < biome.len() && biome[j] == reg.id_of(n).unwrap();
            assert(b2[j] == biome[j]);
        }
        if named_in(reg, n, b2) && !named_in(reg, n, biome) {
            let x = reg.id_of(n).unwrap();
            let j = choose|j: int| 0 <= j < b2.len() && b2[j] == x;
            if j < biome.len() {
                assert(biome[j] == x);
            }
            assert(x == id);
            let i1 = first_index(reg.names(), n).unwrap();
            let i2 = first_index(reg.names(), hostile_biome(k)).unwrap();
            assert(reg.names().len() == reg.defs@.len());
            assert(0 <= i1 < reg.defs@.len() && 0 <= i2 < reg.defs@.len());
            assert(i1 as usize == x && i2 as usize == id);
            assert(i1 == i2);
            assert(reg.names()[i1] == n);
        }
    }
    assert(reg.id_of(hostile_biome(k)) == Some(id));
    assert(!named_in(reg, hostile_biome(k), biome));
    assert("BIOME_SWAMP"@[6] != "BIOME_TAIGA"@[6]);
    assert("BIOME_SWAMP"@ != "BIOME_TAIGA"@);
    assert("BIOME_DESERT"@[6] != "BIOME_TUNDRA"@[6]);
    assert("BIOME_DESERT"@ != "BIOME_TUNDRA"@);
    assert("BIOME_SWAMP"@.len() != "BIOME_VOLCANIC"@.len());
    assert("BIOME_SWAMP"@.len() != "BIOME_DESERT"@.len());
    assert("BIOME_SWAMP"@.len() != "BIOME_TUNDRA"@.len());
    assert("BIOME_TAIGA"@.len() != "BIOME_VOLCANIC"@.len());
    assert("BIOME_TAIGA"@.len() != "BIOME_DESERT"@.len());
    assert("BIOME_TAIGA"@.len() != "BIOME_TUNDRA"@.len());
    assert("BIOME_VOLCANIC"@.len() != "BIOME_DESERT"@.len());
    assert("BIOME_VOLCANIC"@.len() != "BIOME_TUNDRA"@.len());
    assert(named_in(reg, "BIOME_SWAMP"@, b2) == (named_in(reg, "BIOME_SWAMP"@, biome) || k == 0));
    assert(named_in(reg, "BIOME_VOLCANIC"@, b2) == (named_in(reg, "BIOME_VOLCANIC"@, biome) || k == 1));
    assert(named_in(reg, "BIOME_DESERT"@, b2) == (named_in(reg, "BIOME_DESERT"@, biome) || k == 2));
    assert(named_in(reg, "BIOME_TUNDRA"@, b2) == (named_in(reg, "BIOME_TUNDRA"@, biome) || k == 3));
    assert(named_in(reg, "BIOME_TAIGA"@, b2) == (named_in(reg, "BIOME_TAIGA"@, biome) || k == 4));
}

} // verus!
