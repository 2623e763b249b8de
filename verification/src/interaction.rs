//! Deterministic interaction scenarios (combat, barter, conversation) run on a small model
//! of two entities, with a textual fingerprint of the resulting state.
use vstd::prelude::*;
use vstd::string::*;
use crate::barter::{BarterOffer, BarterResult, resolve_barter, total_value};
use crate::calc::{armor_protection, calc_armor_protection, calc_weapon_damage, weapon_damage};
use crate::components::Equipment;
use crate::dialogue::{DialogueLine, select_dialogue};
use crate::tags::{TagRegistry, Tags, present_ids, presence_of, lemma_present_ids, tags_from_names};
use crate::text::{decimal, join, join_seq, str_eq, u32_text, views};

verus! {

/// An entity to place in a scenario.
pub struct EntitySpec {
    pub name: String,
    pub tag_names: Vec<String>,
    pub hp: u32,
    pub equipment: Vec<EquipmentSpec>,
    pub inventory: Vec<InventorySpec>,
    pub is_player: bool,
}

/// An equipped item: its slot ("weapon", "armor" or "accessory"), name and tags.
pub struct EquipmentSpec {
    pub slot: String,
    pub name: String,
    pub tag_names: Vec<String>,
}

/// A carried item stack.
pub struct InventorySpec {
    pub name: String,
    pub tag_names: Vec<String>,
    pub quantity: u32,
}

/// An attacker striking a defender for a number of turns.
pub struct CombatScenario {
    pub attacker: EntitySpec,
    pub defender: EntitySpec,
    pub num_turns: u32,
}

/// A customer making an offer to a trader.
pub struct BarterScenario {
    pub trader: EntitySpec,
    pub customer: EntitySpec,
    pub offer: BarterOffer,
}

/// A speaker addressing a listener.
pub struct ConversationScenario {
    pub speaker: EntitySpec,
    pub listener: EntitySpec,
    pub dialogue_lines: Vec<DialogueLine>,
    pub faction_standing: String,
}

/// A scenario of any kind.
pub enum InteractionKind {
    Combat(CombatScenario),
    Barter(BarterScenario),
    Conversation(ConversationScenario),
}

/// The state after a scenario.
pub struct InteractionSnapshot {
    pub seed: u64,
    pub kind: &'static str,
    pub entities: Vec<EntitySnapshot>,
    pub combat_rounds: Vec<CombatRoundSnapshot>,
    pub barter_result: Option<BarterResult>,
    pub dialogue_result: Option<String>,
    pub deterministic_fingerprint: String,
}

/// One entity after a scenario.
pub struct EntitySnapshot {
    pub name: String,
    pub hp: u32,
    pub alive: bool,
    pub tags: Vec<String>,
    pub position: (u32, u32),
}

/// One round of combat.
pub struct CombatRoundSnapshot {
    pub round: u32,
    pub attacker: String,
    pub defender: String,
    pub raw_damage: u32,
    pub blocked: u32,
    pub actual_damage: u32,
    pub defender_hp_after: u32,
    pub killed: bool,
}

/// A placed scenario entity: what the snapshot reads of it, and its equipment.
pub struct SimEntity {
    pub name: String,
    pub tags: Tags,
    pub x: u32,
    pub y: u32,
    pub hp_current: u32,
    pub hp_max: u32,
    pub equipment: Equipment,
    pub weapon_tags: Option<Tags>,
    pub armor_tags: Option<Tags>,
}

/// The index of the last equipment entry for a slot, if any.
pub open spec fn last_in_slot(eq: Seq<EquipmentSpec>, slot: Seq<char>) -> Option<int>
    decreases eq.len(),
{
    if eq.len() == 0 {
        None
    } else if eq.last().slot@ == slot {
        Some(eq.len() - 1)
    } else {
        last_in_slot(eq.drop_last(), slot)
    }
}

/// The item equipped in a slot (items are numbered by their equipment entry).
pub open spec fn slot_item(eq: Seq<EquipmentSpec>, slot: Seq<char>) -> Option<u64> {
    match last_in_slot(eq, slot) {
        Some(i) => Some(i as u64),
        None => None,
    }
}

/// The equipment a spec ends up wearing.
pub open spec fn spawned_equipment(eq: Seq<EquipmentSpec>) -> Equipment {
    Equipment { weapon: slot_item(eq, "weapon"@), armor: slot_item(eq, "armor"@), accessory: slot_item(eq, "accessory"@) }
}

/// The tags of the item in a slot, if one is equipped.
pub open spec fn slot_presence(eq: Seq<EquipmentSpec>, slot: Seq<char>, reg: TagRegistry) -> Option<Seq<bool>> {
    match last_in_slot(eq, slot) {
        Some(i) => Some(presence_of(eq[i].tag_names@, reg)),
        None => None,
    }
}

/// The presence table of an optional tag set.
pub open spec fn opt_presence(t: Option<Tags>) -> Option<Seq<bool>> {
    match t {
        Some(t) => Some(t.present@),
        None => None,
    }
}

proof fn lemma_last_in_slot_bound(eq: Seq<EquipmentSpec>, slot: Seq<char>)
    ensures
        last_in_slot(eq, slot) matches Some(i) ==> 0 <= i < eq.len() && eq[i].slot@ == slot,
    decreases eq.len(),
{
    if eq.len() > 0 {
        lemma_last_in_slot_bound(eq.drop_last(), slot);
    }
}

/// Places an entity described by a spec at `(x, y)` with full health; each equipment
/// entry is equipped in its slot (a later entry for a slot replaces an earlier one).
pub fn spawn_entity_spec(spec: &EntitySpec, x: u32, y: u32, registry: &TagRegistry) -> (e: SimEntity)
    requires
        spec.equipment@.len() <= u64::MAX,
    ensures
        e.name@ == spec.name@,
        e.x == x,
        e.y == y,
        e.hp_current == spec.hp,
        e.hp_max == spec.hp,
        e.tags.present@ == presence_of(spec.tag_names@, *registry),
        e.equipment == spawned_equipment(spec.equipment@),
        opt_presence(e.weapon_tags) == slot_presence(spec.equipment@, "weapon"@, *registry),
        opt_presence(e.armor_tags) == slot_presence(spec.equipment@, "armor"@, *registry),
{
    proof {
        reveal_strlit("weapon");
        reveal_strlit("armor");
        reveal_strlit("accessory");
        assert("weapon"@.len() == 6);
        assert("armor"@.len() == 5);
        assert("accessory"@.len() == 9);
    }
    let tags = tags_from_names(&spec.tag_names, registry);
    let mut equipment = Equipment { weapon: None, armor: None, accessory: None };
    let mut weapon_tags: Option<Tags> = None;
    let mut armor_tags: Option<Tags> = None;
    let mut i: usize = 0;
    while i < spec.equipment.len()
        invariant
            i <= spec.equipment@.len(),
            "weapon"@ != "armor"@ && "weapon"@ != "accessory"@ && "armor"@ != "accessory"@,
            equipment == spawned_equipment(spec.equipment@.subrange(0, i as int)),
            opt_presence(weapon_tags) == slot_presence(spec.equipment@.subrange(0, i as int), "weapon"@, *registry),
            opt_presence(armor_tags) == slot_presence(spec.equipment@.subrange(0, i as int), "armor"@, *registry),
        decreases spec.equipment.len() - i,
    {
        let eq = &spec.equipment[i];
        let ghost pre = spec.equipment@.subrange(0, i as int);
        let ghost cur = spec.equipment@.subrange(0, i + 1);
        assert(cur.drop_last() =~= pre);
        assert(cur.last() == *eq);
        proof {
            lemma_last_in_slot_bound(pre, "weapon"@);
            lemma_last_in_slot_bound(pre, "armor"@);
            assert forall|j: int| 0 <= j < pre.len() implies cur[j] == pre[j] by {}
        }
        let item_tags = tags_from_names(&eq.tag_names, registry);
        let item_id = i as u64;
        if str_eq(eq.slot.as_str(), "weapon") {
            equipment.weapon = Some(item_id);
            weapon_tags = Some(item_tags);
        } else if str_eq(eq.slot.as_str(), "armor") {
            equipment.armor = Some(item_id);
            armor_tags = Some(item_tags);
        } else if str_eq(eq.slot.as_str(), "accessory") {
            equipment.accessory = Some(item_id);
        }
        i = i + 1;
    }
    assert(spec.equipment@.subrange(0, spec.equipment@.len() as int) =~= spec.equipment@);
    SimEntity { name: spec.name.clone(), tags, x, y, hp_current: spec.hp, hp_max: spec.hp, equipment, weapon_tags, armor_tags }
}

/// Hit points after `n` hits of `dmg` each (never below 0).
pub open spec fn hp_after_hits(hp: int, dmg: int, n: int) -> int
    decreases n,
{
    if n <= 0 {
        hp
    } else {
        let h = hp_after_hits(hp, dmg, n - 1);
        if h > dmg { h - dmg } else { 0 }
    }
}

/// Rounds fought in at most `turns` turns: combat stops once the defender is down.
pub open spec fn rounds_fought(hp: int, dmg: int, turns: int) -> int
    decreases turns,
{
    if turns <= 0 {
        0
    } else {
        let r = rounds_fought(hp, dmg, turns - 1);
        if r == turns - 1 && hp_after_hits(hp, dmg, turns - 1) > 0 { turns } else { r }
    }
}

/// Damage dealt per hit: the raw damage less the protection, at least 1.
pub open spec fn hit_damage(raw: int, blocked: int) -> int {
    if raw > blocked && raw - blocked > 1 { raw - blocked } else { 1 }
}

/// The raw damage an attacker spec deals.
pub open spec fn spec_raw_damage(a: EntitySpec, reg: TagRegistry) -> int {
    weapon_damage(spawned_equipment(a.equipment@), slot_presence(a.equipment@, "weapon"@, reg), reg)
}

/// The protection a defender spec has.
pub open spec fn spec_blocked(d: EntitySpec, reg: TagRegistry) -> int {
    armor_protection(spawned_equipment(d.equipment@), slot_presence(d.equipment@, "armor"@, reg), reg)
}

/// The damage each hit of a combat scenario deals.
pub open spec fn combat_damage(sc: CombatScenario, reg: TagRegistry) -> int {
    hit_damage(spec_raw_damage(sc.attacker, reg), spec_blocked(sc.defender, reg))
}

/// The names of the present tags, by ascending id.
pub open spec fn tag_names_in(p: Seq<bool>, reg: TagRegistry) -> Seq<Seq<char>> {
    present_ids(p).map_values(|id: usize| reg.defs@[id as int].name@)
}

/// One entity's part of a fingerprint: "name:hp=cur/max:tags=A,B:pos=(x,y)".
pub open spec fn fingerprint_part(name: Seq<char>, hp: int, max: int, tags: Seq<bool>, x: int, y: int, reg: TagRegistry) -> Seq<char> {
    name + ":hp="@ + decimal(hp as nat) + "/"@ + decimal(max as nat) + ":tags="@ + join_seq(tag_names_in(tags, reg), ","@)
        + ":pos=("@ + decimal(x as nat) + ","@ + decimal(y as nat) + ")"@
}

/// The fingerprint of a placed entity.
pub open spec fn sim_part(e: SimEntity, reg: TagRegistry) -> Seq<char> {
    fingerprint_part(e.name@, e.hp_current as int, e.hp_max as int, e.tags.present@, e.x as int, e.y as int, reg)
}

/// The fingerprint of two untouched entities placed at (5, 5) and (6, 5).
pub open spec fn idle_fingerprint(a: EntitySpec, b: EntitySpec, reg: TagRegistry) -> Seq<char> {
    fingerprint_part(a.name@, a.hp as int, a.hp as int, presence_of(a.tag_names@, reg), 5, 5, reg) + "|"@
        + fingerprint_part(b.name@, b.hp as int, b.hp as int, presence_of(b.tag_names@, reg), 6, 5, reg)
}

/// The fingerprint after a combat scenario.
pub open spec fn combat_fingerprint(sc: CombatScenario, reg: TagRegistry) -> Seq<char> {
    let dmg = combat_damage(sc, reg);
    let n = rounds_fought(sc.defender.hp as int, dmg, sc.num_turns as int);
    fingerprint_part(sc.attacker.name@, sc.attacker.hp as int, sc.attacker.hp as int, presence_of(sc.attacker.tag_names@, reg), 5, 5, reg)
        + "|"@ + fingerprint_part(sc.defender.name@, hp_after_hits(sc.defender.hp as int, dmg, n), sc.defender.hp as int,
            presence_of(sc.defender.tag_names@, reg), 6, 5, reg)
}

/// The names of an entity's present tags, by ascending id.
pub fn build_tag_list(tags: &Tags, registry: &TagRegistry) -> (r: Vec<String>)
    requires
        tags.present@.len() <= registry.defs@.len(),
    ensures
        views(r@) == tag_names_in(tags.present@, *registry),
{
    let ids = tags.iter_present();
    let plen = tags.present.len();
    assert(plen == tags.present@.len());
    proof { lemma_present_ids(tags.present@); }
    let mut r: Vec<String> = Vec::new();
    let mut i: usize = 0;
    while i < ids.len()
        invariant
            i <= ids@.len(),
            ids@ == present_ids(tags.present@),
            tags.present@.len() <= registry.defs@.len(),
            forall|k: int| 0 <= k < ids@.len() ==> (#[trigger] ids@[k]) < tags.present@.len(),
            r@.len() == i,
            forall|k: int| 0 <= k < i ==> #[trigger] r@[k]@ == registry.defs@[ids@[k] as int].name@,
        decreases ids.len() - i,
    {
        r.push(registry.tag_by_id(ids[i]).name.clone());
        i = i + 1;
    }
    assert(views(r@) =~= tag_names_in(tags.present@, *registry));
    r
}

fn fingerprint_text(e: &SimEntity, registry: &TagRegistry) -> (r: String)
    requires
        e.tags.present@.len() <= registry.defs@.len(),
    ensures
        r@ == sim_part(*e, *registry),
{
    let mut out = e.name.clone();
    out.append(":hp=");
    out.append(u32_text(e.hp_current).as_str());
    out.append("/");
    out.append(u32_text(e.hp_max).as_str());
    out.append(":tags=");
    let names = build_tag_list(&e.tags, registry);
    out.append(join(&names, ",").as_str());
    out.append(":pos=(");
    out.append(u32_text(e.x).as_str());
    out.append(",");
    out.append(u32_text(e.y).as_str());
    out.append(")");
    out
}

fn snapshot_of(e: &SimEntity, registry: &TagRegistry) -> (r: EntitySnapshot)
    requires
        e.tags.present@.len() <= registry.defs@.len(),
    ensures
        r.name@ == e.name@,
        r.hp == e.hp_current,
        r.alive == (e.hp_current > 0),
        views(r.tags@) == tag_names_in(e.tags.present@, *registry),
        r.position == (e.x, e.y),
{
    EntitySnapshot {
        name: e.name.clone(),
        hp: e.hp_current,
        alive: e.hp_current > 0,
        tags: build_tag_list(&e.tags, registry),
        position: (e.x, e.y),
    }
}

/// Snapshots of the two entities, in placement order, and their fingerprint (the two
/// parts joined by "|").
pub fn build_snapshot_fingerprint(a: &SimEntity, b: &SimEntity, registry: &TagRegistry) -> (r: (Vec<EntitySnapshot>, String))
    requires
        a.tags.present@.len() <= registry.defs@.len(),
        b.tags.present@.len() <= registry.defs@.len(),
    ensures
        r.0@.len() == 2,
        r.0@[0].name@ == a.name@ && r.0@[0].hp == a.hp_current && r.0@[0].alive == (a.hp_current > 0),
        r.0@[0].position == (a.x, a.y) && views(r.0@[0].tags@) == tag_names_in(a.tags.present@, *registry),
        r.0@[1].name@ == b.name@ && r.0@[1].hp == b.hp_current && r.0@[1].alive == (b.hp_current > 0),
        r.0@[1].position == (b.x, b.y) && views(r.0@[1].tags@) == tag_names_in(b.tags.present@, *registry),
        r.1@ == sim_part(*a, *registry) + "|"@ + sim_part(*b, *registry),
{
    let mut entities: Vec<EntitySnapshot> = Vec::new();
    entities.push(snapshot_of(a, registry));
    entities.push(snapshot_of(b, registry));
    let mut fp = fingerprint_text(a, registry);
    fp.append("|");
    fp.append(fingerprint_text(b, registry).as_str());
    (entities, fp)
}

/// Runs a combat scenario: the attacker (at (5, 5)) strikes the defender (at (6, 5)) once a
/// turn, each hit dealing the weapon damage less the armor protection but at least 1, until
/// the turns run out or the defender is down.
pub fn run_combat_scenario(scenario: &CombatScenario, seed: u64, registry: &TagRegistry) -> (r: InteractionSnapshot)
    requires
        scenario.attacker.equipment@.len() <= u64::MAX,
        scenario.defender.equipment@.len() <= u64::MAX,
    ensures
        r.seed == seed,
        r.kind@ == "combat"@,
        r.barter_result is None,
        r.dialogue_result is None,
        r.combat_rounds@.len() == rounds_fought(scenario.defender.hp as int, combat_damage(*scenario, *registry), scenario.num_turns as int),
        forall|i: int| 0 <= i < r.combat_rounds@.len() ==> {
            let s = #[trigger] r.combat_rounds@[i];
            let dmg = combat_damage(*scenario, *registry);
            &&& s.round == i + 1
            &&& s.attacker@ == scenario.attacker.name@
            &&& s.defender@ == scenario.defender.name@
            &&& s.raw_damage == spec_raw_damage(scenario.attacker, *registry)
            &&& s.blocked == spec_blocked(scenario.defender, *registry)
            &&& s.actual_damage == dmg
            &&& s.defender_hp_after == hp_after_hits(scenario.defender.hp as int, dmg, i + 1)
            &&& s.killed == (hp_after_hits(scenario.defender.hp as int, dmg, i + 1) == 0)
        },
        r.entities@.len() == 2,
        r.entities@[0].name@ == scenario.attacker.name@ && r.entities@[0].hp == scenario.attacker.hp,
        r.entities@[1].name@ == scenario.defender.name@,
        r.entities@[1].hp == hp_after_hits(scenario.defender.hp as int, combat_damage(*scenario, *registry),
            rounds_fought(scenario.defender.hp as int, combat_damage(*scenario, *registry), scenario.num_turns as int)),
        r.deterministic_fingerprint@ == combat_fingerprint(*scenario, *registry),
{
    let attacker = spawn_entity_spec(&scenario.attacker, 5, 5, registry);
    let mut defender = spawn_entity_spec(&scenario.defender, 6, 5, registry);
    let raw = calc_weapon_damage(&attacker.equipment, attacker.weapon_tags.as_ref(), registry);
    let blocked = calc_armor_protection(&defender.equipment, defender.armor_tags.as_ref(), registry);
    let actual: u32 = if raw > blocked && raw - blocked > 1 { raw - blocked } else { 1 };
    assert(actual as int == combat_damage(*scenario, *registry));
    let ghost hp0 = scenario.defender.hp as int;
    let ghost turns = scenario.num_turns as int;
    let mut rounds: Vec<CombatRoundSnapshot> = Vec::new();
    let mut round: u64 = 1;
    let mut done = false;
    while round <= scenario.num_turns as u64 && !done
        invariant
            1 <= round <= scenario.num_turns as u64 + 1,
            turns == scenario.num_turns as int,
            !done ==> rounds@.len() == round - 1 && rounds_fought(hp0, actual as int, (round - 1) as int) == round - 1,
            done ==> rounds_fought(hp0, actual as int, turns) == rounds@.len(),
            rounds@.len() <= round - 1,
            defender.hp_current == hp_after_hits(hp0, actual as int, rounds@.len() as int),
            actual >= 1,
            defender.tags.present@ == presence_of(scenario.defender.tag_names@, *registry),
            defender.name@ == scenario.defender.name@,
            defender.hp_max == scenario.defender.hp,
            defender.x == 6 && defender.y == 5,
            forall|i: int| 0 <= i < rounds@.len() ==> {
                let s = #[trigger] rounds@[i];
                &&& s.round == i + 1
                &&& s.attacker@ == scenario.attacker.name@
                &&& s.defender@ == scenario.defender.name@
                &&& s.raw_damage == raw
                &&& s.blocked == blocked
                &&& s.actual_damage == actual
                &&& s.defender_hp_after == hp_after_hits(hp0, actual as int, i + 1)
                &&& s.killed == (hp_after_hits(hp0, actual as int, i + 1) == 0)
            },
        decreases scenario.num_turns as u64 + 1 - round, (if done { 0int } else { 1int }),
    {
        if defender.hp_current == 0 {
            proof { lemma_rounds_stop(hp0, actual as int, (round - 1) as int, turns); }
            done = true;
        } else {
            let hp_after: u32 = if defender.hp_current > actual { defender.hp_current - actual } else { 0 };
            defender.hp_current = hp_after;
            rounds.push(CombatRoundSnapshot {
                round: round as u32,
                attacker: scenario.attacker.name.clone(),
                defender: scenario.defender.name.clone(),
                raw_damage: raw,
                blocked,
                actual_damage: actual,
                defender_hp_after: hp_after,
                killed: hp_after == 0,
            });
            round = round + 1;
        }
    }
    let (entities, fingerprint) = build_snapshot_fingerprint(&attacker, &defender, registry);
    InteractionSnapshot {
        seed,
        kind: "combat",
        entities,
        combat_rounds: rounds,
        barter_result: None,
        dialogue_result: None,
        deterministic_fingerprint: fingerprint,
    }
}

/// Once the defender is down, no further rounds are fought.
proof fn lemma_rounds_stop(hp: int, dmg: int, k: int, turns: int)
    requires
        0 <= k <= turns,
        rounds_fought(hp, dmg, k) == k,
        hp_after_hits(hp, dmg, k) == 0,
    ensures
        rounds_fought(hp, dmg, turns) == k,
    decreases turns - k,
{
    if turns > k {
        lemma_rounds_stop(hp, dmg, k, turns - 1);
    }
}

/// Runs a barter scenario: the trader (at (5, 5)) and the customer (at (6, 5)) settle the
/// offer as `resolve_barter` does; nobody is hurt.
pub fn run_barter_scenario(scenario: &BarterScenario, seed: u64, registry: &TagRegistry) -> (r: InteractionSnapshot)
    requires
        scenario.trader.equipment@.len() <= u64::MAX,
        scenario.customer.equipment@.len() <= u64::MAX,
        total_value(scenario.offer.offered@) <= i64::MAX,
        total_value(scenario.offer.requested@) <= i64::MAX,
    ensures
        r.seed == seed,
        r.kind@ == "barter"@,
        r.combat_rounds@.len() == 0,
        r.dialogue_result is None,
        r.barter_result matches Some(b) && b.value_delta == total_value(scenario.offer.offered@) - total_value(scenario.offer.requested@)
            && b.accepted == (b.value_delta >= 0)
            && b.exchanged_items@ == (if b.accepted { scenario.offer.offered@ } else { Seq::empty() })
            && b.received_items@ == (if b.accepted { scenario.offer.requested@ } else { Seq::empty() }),
        r.entities@.len() == 2,
        r.deterministic_fingerprint@ == idle_fingerprint(scenario.trader, scenario.customer, *registry),
{
    let trader = spawn_entity_spec(&scenario.trader, 5, 5, registry);
    let customer = spawn_entity_spec(&scenario.customer, 6, 5, registry);
    let result = resolve_barter(&scenario.offer, Some(&trader.tags), Some(&customer.tags), Some(registry));
    let (entities, fingerprint) = build_snapshot_fingerprint(&trader, &customer, registry);
    InteractionSnapshot {
        seed,
        kind: "barter",
        entities,
        combat_rounds: Vec::new(),
        barter_result: Some(result),
        dialogue_result: None,
        deterministic_fingerprint: fingerprint,
    }
}

/// Runs a conversation scenario: the speaker (at (5, 5)) picks a line for the listener
/// (at (6, 5)) as `select_dialogue` does.
pub fn run_conversation_scenario(scenario: &ConversationScenario, seed: u64, registry: &TagRegistry) -> (r: InteractionSnapshot)
    requires
        scenario.speaker.equipment@.len() <= u64::MAX,
        scenario.listener.equipment@.len() <= u64::MAX,
        forall|k: int| 0 <= k < scenario.dialogue_lines@.len() ==> #[trigger] scenario.dialogue_lines@[k].trigger_tags@.len() < usize::MAX - 10,
    ensures
        r.seed == seed,
        r.kind@ == "conversation"@,
        r.combat_rounds@.len() == 0,
        r.barter_result is None,
        r.entities@.len() == 2,
        r.deterministic_fingerprint@ == idle_fingerprint(scenario.speaker, scenario.listener, *registry),
{
    let speaker = spawn_entity_spec(&scenario.speaker, 5, 5, registry);
    let listener = spawn_entity_spec(&scenario.listener, 6, 5, registry);
    let selected = select_dialogue(&speaker.tags, scenario.faction_standing.as_str(), &scenario.dialogue_lines, registry);
    let (entities, fingerprint) = build_snapshot_fingerprint(&speaker, &listener, registry);
    InteractionSnapshot {
        seed,
        kind: "conversation",
        entities,
        combat_rounds: Vec::new(),
        barter_result: None,
        dialogue_result: selected,
        deterministic_fingerprint: fingerprint,
    }
}

/// What a scenario needs to run without exceeding machine limits.
pub open spec fn runnable(kind: InteractionKind) -> bool {
    match kind {
        InteractionKind::Combat(s) => s.attacker.equipment@.len() <= u64::MAX && s.defender.equipment@.len() <= u64::MAX,
        InteractionKind::Barter(s) => s.trader.equipment@.len() <= u64::MAX && s.customer.equipment@.len() <= u64::MAX
            && total_value(s.offer.offered@) <= i64::MAX && total_value(s.offer.requested@) <= i64::MAX,
        InteractionKind::Conversation(s) => s.speaker.equipment@.len() <= u64::MAX && s.listener.equipment@.len() <= u64::MAX
            && forall|k: int| 0 <= k < s.dialogue_lines@.len() ==> #[trigger] s.dialogue_lines@[k].trigger_tags@.len() < usize::MAX - 10,
    }
}

/// The fingerprint a scenario always ends with.
pub open spec fn scenario_fingerprint(kind: InteractionKind, reg: TagRegistry) -> Seq<char> {
    match kind {
        InteractionKind::Combat(s) => combat_fingerprint(s, reg),
        InteractionKind::Barter(s) => idle_fingerprint(s.trader, s.customer, reg),
        InteractionKind::Conversation(s) => idle_fingerprint(s.speaker, s.listener, reg),
    }
}

/// Runs a scenario of any kind.
pub fn run_interaction(kind: &InteractionKind, seed: u64, registry: &TagRegistry) -> (r: InteractionSnapshot)
    requires
        runnable(*kind),
    ensures
        r.seed == seed,
        r.deterministic_fingerprint@ == scenario_fingerprint(*kind, *registry),
{
    match kind {
        InteractionKind::Combat(scenario) => run_combat_scenario(scenario, seed, registry),
        InteractionKind::Barter(scenario) => run_barter_scenario(scenario, seed, registry),
        InteractionKind::Conversation(scenario) => run_conversation_scenario(scenario, seed, registry),
    }
}

/// Runs a scenario twice with the same seed; both runs end in the same state (proved, so
/// the check cannot fail).
pub fn assert_deterministic(kind: &InteractionKind, seed: u64, registry: &TagRegistry)
    requires
        runnable(*kind),
{
    let run1 = run_interaction(kind, seed, registry);
    let run2 = run_interaction(kind, seed, registry);
    assert(run1.deterministic_fingerprint@ == run2.deterministic_fingerprint@);
}

} // verus!
