use carapace::components::{Health, Position};
use carapace::encounters::{
    encounter_chance_percent, spawn_encounter, EncounterDef, EncounterEffect, EncounterLoot, EncounterSpawn, Encounters,
};
use carapace::events::{EventBus, GameEvent};
use carapace::tags::TagRegistry;

fn spawn(name: &str, glyph: char, color: [u8; 3], tags: &[&str], health: u32, count: u32) -> EncounterSpawn {
    EncounterSpawn {
        name: name.into(),
        glyph,
        color,
        tags: tags.iter().map(|s| s.to_string()).collect(),
        health,
        count,
        offset_x: 0,
        offset_y: 0,
    }
}

fn loot(name: &str, glyph: char, color: [u8; 3], tags: &[&str], count: u32) -> EncounterLoot {
    EncounterLoot { name: name.into(), glyph, color, tags: tags.iter().map(|s| s.to_string()).collect(), count }
}

fn def(id: &str, name: &str, weight: u32, kind: &str, s: Vec<EncounterSpawn>, l: Vec<EncounterLoot>, e: Vec<EncounterEffect>) -> EncounterDef {
    EncounterDef {
        id: id.into(),
        name: name.into(),
        description: String::new(),
        weight,
        min_distance: 5,
        kind: kind.into(),
        spawn: s,
        loot: l,
        effect: e,
    }
}

/// The eight encounter kinds of the shipped configuration, written out.
fn defs() -> Vec<EncounterDef> {
    let mut merchant = def("merchant", "Traveling Merchant", 8, "",
        vec![spawn("Traveling Merchant", 'M', [255, 200, 50], &["HUMAN", "PEACEFUL"], 30, 1)],
        vec![loot("Rations", '%', [180, 140, 80], &["EDIBLE"], 2)], vec![]);
    merchant.description = "A weathered merchant with wares.".into();
    merchant.min_distance = 6;
    vec![
        merchant,
        def("patrol_guards", "Patrol Guards", 12, "",
            vec![spawn("Patrol Guard", 'G', [50, 100, 200], &["HUMAN", "AGGRESSIVE"], 25, 3)], vec![], vec![]),
        def("ambush", "Bandit Ambush", 15, "",
            vec![spawn("Bandit", 'b', [200, 50, 50], &["HUMAN", "AGGRESSIVE"], 20, 4)], vec![], vec![]),
        def("wild_beasts", "Wild Beasts", 18, "",
            vec![spawn("Wolf", 'w', [139, 90, 43], &["BEAST", "AGGRESSIVE"], 20, 3)], vec![], vec![]),
        def("toxic_spill", "Toxic Spill", 10, "hazard", vec![], vec![],
            vec![EncounterEffect { damage: 10, message: "You stumble into a toxic spill! It burns!".into() }]),
        def("abandoned_cache", "Abandoned Cache", 10, "", vec![],
            vec![loot("Old Map Fragments", '□', [180, 150, 80], &["ARTIFACT"], 1),
                 loot("Ancient Coin", '*', [220, 190, 60], &["VALUABLE"], 3)], vec![]),
        def("hermit", "Wasteland Hermit", 7, "",
            vec![spawn("Hermit", 'h', [150, 150, 150], &["HUMAN", "PEACEFUL"], 15, 1)], vec![], vec![]),
        def("traveling_healer", "Traveling Healer", 5, "",
            vec![spawn("Traveling Healer", 'H', [50, 255, 50], &["HUMAN", "PEACEFUL"], 20, 1)], vec![], vec![]),
    ]
}

fn run(id: &str, pos: Position) -> (carapace::encounters::EncounterOutcome, Option<Health>, EventBus) {
    let encounters = Encounters::new(defs());
    let registry = TagRegistry::new();
    let mut hp = Some(Health { current: 50, max: 50 });
    let mut bus = EventBus::new();
    let out = spawn_encounter(&encounters, id, pos, &registry, &mut hp, &mut bus, 1000);
    (out, hp, bus)
}

#[test]
fn test_total_weight() {
    let encounters = Encounters::new(defs());
    assert!(encounters.total_weight() > 0);
    assert_eq!(encounters.total_weight(), 85);
}

#[test]
fn test_random_encounter_returns_some() {
    let encounters = Encounters::new(defs());
    let mut rng = <rand::rngs::StdRng as rand::SeedableRng>::seed_from_u64(7);
    let result = encounters.random_encounter(&mut rng);
    assert!(result.is_some());
}

#[test]
fn test_random_encounter_all_ids() {
    let encounters = Encounters::new(defs());
    let mut rng = <rand::rngs::StdRng as rand::SeedableRng>::seed_from_u64(2024);
    let mut seen = std::collections::HashSet::new();
    for _ in 0..100 {
        if let Some(def) = encounters.random_encounter(&mut rng) {
            seen.insert(def.id.clone());
        }
    }
    assert!(seen.len() >= 6, "expected most encounter ids to appear, got {}", seen.len());
}

#[test]
fn encounter_at_roll_walks_the_weights() {
    let encounters = Encounters::new(defs());
    assert_eq!(encounters.encounter_at(0).unwrap().id, "merchant");
    assert_eq!(encounters.encounter_at(7).unwrap().id, "merchant");
    assert_eq!(encounters.encounter_at(8).unwrap().id, "patrol_guards");
    assert_eq!(encounters.encounter_at(84).unwrap().id, "traveling_healer");
    assert_eq!(encounters.encounter_at(500).unwrap().id, "traveling_healer");
    assert!(Encounters::new(vec![]).encounter_at(0).is_none());
}

#[test]
fn test_def_by_id() {
    let encounters = Encounters::new(defs());
    assert!(encounters.def_by_id("merchant").is_some());
    assert!(encounters.def_by_id("nonexistent").is_none());
}

#[test]
fn test_spawn_encounter_merchant_creates_creature() {
    let (out, _, _) = run("merchant", Position { x: 5, y: 5, z: 0 });
    assert_eq!(out.creatures.len(), 1);
    assert_eq!(out.creatures[0].position, Position { x: 5, y: 5, z: 0 });
    assert_eq!(out.items.len(), 2);
    assert_eq!(out.items[1].id, 1002);
}

#[test]
fn test_spawn_encounter_patrol_guards_spawns_three() {
    let (out, _, _) = run("patrol_guards", Position { x: 0, y: 0, z: 0 });
    assert_eq!(out.creatures.len(), 3);
    assert_eq!(out.creatures[2].position, Position { x: 2, y: 2, z: 0 });
    assert_eq!(out.creatures[1].health, Health { current: 25, max: 25 });
}

#[test]
fn test_spawn_hazard_no_crash() {
    let (out, hp, bus) = run("toxic_spill", Position { x: 0, y: 0, z: 0 });
    assert!(out.creatures.is_empty());
    assert_eq!(hp.unwrap().current, 40);
    assert_eq!(bus.events.len(), 2);
    assert!(matches!(&bus.events[0], GameEvent::Message(m) if m == "You stumble into a toxic spill! It burns!"));
    assert!(matches!(&bus.events[1], GameEvent::Message(m) if m == "You take 10 damage!"));
}

#[test]
fn test_spawn_all_encounter_types() {
    for d in defs() {
        let (out, _, _) = run(&d.id, Position { x: 0, y: 0, z: 0 });
        let creatures: u32 = d.spawn.iter().map(|s| s.count).sum();
        let items: u32 = d.loot.iter().map(|l| l.count).sum();
        assert_eq!(out.creatures.len() as u32, creatures);
        assert_eq!(out.items.len() as u32, items);
    }
}

#[test]
fn test_encounter_without_resource_no_crash() {
    let (out, hp, bus) = run("unknown_kind", Position { x: 0, y: 0, z: 0 });
    assert!(out.creatures.is_empty() && out.items.is_empty());
    assert_eq!(hp.unwrap().current, 50);
    assert!(bus.events.is_empty());
}

#[test]
fn test_abandoned_cache_spawns_loot() {
    let (out, _, _) = run("abandoned_cache", Position { x: 0, y: 0, z: 0 });
    assert_eq!(out.items.len(), 4, "expected 4 items (1 map + 3 coins), got {}", out.items.len());
    assert_eq!(out.items[0].name, "Old Map Fragments");
    assert_eq!(out.items[3].name, "Ancient Coin");
}

#[test]
fn encounter_chance_by_context() {
    let mut reg = TagRegistry::new();
    for n in ["DARK", "STORMY", "REDUCED_VISIBILITY", "BIOME_SWAMP", "BIOME_DESERT"] {
        reg.add_tag("env", n, None, None);
    }
    assert_eq!(encounter_chance_percent(false, None, &vec![], Some(&reg)), 8);
    assert_eq!(encounter_chance_percent(true, None, &vec![], None), 4);
    let weather = vec![0usize, 1, 2];
    assert_eq!(encounter_chance_percent(false, Some(&weather), &vec![], Some(&reg)), 18);
    assert_eq!(encounter_chance_percent(false, Some(&weather), &vec![3, 4], Some(&reg)), 24);
    assert_eq!(encounter_chance_percent(false, Some(&weather), &vec![3, 4], None), 8);
}
