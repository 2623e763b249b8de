use carapace::components::Position;
use carapace::events::{EventBus, GameEvent};
use carapace::narrative::{
    narrative_candidate, narrative_eligible, record_narrative, resolve_narrative_rule, LoreFragmentsResource, NarrativeCooldowns, NarrativeRule,
    NarrativeTrigger,
};
use carapace::tags::{TagRegistry, Tags};

fn registry() -> TagRegistry {
    let mut r = TagRegistry::new();
    for n in ["FIRE", "FLAMMABLE", "WATER", "WOOD"] {
        r.add_tag("element", n, None, None);
    }
    r
}

fn tags_of(reg: &TagRegistry, names: &[&str]) -> Tags {
    let mut t = Tags::new(reg.tag_count());
    for n in names {
        t.add_tag(reg.tag_id(n).unwrap());
    }
    t
}

fn rule(reg: &TagRegistry, id: &str, entity: &[&str], nearby: &[&str], player: &[&str], msg: &str, cooldown: u64) -> NarrativeRule {
    let trigger = NarrativeTrigger {
        entity_tags: entity.iter().map(|s| s.to_string()).collect(),
        nearby_tags: nearby.iter().map(|s| s.to_string()).collect(),
        player_tags: player.iter().map(|s| s.to_string()).collect(),
    };
    resolve_narrative_rule(id, &trigger, msg, cooldown, reg)
}

/// One check with every event certain to fire (chance 1): each event fires on its first candidate.
fn check_all(
    rules: &[NarrativeRule],
    ents: &Vec<(Tags, Option<Position>)>,
    player: Option<&Tags>,
    cooldowns: &mut NarrativeCooldowns,
    turn: u64,
    bus: &mut EventBus,
) {
    let mut fired: Vec<&NarrativeRule> = Vec::new();
    for r in rules {
        if narrative_eligible(r, player, cooldowns, turn)
            && (0..ents.len()).any(|i| narrative_candidate(r, ents, i).unwrap())
        {
            fired.push(r);
        }
    }
    record_narrative(&fired, turn, bus, cooldowns);
}

#[test]
fn narrative_cooldowns_default() {
    let cooldowns = NarrativeCooldowns::default();
    assert!(cooldowns.is_empty());
}

#[test]
fn check_events_triggers_on_matching_entity() {
    let reg = registry();
    let ents = vec![
        (tags_of(&reg, &["FIRE"]), Some(Position { x: 5, y: 5, z: 0 })),
        (tags_of(&reg, &["FLAMMABLE"]), Some(Position { x: 6, y: 5, z: 0 })),
    ];
    let rules = vec![rule(&reg, "fire_spread", &["FIRE"], &["FLAMMABLE"], &[], "The flames spread!", 10)];
    let mut cooldowns = NarrativeCooldowns::default();
    let mut bus = EventBus::new();
    check_all(&rules, &ents, None, &mut cooldowns, 0, &mut bus);
    assert!(bus.events.iter().any(|e| matches!(e, GameEvent::Message(m) if m == "The flames spread!")),
        "narrative event should push to EventBus");
    assert_eq!(cooldowns.get("fire_spread"), Some(0));
}

#[test]
fn check_events_respects_cooldown() {
    let reg = registry();
    let ents = vec![(tags_of(&reg, &["FIRE"]), Some(Position { x: 5, y: 5, z: 0 }))];
    let rules = vec![rule(&reg, "fire", &["FIRE"], &[], &[], "Fire!", 10)];
    let mut cooldowns = NarrativeCooldowns::default();
    let mut bus = EventBus::new();
    check_all(&rules, &ents, None, &mut cooldowns, 0, &mut bus);
    assert_eq!(bus.events.len(), 1, "should fire on first check");
    bus.drain();
    check_all(&rules, &ents, None, &mut cooldowns, 5, &mut bus);
    assert_eq!(bus.events.len(), 0, "should not fire during cooldown");
    check_all(&rules, &ents, None, &mut cooldowns, 10, &mut bus);
    assert_eq!(bus.events.len(), 1, "should fire after cooldown");
}

#[test]
fn check_events_skips_when_tags_dont_match() {
    let reg = registry();
    let ents = vec![(tags_of(&reg, &["WATER"]), Some(Position { x: 5, y: 5, z: 0 }))];
    let rules = vec![rule(&reg, "fire", &["FIRE"], &[], &[], "Fire!", 0)];
    let mut cooldowns = NarrativeCooldowns::default();
    let mut bus = EventBus::new();
    check_all(&rules, &ents, None, &mut cooldowns, 0, &mut bus);
    assert!(bus.events.is_empty());
}

#[test]
fn check_events_requires_player_tags() {
    let reg = registry();
    let ents = vec![(tags_of(&reg, &["FIRE"]), Some(Position { x: 5, y: 5, z: 0 }))];
    let player = tags_of(&reg, &["WATER"]);
    let rules = vec![rule(&reg, "herb", &["FIRE"], &[], &["WOOD"], "Herb reminder", 0)];
    let mut cooldowns = NarrativeCooldowns::default();
    let mut bus = EventBus::new();
    check_all(&rules, &ents, Some(&player), &mut cooldowns, 0, &mut bus);
    assert!(bus.events.is_empty(), "player doesn't have WOOD tag");
}

#[test]
fn candidates_need_a_touching_neighbour() {
    let reg = registry();
    let ents = vec![
        (tags_of(&reg, &["FIRE"]), Some(Position { x: 5, y: 5, z: 0 })),
        (tags_of(&reg, &["FLAMMABLE"]), Some(Position { x: 8, y: 5, z: 0 })),
        (tags_of(&reg, &["FIRE"]), Some(Position { x: 9, y: 6, z: 0 })),
    ];
    let r = rule(&reg, "spread", &["FIRE"], &["FLAMMABLE"], &[], "x", 0);
    let c: Vec<Option<bool>> = (0..ents.len()).map(|i| narrative_candidate(&r, &ents, i)).collect();
    assert_eq!(c, vec![Some(false), Some(false), Some(true)]);
    assert!(narrative_eligible(&r, None, &NarrativeCooldowns::default(), 0));
}

#[test]
fn candidate_search_stops_where_positions_cannot_be_compared() {
    let reg = registry();
    let far = Some(Position { x: 2_500_000_000, y: 0, z: 0 });
    let ents = vec![
        (tags_of(&reg, &["FIRE"]), Some(Position { x: 2_000_000_000, y: 5, z: 0 })),
        (tags_of(&reg, &["FLAMMABLE"]), Some(Position { x: 2_000_000_000, y: 6, z: 0 })),
        (tags_of(&reg, &["WATER"]), far),
    ];
    let spread = rule(&reg, "spread", &["FIRE"], &["FLAMMABLE"], &[], "x", 0);
    // The neighbour is found before the far entity is reached.
    assert_eq!(narrative_candidate(&spread, &ents, 0), Some(true));
    let soak = rule(&reg, "soak", &["FIRE"], &["WOOD"], &[], "x", 0);
    // No neighbour before the far entity, whose distance leaves i32.
    assert_eq!(narrative_candidate(&soak, &ents, 0), None);
    // An entity without the entity tags is never searched from.
    assert_eq!(narrative_candidate(&spread, &ents, 2), Some(false));
}

#[test]
fn cooldown_insert_replaces_turn() {
    let mut cd = NarrativeCooldowns::default();
    cd.insert("a".into(), 3);
    cd.insert("b".into(), 4);
    cd.insert("a".into(), 9);
    assert_eq!(cd.get("a"), Some(9));
    assert_eq!(cd.get("b"), Some(4));
    assert_eq!(cd.get("c"), None);
    assert_eq!(cd.len(), 2);
}

#[test]
fn lore_fragments_resource_default() {
    let resource = LoreFragmentsResource::default();
    assert!(resource.fragments.is_empty());
}
