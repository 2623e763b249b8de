use carapace::barter::{BarterItem, BarterOffer};
use carapace::dialogue::DialogueLine;
use carapace::interaction::{
    assert_deterministic, run_barter_scenario, run_combat_scenario, run_conversation_scenario, run_interaction,
    BarterScenario, CombatScenario, ConversationScenario, EntitySpec, EquipmentSpec, InteractionKind,
};
use carapace::tags::TagRegistry;

fn registry() -> TagRegistry {
    let mut reg = TagRegistry::new();
    for name in ["HUMANOID", "SMALL", "MEDIUM", "AGGRESSIVE", "PEACEFUL"] {
        reg.add_tag("creature", name, None, None);
    }
    for name in ["METAL", "LEATHER", "CLOTH", "STONE", "EQUIP_WEAPON", "EQUIP_ARMOR", "MELEE"] {
        reg.add_tag("material", name, None, None);
    }
    reg.add_tag("quality", "COMMON", Some(1), None);
    reg.add_tag("quality", "UNCOMMON", Some(2), None);
    reg
}

fn names(v: &[&str]) -> Vec<String> {
    v.iter().map(|s| s.to_string()).collect()
}

fn spec(name: &str, tags: &[&str], hp: u32, equipment: Vec<EquipmentSpec>, is_player: bool) -> EntitySpec {
    EntitySpec { name: name.into(), tag_names: names(tags), hp, equipment, inventory: vec![], is_player }
}

fn equip(slot: &str, name: &str, tags: &[&str]) -> EquipmentSpec {
    EquipmentSpec { slot: slot.into(), name: name.into(), tag_names: names(tags) }
}

#[test]
fn harness_combat_scenario_deterministic() {
    let reg = registry();
    let scenario = CombatScenario {
        attacker: spec(
            "Creature",
            &["AGGRESSIVE", "HUMANOID", "SMALL"],
            25,
            vec![equip("weapon", "Knife", &["METAL", "EQUIP_WEAPON", "MELEE", "COMMON"])],
            false,
        ),
        defender: spec(
            "Player",
            &["HUMANOID", "MEDIUM"],
            50,
            vec![
                equip("weapon", "Blade", &["METAL", "EQUIP_WEAPON", "MELEE", "UNCOMMON"]),
                equip("armor", "Armor Vest", &["LEATHER", "EQUIP_ARMOR", "COMMON"]),
            ],
            true,
        ),
        num_turns: 10,
    };

    let snapshot = run_combat_scenario(&scenario, 42, &reg);
    assert_eq!(snapshot.kind, "combat");
    assert!(!snapshot.combat_rounds.is_empty(), "combat should produce rounds");
    assert_eq!(snapshot.seed, 42);

    assert_deterministic(&InteractionKind::Combat(scenario), 42, &reg);
}

#[test]
fn harness_combat_damage_dealt() {
    let reg = registry();
    let scenario = CombatScenario {
        attacker: spec(
            "Creature",
            &["AGGRESSIVE", "HUMANOID", "SMALL"],
            25,
            vec![equip("weapon", "Knife", &["METAL", "EQUIP_WEAPON", "COMMON"])],
            false,
        ),
        defender: spec(
            "Player",
            &["HUMANOID", "MEDIUM"],
            50,
            vec![equip("armor", "Armor Vest", &["LEATHER", "EQUIP_ARMOR", "COMMON"])],
            true,
        ),
        num_turns: 5,
    };

    let snapshot = run_combat_scenario(&scenario, 42, &reg);
    for round in &snapshot.combat_rounds {
        assert!(round.raw_damage > 0, "each round should deal damage");
        assert!(round.actual_damage <= round.raw_damage, "armor should not increase damage");
    }
}

#[test]
fn combat_rounds_follow_the_damage_formula() {
    let reg = registry();
    let scenario = CombatScenario {
        attacker: spec("Creature", &[], 25, vec![equip("weapon", "Knife", &["METAL", "COMMON"])], false),
        defender: spec("Player", &[], 12, vec![equip("armor", "Vest", &["LEATHER", "COMMON"])], true),
        num_turns: 10,
    };
    let snapshot = run_combat_scenario(&scenario, 7, &reg);
    // (5 + 3) * 1 raw, 3 * 1 blocked: 5 per round, 12 hp gone after three rounds.
    assert_eq!(snapshot.combat_rounds.len(), 3);
    assert_eq!(snapshot.combat_rounds[0].raw_damage, 8);
    assert_eq!(snapshot.combat_rounds[0].blocked, 3);
    assert_eq!(snapshot.combat_rounds[0].actual_damage, 5);
    assert_eq!(snapshot.combat_rounds[1].defender_hp_after, 2);
    assert!(snapshot.combat_rounds[2].killed);
    assert_eq!(snapshot.entities[1].hp, 0);
    assert!(!snapshot.entities[1].alive);
}

fn barter_spec(offered_qty: u32) -> BarterScenario {
    BarterScenario {
        trader: spec("Merchant", &["HUMANOID", "MEDIUM", "PEACEFUL"], 50, vec![], false),
        customer: spec("Player", &["HUMANOID", "MEDIUM"], 50, vec![], true),
        offer: BarterOffer {
            offered: vec![BarterItem { name: "Chip".into(), quantity: offered_qty, base_value: 10 }],
            requested: vec![BarterItem { name: "Metal Blade".into(), quantity: 1, base_value: 50 }],
        },
    }
}

#[test]
fn harness_barter_scenario_deterministic() {
    let reg = registry();
    let scenario = barter_spec(5);
    let snapshot = run_barter_scenario(&scenario, 42, &reg);
    assert_eq!(snapshot.kind, "barter");
    let result = snapshot.barter_result.unwrap();
    assert!(result.accepted, "5 chips (50 value) for 1 metal blade (50 value) should be accepted");

    assert_deterministic(&InteractionKind::Barter(scenario), 42, &reg);
}

#[test]
fn harness_barter_unfair_rejected() {
    let reg = registry();
    let scenario = barter_spec(1);
    let snapshot = run_barter_scenario(&scenario, 42, &reg);
    let result = snapshot.barter_result.unwrap();
    assert!(!result.accepted, "1 chip (10) for 1 metal blade (50) should be rejected");
}

#[test]
fn harness_conversation_scenario_deterministic() {
    let reg = registry();
    let scenario = ConversationScenario {
        speaker: spec("Guard", &["HUMANOID", "MEDIUM", "AGGRESSIVE"], 50, vec![], false),
        listener: spec("Player", &["HUMANOID", "MEDIUM"], 50, vec![], true),
        dialogue_lines: vec![
            DialogueLine {
                trigger_tags: names(&["AGGRESSIVE"]),
                standing: Some("hostile".into()),
                lines: names(&["What do you want?", "Make it quick.", "You're testing my patience."]),
            },
            DialogueLine {
                trigger_tags: names(&["PEACEFUL"]),
                standing: Some("ally".into()),
                lines: names(&["Good to see you, friend!", "How can I help?"]),
            },
        ],
        faction_standing: "hostile".into(),
    };

    let snapshot = run_conversation_scenario(&scenario, 42, &reg);
    assert_eq!(snapshot.kind, "conversation");
    assert!(snapshot.dialogue_result.is_some(), "aggressive NPC with hostile standing should produce dialogue");

    assert_deterministic(&InteractionKind::Conversation(scenario), 42, &reg);
}

#[test]
fn harness_conversation_no_match_returns_none() {
    let reg = registry();
    let scenario = ConversationScenario {
        speaker: spec("Peaceful NPC", &["PEACEFUL"], 50, vec![], false),
        listener: spec("Player", &["HUMANOID"], 50, vec![], true),
        dialogue_lines: vec![DialogueLine {
            trigger_tags: names(&["AGGRESSIVE"]),
            standing: Some("hostile".into()),
            lines: names(&["Go away!"]),
        }],
        faction_standing: "neutral".into(),
    };

    let snapshot = run_conversation_scenario(&scenario, 42, &reg);
    assert!(snapshot.dialogue_result.is_none(), "PEACEFUL NPC with no matching dialogue line should return None");
}

#[test]
fn fingerprint_ignores_the_seed() {
    let reg = registry();
    let a = run_interaction(&InteractionKind::Barter(barter_spec(5)), 1, &reg);
    let b = run_interaction(&InteractionKind::Barter(barter_spec(5)), 99, &reg);
    assert_eq!(a.deterministic_fingerprint, b.deterministic_fingerprint);
    assert_eq!(a.seed, 1);
    assert_eq!(b.seed, 99);
}
