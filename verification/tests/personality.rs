use carapace::npc_action::{action_requirements_met, determine_standing, get_personality_trait};
use carapace::personality::{tags_from_personality, PersonalityScores};
use carapace::tags::{TagRegistry, Tags};

fn setup() -> TagRegistry {
    let mut r = TagRegistry::new();
    for n in ["AGGRESSIVE", "PEACEFUL", "COWARDLY", "FEARLESS", "CURIOUS", "TERRITORIAL", "CAN_BARTER"] {
        r.add_tag("behavior", n, None, None);
    }
    r
}

fn scores(aggression: u8) -> PersonalityScores {
    PersonalityScores {
        aggression, bravery: 50, sociability: 50,
        orderliness: 50, curiosity: 50, industriousness: 50,
        honesty: 50, spirituality: 50, gregariousness: 50, volatility: 50,
    }
}

#[test]
fn high_aggression_gets_aggressive_tag() {
    let registry = setup();
    let mut tags = Tags::new(registry.tag_count());
    tags_from_personality(&scores(85), &mut tags, &registry);
    assert!(tags.has(registry.tag_id("AGGRESSIVE").unwrap()), "high aggression should get AGGRESSIVE tag");
    assert!(!tags.has(registry.tag_id("PEACEFUL").unwrap()));
}

#[test]
fn low_aggression_gets_peaceful_tag() {
    let registry = setup();
    let mut tags = Tags::new(registry.tag_count());
    tags_from_personality(&scores(20), &mut tags, &registry);
    assert!(tags.has(registry.tag_id("PEACEFUL").unwrap()), "low aggression should get PEACEFUL tag");
}

#[test]
fn random_scores_in_range() {
    let mut rng = <rand::rngs::StdRng as rand::SeedableRng>::seed_from_u64(42);
    let scores = PersonalityScores::new_random(&mut rng);
    assert!(scores.aggression >= 20 && scores.aggression <= 80);
    assert!(scores.bravery >= 20 && scores.bravery <= 80);
}

#[test]
fn personality_trait_lookup() {
    let s = PersonalityScores { bravery: 90, ..PersonalityScores::default() };
    assert_eq!(get_personality_trait(&s, "bravery"), 90);
    assert_eq!(get_personality_trait(&s, "honesty"), 0);
    assert_eq!(get_personality_trait(&s, "charisma"), 50);
}

#[test]
fn requires_tags_blocks_action() {
    let registry = setup();
    let npc = Tags::new(registry.tag_count());
    let required = vec!["CAN_BARTER".to_string()];
    assert!(!action_requirements_met(&required, &npc, &registry), "without CAN_BARTER tag, trade should be unavailable");
    let mut trader = Tags::new(registry.tag_count());
    trader.add_tag(registry.tag_id("CAN_BARTER").unwrap());
    assert!(action_requirements_met(&required, &trader, &registry));
    assert!(action_requirements_met(&vec!["NOT_A_TAG".to_string()], &npc, &registry));
}

#[test]
fn standing_is_neutral() {
    let registry = setup();
    let t = Tags::new(registry.tag_count());
    assert_eq!(determine_standing(&t, &t, &registry), "neutral");
}
