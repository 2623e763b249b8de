use carapace::reputation::{FactionReputation, ReputationRank};

#[test]
fn new_reputation_is_zero() {
    let rep = FactionReputation::new();
    assert_eq!(rep.get("merchants"), 0);
}

#[test]
fn modify_changes_standing() {
    let mut rep = FactionReputation::new();
    rep.set("merchants", 100);
    let new = rep.modify("merchants", 50);
    assert_eq!(new, 150);
    assert_eq!(rep.get("merchants"), 150);
}

#[test]
fn negative_standing_works() {
    let mut rep = FactionReputation::new();
    rep.set("sanguine_elite", -100);
    rep.modify("sanguine_elite", -50);
    assert_eq!(rep.get("sanguine_elite"), -150);
}

#[test]
fn unknown_faction_returns_zero() {
    let rep = FactionReputation::new();
    assert_eq!(rep.get("nonexistent"), 0);
    assert_eq!(rep.rank("nonexistent"), ReputationRank::Neutral);
}

#[test]
fn rank_thresholds() {
    let mut rep = FactionReputation::new();

    rep.set("f", -2000);
    assert_eq!(rep.rank("f"), ReputationRank::Hostile);

    rep.set("f", -1000);
    assert_eq!(rep.rank("f"), ReputationRank::Unfriendly);

    rep.set("f", -600);
    assert_eq!(rep.rank("f"), ReputationRank::Unfriendly);

    rep.set("f", -400);
    assert_eq!(rep.rank("f"), ReputationRank::Neutral);

    rep.set("f", 0);
    assert_eq!(rep.rank("f"), ReputationRank::Neutral);

    rep.set("f", 400);
    assert_eq!(rep.rank("f"), ReputationRank::Neutral);

    rep.set("f", 600);
    assert_eq!(rep.rank("f"), ReputationRank::Friendly);

    rep.set("f", 2000);
    assert_eq!(rep.rank("f"), ReputationRank::Honored);

    rep.set("f", 5000);
    assert_eq!(rep.rank("f"), ReputationRank::Exalted);
}

#[test]
fn standing_for_dialogue_maps_correctly() {
    let mut rep = FactionReputation::new();
    rep.set("guild", -2000);
    assert_eq!(rep.standing_for_dialogue("guild"), "hostile");

    rep.set("guild", 2000);
    assert_eq!(rep.standing_for_dialogue("guild"), "ally");

    rep.set("guild", 0);
    assert_eq!(rep.standing_for_dialogue("guild"), "neutral");
}

#[test]
fn is_hostile_check() {
    let mut rep = FactionReputation::new();
    rep.set("enemy", -2000);
    assert!(rep.is_hostile("enemy"));

    rep.set("enemy", -400);
    assert!(!rep.is_hostile("enemy"));
}

#[test]
fn modifies_clamped() {
    let mut rep = FactionReputation::new();
    rep.set("x", 9999);
    rep.modify("x", 100);
    assert_eq!(rep.get("x"), 10000);

    rep.set("x", -9999);
    rep.modify("x", -100);
    assert_eq!(rep.get("x"), -10000);
}

#[test]
fn reputation_rank_display() {
    assert_eq!(FactionReputation::rank_name(ReputationRank::Hostile), "Hostile");
    assert_eq!(FactionReputation::rank_name(ReputationRank::Neutral), "Neutral");
    assert_eq!(FactionReputation::rank_name(ReputationRank::Exalted), "Exalted");
}

#[test]
fn faction_names_returns_known_factions() {
    let mut rep = FactionReputation::new();
    rep.set("guild_a", 100);
    rep.set("guild_b", -50);
    let names = rep.faction_names();
    assert_eq!(names.len(), 2);
    assert!(names.iter().any(|n| n.as_str() == "guild_a"));
    assert!(names.iter().any(|n| n.as_str() == "guild_b"));
}

#[test]
fn reputation_rank_ordering() {
    assert!(ReputationRank::Hostile < ReputationRank::Neutral);
    assert!(ReputationRank::Friendly > ReputationRank::Unfriendly);
    assert_eq!(ReputationRank::Neutral, ReputationRank::Neutral);
}

#[test]
fn set_then_get_keeps_other_factions() {
    let mut rep = FactionReputation::new();
    rep.set("a", 10);
    rep.set("b", 20);
    rep.set("a", 30);
    assert_eq!(rep.get("a"), 30);
    assert_eq!(rep.get("b"), 20);
    assert_eq!(rep.faction_names().len(), 2);
}

#[test]
fn sync_from_tracker_scales_and_clamps() {
    let mut rep = FactionReputation::new();
    rep.sync_from_tracker("x", 7);
    assert_eq!(rep.get("x"), 700);
    rep.sync_from_tracker("x", 500);
    assert_eq!(rep.get("x"), 10000);
    rep.sync_from_tracker("x", -500);
    assert_eq!(rep.get("x"), -10000);
}
