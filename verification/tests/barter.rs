use carapace::barter::{
    apply_faction_price_modifier, evaluate_offer, resolve_barter, value_of_item, BarterItem, BarterOffer,
};
use carapace::reputation::FactionReputation;
use carapace::tags::{TagRegistry, Tags};

fn make_item(name: &str, base_value: u32, quantity: u32) -> BarterItem {
    BarterItem { name: name.to_string(), quantity, base_value }
}

#[test]
fn test_fair_trade_accepted() {
    let offer = BarterOffer {
        offered: vec![make_item("Chip", 10, 5)],
        requested: vec![make_item("Metal Blade", 50, 1)],
    };
    let result = resolve_barter(&offer, None, None, None);
    assert!(result.accepted);
    assert_eq!(result.exchanged_items.len(), 1);
    assert_eq!(result.received_items.len(), 1);
    assert_eq!(result.value_delta, 0);
}

#[test]
fn test_unfair_trade_rejected() {
    let offer = BarterOffer {
        offered: vec![make_item("Chip", 10, 1)],
        requested: vec![make_item("Metal Blade", 50, 1)],
    };
    let result = resolve_barter(&offer, None, None, None);
    assert!(!result.accepted);
    assert_eq!(result.value_delta, -40);
}

#[test]
fn test_generous_trade_accepted() {
    let offer = BarterOffer {
        offered: vec![make_item("Chip", 10, 10)],
        requested: vec![make_item("Metal Blade", 50, 1)],
    };
    let result = resolve_barter(&offer, None, None, None);
    assert!(result.accepted);
    assert_eq!(result.value_delta, 50);
}

#[test]
fn test_value_of_item_with_quality_mult() {
    let mut registry = TagRegistry::new();
    let rare_id = registry.add_tag("quality", "RARE", Some(3), None);
    let mut tags = Tags::new(registry.tag_count());
    tags.add_tag(rare_id);
    let item = make_item("Gem", 100, 1);
    let value = value_of_item(&item, Some(&tags), Some(&registry));
    assert_eq!(value, 300, "RARE quality should triple base value");
}

#[test]
fn highest_quality_wins_and_values_saturate() {
    let mut registry = TagRegistry::new();
    let rare = registry.add_tag("quality", "RARE", Some(3), None);
    let epic = registry.add_tag("quality", "EPIC", Some(5), None);
    let mut tags = Tags::new(registry.tag_count());
    tags.add_tag(rare);
    tags.add_tag(epic);
    assert_eq!(value_of_item(&make_item("Gem", 10, 2), Some(&tags), Some(&registry)), 100);
    assert_eq!(value_of_item(&make_item("Gem", 10, 2), None, Some(&registry)), 20);
    assert_eq!(value_of_item(&make_item("Gem", u32::MAX, 2), None, None), u32::MAX);
}

#[test]
fn rejected_trade_exchanges_nothing() {
    let offer = BarterOffer {
        offered: vec![make_item("Chip", 10, 1)],
        requested: vec![make_item("Metal Blade", 50, 1)],
    };
    assert_eq!(evaluate_offer(&offer), -40);
    let result = resolve_barter(&offer, None, None, None);
    assert!(result.exchanged_items.is_empty());
    assert!(result.received_items.is_empty());
}

#[test]
fn faction_standing_changes_prices() {
    let mut rep = FactionReputation::new();
    assert_eq!(apply_faction_price_modifier(100, "merchants", None), 100);
    assert_eq!(apply_faction_price_modifier(100, "merchants", Some(&rep)), 100);
    rep.set("merchants", -2000);
    assert_eq!(apply_faction_price_modifier(100, "merchants", Some(&rep)), 200);
    assert_eq!(apply_faction_price_modifier(u32::MAX, "merchants", Some(&rep)), u32::MAX);
    rep.set("merchants", 600);
    assert_eq!(apply_faction_price_modifier(100, "merchants", Some(&rep)), 85);
    rep.set("merchants", 2000);
    assert_eq!(apply_faction_price_modifier(100, "merchants", Some(&rep)), 70);
}
