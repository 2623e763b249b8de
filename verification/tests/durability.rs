use carapace::components::Equipment;
use carapace::durability::{
    default_durability_for_item, degrade_armor, degrade_weapon, repair_item, set_durability_on_equip, Durability,
};
use carapace::events::{EventBus, GameEvent};
use carapace::tags::{TagRegistry, Tags};

#[test]
fn durability_new() {
    let d = Durability::new(50);
    assert_eq!(d.current, 50);
    assert_eq!(d.max, 50);
    assert!(!d.broken);
}

#[test]
fn durability_degrade() {
    let mut d = Durability::new(30);
    assert!(!d.degrade(5));
    assert_eq!(d.current, 25);
}

#[test]
fn durability_breaks_at_zero() {
    let mut d = Durability::new(10);
    assert!(d.degrade(10));
    assert_eq!(d.current, 0);
    assert!(d.is_broken());
}

#[test]
fn durability_does_not_underflow() {
    let mut d = Durability::new(5);
    d.degrade(100);
    assert_eq!(d.current, 0);
    assert!(d.is_broken());
}

#[test]
fn repair_restores_durability() {
    let mut d = Durability::new(100);
    d.current = 50;
    let repaired = d.repair(30);
    assert_eq!(repaired, 30);
    assert_eq!(d.current, 80);
}

#[test]
fn repair_cannot_exceed_max() {
    let mut d = Durability::new(100);
    d.current = 90;
    let repaired = d.repair(20);
    assert_eq!(repaired, 10);
    assert_eq!(d.current, 100);
}

#[test]
fn repair_clears_broken_flag() {
    let mut d = Durability::new(100);
    d.degrade(100);
    assert!(d.is_broken());
    let repaired = d.repair(50);
    assert_eq!(repaired, 50);
    assert_eq!(d.current, 50);
    assert!(!d.is_broken());
}

#[test]
fn set_durability_on_equip_no_durability_yet() {
    let mut dur = None;
    set_durability_on_equip(&mut dur, None, None);
    assert!(dur.is_some());
    assert_eq!(dur.unwrap().max, 20);
}

#[test]
fn set_durability_does_not_overwrite_existing() {
    let mut dur = Some(Durability { current: 99, max: 100, broken: false });
    set_durability_on_equip(&mut dur, None, None);
    assert_eq!(dur.unwrap().current, 99);
}

#[test]
fn durability_by_rarity_tier() {
    let mut reg = TagRegistry::new();
    for n in ["COMMON", "UNCOMMON", "RARE", "EPIC", "LEGENDARY"] {
        reg.add_tag("rarity", n, None, None);
    }
    let mut tags = Tags::new(reg.tag_count());
    tags.add_tag(reg.tag_id("EPIC").unwrap());
    assert_eq!(default_durability_for_item(Some(&tags), Some(&reg)), 160);
    tags.add_tag(reg.tag_id("RARE").unwrap());
    assert_eq!(default_durability_for_item(Some(&tags), Some(&reg)), 80);
    assert_eq!(default_durability_for_item(None, Some(&reg)), 20);
}

#[test]
fn broken_weapon_leaves_hand() {
    let mut dur = Some(Durability::new(3));
    let mut eq = Some(Equipment { weapon: Some(9), armor: Some(4), accessory: None });
    let mut bus = EventBus::new();
    let broke = degrade_weapon(&mut dur, &Some("Sword".to_string()), 9, 5, &mut eq, &mut bus);
    assert!(broke);
    assert_eq!(eq.unwrap().weapon, None);
    assert_eq!(eq.unwrap().armor, Some(4));
    assert!(matches!(&bus.events[0], GameEvent::Message(m) if m == "Your Sword breaks!"));
}

#[test]
fn worn_armor_stays_on() {
    let mut dur = Some(Durability::new(30));
    let mut eq = Some(Equipment { weapon: None, armor: Some(4), accessory: None });
    let mut bus = EventBus::new();
    assert!(!degrade_armor(&mut dur, &None, 4, 5, &mut eq, &mut bus));
    assert_eq!(dur.unwrap().current, 25);
    assert_eq!(eq.unwrap().armor, Some(4));
    assert!(bus.events.is_empty());
    let mut dur2 = Some(Durability::new(1));
    assert!(degrade_armor(&mut dur2, &None, 4, 5, &mut eq, &mut bus));
    assert!(matches!(&bus.events[0], GameEvent::Message(m) if m == "Your armor breaks!"));
}

#[test]
fn repair_item_without_durability() {
    let mut none: Option<Durability> = None;
    assert_eq!(repair_item(&mut none, 10), 0);
    let mut some = Some(Durability { current: 5, max: 10, broken: false });
    assert_eq!(repair_item(&mut some, 10), 5);
}
