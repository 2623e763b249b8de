use carapace::components::{Health, Position};
use carapace::events::{EventBus, GameEvent};
use carapace::tags::TagRegistry;
use carapace::traps::{
    process_trapped_status, trigger_trap, try_detect_trap, Trap, TrapType, TrappedStatus,
};

fn registry() -> TagRegistry {
    let mut r = TagRegistry::new();
    r.add_tag("behavior", "AGGRESSIVE", None, None);
    r.add_tag("creature", "BEAST", None, None);
    r
}

fn last_message(bus: &EventBus) -> String {
    match bus.events.last() {
        Some(GameEvent::Message(m)) => m.clone(),
        _ => String::new(),
    }
}

#[test]
fn poison_trap_applies_status() {
    let reg = registry();
    let mut trap = Some(Trap::new(TrapType::PoisonDart).with_damage(10));
    let mut hp = Some(Health { current: 50, max: 100 });
    let mut status = None;
    let mut bus = EventBus::new();
    trigger_trap(&mut trap, Some(Position { x: 5, y: 5, z: 0 }), &mut hp, &mut status, &mut bus, &reg, 100);
    assert!(status.is_some(), "should have TrappedStatus");
    assert_eq!(hp.unwrap().current, 50, "poison does not deal immediate damage");
    assert_eq!(status.unwrap(), TrappedStatus { trap_type: TrapType::PoisonDart, ticks_remaining: 8, damage_per_tick: 3 });
}

#[test]
fn explosive_rune_damages_area() {
    let reg = registry();
    let mut trap = Some(Trap::new(TrapType::ExplosiveRune).with_damage(25));
    let mut hp = Some(Health { current: 100, max: 100 });
    let mut status = None;
    let mut bus = EventBus::new();
    trigger_trap(&mut trap, Some(Position { x: 10, y: 10, z: 0 }), &mut hp, &mut status, &mut bus, &reg, 100);
    assert_eq!(hp.unwrap().current, 75);
    assert_eq!(last_message(&bus), "An explosive rune explodes for 25 damage!");
}

#[test]
fn trap_cannot_be_triggered_twice() {
    let reg = registry();
    let mut trap = Some(Trap::new(TrapType::ExplosiveRune).with_damage(25));
    let mut hp = Some(Health { current: 100, max: 100 });
    let mut status = None;
    let mut bus = EventBus::new();
    trigger_trap(&mut trap, Some(Position { x: 0, y: 0, z: 0 }), &mut hp, &mut status, &mut bus, &reg, 100);
    trigger_trap(&mut trap, Some(Position { x: 0, y: 0, z: 0 }), &mut hp, &mut status, &mut bus, &reg, 100);
    assert_eq!(hp.unwrap().current, 75);
    assert_eq!(bus.events.len(), 1);
}

#[test]
fn chest_trap_damages_on_open() {
    let reg = registry();
    let mut trap = Some(Trap::new(TrapType::ChestTrap).with_damage(15));
    let mut hp = Some(Health { current: 40, max: 50 });
    let mut status = None;
    let mut bus = EventBus::new();
    trigger_trap(&mut trap, None, &mut hp, &mut status, &mut bus, &reg, 100);
    assert_eq!(hp.unwrap().current, 25);
    assert_eq!(last_message(&bus), "The chest was trapped! You take 15 damage.");
}

#[test]
fn trap_damage_stops_at_zero() {
    let reg = registry();
    let mut trap = Some(Trap::new(TrapType::ChestTrap).with_damage(500));
    let mut hp = Some(Health { current: 40, max: 100 });
    let mut status = None;
    let mut bus = EventBus::new();
    trigger_trap(&mut trap, None, &mut hp, &mut status, &mut bus, &reg, 100);
    assert_eq!(hp.unwrap().current, 0);
}

#[test]
fn detect_trap_finds_undetected() {
    let traps = vec![(Trap::new(TrapType::ExplosiveRune), Position { x: 5, y: 5, z: 0 })];
    assert!(try_detect_trap(&traps, &Position { x: 5, y: 5, z: 0 }));
    assert!(!try_detect_trap(&traps, &Position { x: 1, y: 1, z: 0 }));
    let mut seen = Trap::new(TrapType::PoisonDart);
    seen.detected = true;
    let traps = vec![(seen, Position { x: 5, y: 5, z: 0 })];
    assert!(!try_detect_trap(&traps, &Position { x: 5, y: 5, z: 0 }));
}

#[test]
fn summon_trap_spawns_creatures() {
    let reg = registry();
    let mut trap = Some(Trap::new(TrapType::SummonTrap).with_summon(vec!["AGGRESSIVE".to_string()]));
    let mut hp = Some(Health { current: 100, max: 100 });
    let mut status = None;
    let mut bus = EventBus::new();
    let summoned = trigger_trap(&mut trap, Some(Position { x: 10, y: 10, z: 0 }), &mut hp, &mut status, &mut bus, &reg, 100);
    assert!(summoned.len() > 0);
    assert_eq!(summoned.len(), 3);
    assert_eq!(summoned[0].name, "Summoned aggressive");
    assert_eq!(summoned[2].position, Position { x: 12, y: 12, z: 0 });
    assert_eq!(summoned[1].id, 101);
    assert!(summoned[0].tags.has(reg.tag_id("AGGRESSIVE").unwrap()));
    assert!(!summoned[0].tags.has(reg.tag_id("BEAST").unwrap()));
    assert_eq!(last_message(&bus), "A summoning trap activates!");
}

#[test]
fn alarm_trap_has_radius() {
    let trap = Trap::new(TrapType::AlarmTrap).with_alarm(8);
    assert_eq!(trap.alarm_radius, 8);
    assert_eq!(trap.trap_type, TrapType::AlarmTrap);
}

#[test]
fn poison_ticks_then_runs_its_course() {
    let mut entities = vec![(
        Some(Health { current: 20, max: 20 }),
        Some(TrappedStatus { trap_type: TrapType::PoisonDart, ticks_remaining: 2, damage_per_tick: 3 }),
    )];
    let mut bus = EventBus::new();
    process_trapped_status(&mut entities, &mut bus);
    assert_eq!(entities[0].0.unwrap().current, 17);
    assert_eq!(entities[0].1.unwrap().ticks_remaining, 1);
    assert_eq!(last_message(&bus), "Poison deals 3 damage. (1/8 ticks)");
    process_trapped_status(&mut entities, &mut bus);
    assert_eq!(entities[0].0.unwrap().current, 14);
    assert!(entities[0].1.is_none());
    assert_eq!(bus.events.len(), 3);
    assert_eq!(last_message(&bus), "The poison runs its course.");
}
