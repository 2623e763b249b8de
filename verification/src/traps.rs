//! Traps: what each kind does when sprung, finding hidden ones, and the poison that
//! lingers after a dart.
use vstd::prelude::*;
use vstd::string::*;
use crate::components::{EntityId, Glyph, Health, Position};
use crate::events::{EventBus, GameEvent};
use crate::quest::first_phrase;
use crate::tags::{TagRegistry, Tags, presence_of, tags_from_names};
use crate::text::{decimal, owned, tag_display, u32_text, views};

verus! {

/// The kinds of trap.
#[derive(Debug, Clone, Copy, PartialEq, Eq, Structural)]
pub enum TrapType {
    PoisonDart,
    ExplosiveRune,
    SummonTrap,
    AlarmTrap,
    ChestTrap,
}

/// A trap in the world.
#[derive(Debug)]
pub struct Trap {
    pub trap_type: TrapType,
    pub detected: bool,
    pub triggered: bool,
    pub damage: u32,
    pub summon_tags: Vec<String>,
    pub alarm_radius: u32,
}

/// Lingering poison on an entity.
#[derive(Debug, Clone, Copy, PartialEq, Eq, Structural)]
pub struct TrappedStatus {
    pub trap_type: TrapType,
    pub ticks_remaining: u32,
    pub damage_per_tick: u32,
}

/// The damage a new trap of the kind deals.
pub open spec fn base_damage(t: TrapType) -> u32 {
    match t {
        TrapType::PoisonDart => 10,
        TrapType::ExplosiveRune => 25,
        TrapType::SummonTrap => 0,
        TrapType::AlarmTrap => 0,
        TrapType::ChestTrap => 15,
    }
}

impl Trap {
    /// A hidden, armed trap of the kind with its usual damage: darts 10, runes 25, chests 15;
    /// a summoning trap calls aggressive beasts; an alarm reaches 8 tiles.
    pub fn new(trap_type: TrapType) -> (r: Self)
        ensures
            r.trap_type == trap_type,
            !r.detected && !r.triggered,
            r.damage == base_damage(trap_type),
            views(r.summon_tags@) == if trap_type == TrapType::SummonTrap {
                seq!["AGGRESSIVE"@, "BEAST"@]
            } else {
                Seq::<Seq<char>>::empty()
            },
            r.alarm_radius == if trap_type == TrapType::AlarmTrap { 8u32 } else { 0u32 },
    {
        let mut summon_tags: Vec<String> = Vec::new();
        let mut alarm_radius: u32 = 0;
        let damage: u32 = match trap_type {
            TrapType::PoisonDart => 10,
            TrapType::ExplosiveRune => 25,
            TrapType::SummonTrap => {
                summon_tags.push(owned("AGGRESSIVE"));
                summon_tags.push(owned("BEAST"));
                0
            },
            TrapType::AlarmTrap => {
                alarm_radius = 8;
                0
            },
            TrapType::ChestTrap => 15,
        };
        assert(views(summon_tags@) =~= if trap_type == TrapType::SummonTrap {
            seq!["AGGRESSIVE"@, "BEAST"@]
        } else {
            Seq::<Seq<char>>::empty()
        });
        Trap { trap_type, detected: false, triggered: false, damage, summon_tags, alarm_radius }
    }

    /// The trap with another damage.
    pub fn with_damage(self, dmg: u32) -> (r: Self)
        ensures
            r == (Trap { damage: dmg, ..self }),
    {
        Trap { damage: dmg, ..self }
    }

    /// The trap summoning creatures with other tags.
    pub fn with_summon(self, tags: Vec<String>) -> (r: Self)
        ensures
            r == (Trap { summon_tags: tags, ..self }),
    {
        Trap { summon_tags: tags, ..self }
    }

    /// The trap with another alarm radius.
    pub fn with_alarm(self, radius: u32) -> (r: Self)
        ensures
            r == (Trap { alarm_radius: radius, ..self }),
    {
        Trap { alarm_radius: radius, ..self }
    }
}

/// Whether an undetected trap lies on the tile.
pub fn try_detect_trap(traps: &Vec<(Trap, Position)>, pos: &Position) -> (r: bool)
    ensures
        r == exists|k: int| 0 <= k < traps@.len() && (#[trigger] traps@[k]).1.x == pos.x
            && traps@[k].1.y == pos.y && !traps@[k].0.detected,
{
    let mut k: usize = 0;
    while k < traps.len()
        invariant
            k <= traps@.len(),
            forall|j: int| 0 <= j < k ==> !((#[trigger] traps@[j]).1.x == pos.x && traps@[j].1.y == pos.y && !traps@[j].0.detected),
        decreases traps.len() - k,
    {
        if traps[k].1.x == pos.x && traps[k].1.y == pos.y && !traps[k].0.detected {
            assert(traps@[k as int].1.x == pos.x);
            return true;
        }
        k = k + 1;
    }
    false
}

/// A creature a summoning trap calls up.
#[derive(Debug)]
pub struct SummonedCreature {
    pub id: EntityId,
    pub position: Position,
    pub health: Health,
    pub glyph: Glyph,
    pub name: String,
    pub tags: Tags,
}

/// The name of summoned creatures: "Summoned " and the phrase of the first summon tag, or "monster".
pub open spec fn summoned_name(summon_tags: Seq<Seq<char>>) -> Seq<char> {
    "Summoned "@ + first_phrase(summon_tags, "monster"@)
}

/// The message a sprung trap raises.
pub open spec fn trap_message(t: TrapType, damage: u32) -> Seq<char> {
    match t {
        TrapType::PoisonDart => "A poison dart trap injects venom! You feel it spreading..."@,
        TrapType::ExplosiveRune => "An explosive rune explodes for "@ + decimal(damage as nat) + " damage!"@,
        TrapType::SummonTrap => "A summoning trap activates!"@,
        TrapType::AlarmTrap => "An alarm trap blasts loudly!"@,
        TrapType::ChestTrap => "The chest was trapped! You take "@ + decimal(damage as nat) + " damage."@,
    }
}

/// The text of a plain message event.
pub open spec fn message_of(e: GameEvent) -> Option<Seq<char>> {
    match e {
        GameEvent::Message(m) => Some(m@),
        _ => None,
    }
}

fn trap_message_text(t: TrapType, damage: u32) -> (r: String)
    ensures
        r@ == trap_message(t, damage),
{
    match t {
        TrapType::PoisonDart => String::from_str("A poison dart trap injects venom! You feel it spreading..."),
        TrapType::ExplosiveRune => {
            let mut s = String::from_str("An explosive rune explodes for ");
            let d = u32_text(damage);
            s.append(d.as_str());
            s.append(" damage!");
            s
        },
        TrapType::SummonTrap => String::from_str("A summoning trap activates!"),
        TrapType::AlarmTrap => String::from_str("An alarm trap blasts loudly!"),
        TrapType::ChestTrap => {
            let mut s = String::from_str("The chest was trapped! You take ");
            let d = u32_text(damage);
            s.append(d.as_str());
            s.append(" damage.");
            s
        },
    }
}

/// Whether a trap is sprung by a call: it exists and has not gone off yet.
pub open spec fn springs(trap: Option<Trap>) -> bool {
    trap.is_some() && !trap.unwrap().triggered
}

/// A trap goes off once: once sprung (marked triggered), triggering it again does nothing.
pub proof fn law_trap_springs_once(t: Trap)
    requires
        springs(Some(t)),
    ensures
        !springs(Some(Trap { triggered: true, ..t })),
{
}

/// Springs a trap on the player. A trap goes off once: it is marked triggered, its message is
/// raised, and then a dart poisons the player (8 ticks of 3 damage), a rune or a chest deals its
/// damage (never below zero), and a summoning trap at a known position calls up three creatures
/// (ids from `first_id` on) on a diagonal from it.
pub fn trigger_trap(
    trap: &mut Option<Trap>,
    trap_pos: Option<Position>,
    player_health: &mut Option<Health>,
    player_status: &mut Option<TrappedStatus>,
    bus: &mut EventBus,
    registry: &TagRegistry,
    first_id: EntityId,
) -> (r: Vec<SummonedCreature>)
    requires
        trap_pos matches Some(p) ==> p.x + 2 <= u32::MAX && p.y + 2 <= u32::MAX,
        first_id + 3 <= u64::MAX,
    ensures
        !springs(*old(trap)) ==> {
            &&& *final(trap) == *old(trap)
            &&& *final(player_health) == *old(player_health)
            &&& *final(player_status) == *old(player_status)
            &&& final(bus).events@ == old(bus).events@
            &&& r@.len() == 0
        },
        springs(*old(trap)) ==> {
            let t = old(trap).unwrap();
            let kind = t.trap_type;
            let hurts = kind == TrapType::ExplosiveRune || kind == TrapType::ChestTrap;
            &&& final(trap).is_some() && final(trap).unwrap().triggered
            &&& final(trap).unwrap().trap_type == kind && final(trap).unwrap().damage == t.damage
            &&& final(trap).unwrap().detected == t.detected && final(trap).unwrap().alarm_radius == t.alarm_radius
            &&& final(trap).unwrap().summon_tags@ == t.summon_tags@
            &&& final(bus).events@.len() == old(bus).events@.len() + 1
            &&& final(bus).events@.drop_last() == old(bus).events@
            &&& message_of(final(bus).events@.last()) == Some(trap_message(kind, t.damage))
            &&& *final(player_status) == if kind == TrapType::PoisonDart {
                    Some(TrappedStatus { trap_type: TrapType::PoisonDart, ticks_remaining: 8, damage_per_tick: 3 })
                } else {
                    *old(player_status)
                }
            &&& final(player_health).is_some() == old(player_health).is_some()
            &&& old(player_health).is_some() ==> final(player_health).unwrap().max == old(player_health).unwrap().max
            &&& old(player_health).is_some() ==> final(player_health).unwrap().current == if hurts {
                    if old(player_health).unwrap().current >= t.damage { (old(player_health).unwrap().current - t.damage) as u32 } else { 0u32 }
                } else {
                    old(player_health).unwrap().current
                }
            &&& r@.len() == if kind == TrapType::SummonTrap && trap_pos.is_some() { 3int } else { 0int }
            &&& forall|i: int| 0 <= i < r@.len() ==> {
                    let c = #[trigger] r@[i];
                    &&& c.id == first_id + i
                    &&& c.position == (Position { x: (trap_pos.unwrap().x + i) as u32, y: (trap_pos.unwrap().y + i % 3) as u32, z: 0 })
                    &&& c.health == (Health { current: 15, max: 15 })
                    &&& c.glyph == (Glyph { char: 'm', color: (200u8, 50u8, 50u8) })
                    &&& c.name@ == summoned_name(views(t.summon_tags@))
                    &&& c.tags.present@ == presence_of(t.summon_tags@, *registry)
                }
        },
{
    let mut summoned: Vec<SummonedCreature> = Vec::new();
    let t = match trap {
        Some(t) => t,
        None => return summoned,
    };
    if t.triggered {
        return summoned;
    }
    t.triggered = true;
    let kind = t.trap_type;
    let damage = t.damage;
    let msg = trap_message_text(kind, damage);
    match kind {
        TrapType::PoisonDart => {
            *player_status = Some(TrappedStatus { trap_type: TrapType::PoisonDart, ticks_remaining: 8, damage_per_tick: 3 });
            bus.push(GameEvent::Message(msg));
        },
        TrapType::ExplosiveRune | TrapType::ChestTrap => {
            match player_health {
                Some(hp) => { hp.current = hp.current.saturating_sub(damage); },
                None => {},
            }
            bus.push(GameEvent::Message(msg));
        },
        TrapType::SummonTrap => {
            bus.push(GameEvent::Message(msg));
            if let Some(p) = trap_pos {
                let mut name = String::from_str("Summoned ");
                let phrase = if t.summon_tags.len() > 0 {
                    tag_display(t.summon_tags[0].as_str())
                } else {
                    String::from_str("monster")
                };
                name.append(phrase.as_str());
                let mut i: u32 = 0;
                while i < 3
                    invariant
                        i <= 3,
                        p.x + 2 <= u32::MAX && p.y + 2 <= u32::MAX,
                        first_id + 3 <= u64::MAX,
                        summoned@.len() == i,
                        name@ == summoned_name(views(t.summon_tags@)),
                        forall|k: int| 0 <= k < i ==> {
                            let c = #[trigger] summoned@[k];
                            &&& c.id == first_id + k
                            &&& c.position == (Position { x: (p.x + k) as u32, y: (p.y + k % 3) as u32, z: 0 })
                            &&& c.health == (Health { current: 15, max: 15 })
                            &&& c.glyph == (Glyph { char: 'm', color: (200u8, 50u8, 50u8) })
                            &&& c.name@ == summoned_name(views(t.summon_tags@))
                            &&& c.tags.present@ == presence_of(t.summon_tags@, *registry)
                        },
                    decreases 3 - i,
                {
                    let tags = tags_from_names(&t.summon_tags, registry);
                    summoned.push(SummonedCreature {
                        id: first_id + i as u64,
                        position: Position { x: p.x + i, y: p.y + (i % 3), z: 0 },
                        health: Health { current: 15, max: 15 },
                        glyph: Glyph { char: 'm', color: (200, 50, 50) },
                        name: name.clone(),
                        tags,
                    });
                    i = i + 1;
                }
            }
        },
        TrapType::AlarmTrap => {
            bus.push(GameEvent::Message(msg));
        },
    }
    summoned
}

/// One entity's poison tick: the status counts down by one; a dart's poison deals its damage to
/// an entity with health.
pub open spec fn poison_tick(h: Option<Health>, s: TrappedStatus) -> (Option<Health>, TrappedStatus, Option<Seq<char>>) {
    let ticks: u32 = if s.ticks_remaining > 0 { (s.ticks_remaining - 1) as u32 } else { 0 };
    let s2 = TrappedStatus { ticks_remaining: ticks, ..s };
    if s.trap_type == TrapType::PoisonDart && h.is_some() {
        let hp = h.unwrap();
        let cur: u32 = if hp.current >= s.damage_per_tick { (hp.current - s.damage_per_tick) as u32 } else { 0 };
        (Some(Health { current: cur, ..hp }), s2,
            Some("Poison deals "@ + decimal(s.damage_per_tick as nat) + " damage. ("@ + decimal(ticks as nat) + "/8 ticks)"@))
    } else {
        (h, s2, None)
    }
}

/// An entity after a poison turn: its health and status (removed once the ticks run out).
pub open spec fn after_poison(e: (Option<Health>, Option<TrappedStatus>)) -> (Option<Health>, Option<TrappedStatus>) {
    match e.1 {
        Some(s) => {
            let t = poison_tick(e.0, s);
            (t.0, if t.1.ticks_remaining == 0 { None } else { Some(t.1) })
        },
        None => e,
    }
}

/// The damage messages of a poison turn, entity by entity.
pub open spec fn poison_messages(es: Seq<(Option<Health>, Option<TrappedStatus>)>) -> Seq<Seq<char>>
    decreases es.len(),
{
    if es.len() == 0 {
        seq![]
    } else {
        let prev = poison_messages(es.drop_last());
        match es.last().1 {
            Some(s) => match poison_tick(es.last().0, s).2 {
                Some(m) => prev.push(m),
                None => prev,
            },
            None => prev,
        }
    }
}

/// How many entities the poison leaves this turn.
pub open spec fn poison_ended(es: Seq<(Option<Health>, Option<TrappedStatus>)>) -> nat
    decreases es.len(),
{
    if es.len() == 0 {
        0
    } else {
        poison_ended(es.drop_last()) + match es.last().1 {
            Some(s) => if poison_tick(es.last().0, s).1.ticks_remaining == 0 { 1nat } else { 0nat },
            None => 0nat,
        }
    }
}

/// The messages of a poison turn: the damage messages in entity order, then "The poison runs
/// its course." once per entity whose poison ended.
pub open spec fn poison_turn_messages(es: Seq<(Option<Health>, Option<TrappedStatus>)>) -> Seq<Seq<char>> {
    poison_messages(es) + Seq::new(poison_ended(es), |i: int| "The poison runs its course."@)
}

/// Runs a turn of lingering poison over the entities (their health and status).
pub fn process_trapped_status(entities: &mut Vec<(Option<Health>, Option<TrappedStatus>)>, bus: &mut EventBus)
    ensures
        final(entities)@.len() == old(entities)@.len(),
        forall|k: int| 0 <= k < old(entities)@.len() ==> #[trigger] final(entities)@[k] == after_poison(old(entities)@[k]),
        final(bus).events@.len() == old(bus).events@.len() + poison_turn_messages(old(entities)@).len(),
        final(bus).events@.subrange(0, old(bus).events@.len() as int) == old(bus).events@,
        forall|k: int| 0 <= k < poison_turn_messages(old(entities)@).len() ==>
            message_of(#[trigger] final(bus).events@[old(bus).events@.len() + k]) == Some(poison_turn_messages(old(entities)@)[k]),
{
    let ghost start = entities@;
    let ghost ev0 = bus.events@;
    let mut ended: usize = 0;
    let mut k: usize = 0;
    while k < entities.len()
        invariant
            k <= entities@.len(),
            entities@.len() == start.len(),
            forall|j: int| 0 <= j < k ==> #[trigger] entities@[j] == after_poison(start[j]),
            forall|j: int| k <= j < start.len() ==> #[trigger] entities@[j] == start[j],
            ended == poison_ended(start.subrange(0, k as int)),
            ended <= k,
            bus.events@.len() == ev0.len() + poison_messages(start.subrange(0, k as int)).len(),
            bus.events@.subrange(0, ev0.len() as int) == ev0,
            forall|j: int| 0 <= j < poison_messages(start.subrange(0, k as int)).len() ==>
                message_of(#[trigger] bus.events@[ev0.len() + j]) == Some(poison_messages(start.subrange(0, k as int))[j]),
        decreases entities.len() - k,
    {
        let ghost pre = start.subrange(0, k as int);
        assert(start.subrange(0, k + 1).drop_last() =~= pre);
        assert(start.subrange(0, k + 1).last() == start[k as int]);
        let ghost before = bus.events@;
        let (h, s) = (entities[k].0, entities[k].1);
        if let Some(st) = s {
            let ticks = st.ticks_remaining.saturating_sub(1);
            let st2 = TrappedStatus { ticks_remaining: ticks, ..st };
            let mut h2 = h;
            if st.trap_type == TrapType::PoisonDart {
                if let Some(hp) = h {
                    let dmg = st.damage_per_tick;
                    h2 = Some(Health { current: hp.current.saturating_sub(dmg), ..hp });
                    let mut m = String::from_str("Poison deals ");
                    let d = u32_text(dmg);
                    m.append(d.as_str());
                    m.append(" damage. (");
                    let tk = u32_text(ticks);
                    m.append(tk.as_str());
                    m.append("/8 ticks)");
                    bus.push(GameEvent::Message(m));
                }
            }
            if ticks == 0 {
                entities.set(k, (h2, None));
                ended = ended + 1;
            } else {
                entities.set(k, (h2, Some(st2)));
            }
        }
        assert forall|j: int| 0 <= j < poison_messages(start.subrange(0, k + 1)).len() implies
            message_of(#[trigger] bus.events@[ev0.len() + j]) == Some(poison_messages(start.subrange(0, k + 1))[j]) by {
            if j < poison_messages(pre).len() {
                assert(bus.events@[ev0.len() + j] == before[ev0.len() + j]);
            }
        }
        assert(bus.events@.subrange(0, ev0.len() as int) =~= ev0) by {
            assert forall|j: int| 0 <= j < ev0.len() implies bus.events@[j] == ev0[j] by {
                assert(before.subrange(0, ev0.len() as int)[j] == ev0[j]);
            }
        }
        k = k + 1;
    }
    assert(start.subrange(0, start.len() as int) =~= start);
    let ghost mid = bus.events@;
    let mut i: usize = 0;
    while i < ended
        invariant
            i <= ended,
            ended == poison_ended(start),
            bus.events@.len() == mid.len() + i,
            bus.events@.subrange(0, mid.len() as int) == mid,
            forall|j: int| 0 <= j < i ==> message_of(#[trigger] bus.events@[mid.len() + j]) == Some("The poison runs its course."@),
        decreases ended - i,
    {
        let ghost before = bus.events@;
        bus.push(GameEvent::Message(String::from_str("The poison runs its course.")));
        assert(bus.events@.subrange(0, mid.len() as int) =~= mid) by {
            assert forall|j: int| 0 <= j < mid.len() implies bus.events@[j] == mid[j] by {
                assert(before.subrange(0, mid.len() as int)[j] == mid[j]);
            }
        }
        assert forall|j: int| 0 <= j < i + 1 implies message_of(#[trigger] bus.events@[mid.len() + j]) == Some("The poison runs its course."@) by {
            if j < i { assert(bus.events@[mid.len() + j] == before[mid.len() + j]); }
        }
        i = i + 1;
    }
    proof {
        let msgs = poison_turn_messages(start);
        let pm = poison_messages(start);
        assert forall|j: int| 0 <= j < msgs.len() implies
            message_of(#[trigger] bus.events@[ev0.len() + j]) == Some(msgs[j]) by {
            if j < pm.len() {
                assert(bus.events@[ev0.len() + j] == bus.events@.subrange(0, mid.len() as int)[ev0.len() + j]);
                assert(mid[ev0.len() + j] == mid[ev0.len() + j]);
            } else {
                assert(bus.events@[ev0.len() + j] == bus.events@[mid.len() + (j - pm.len())]);
            }
        }
        assert(bus.events@.subrange(0, ev0.len() as int) =~= ev0) by {
            assert forall|j: int| 0 <= j < ev0.len() implies bus.events@[j] == ev0[j] by {
                assert(bus.events@.subrange(0, mid.len() as int)[j] == mid[j]);
                assert(mid.subrange(0, ev0.len() as int)[j] == ev0[j]);
            }
        }
    }
}


/// New traps deal 10 (poison darts), 25 (explosive runes) or 15 (trapped chests); summoning
/// and alarm traps deal none.
pub proof fn law_trap_damage_table()
    ensures
        base_damage(TrapType::PoisonDart) == 10,
        base_damage(TrapType::ExplosiveRune) == 25,
        base_damage(TrapType::ChestTrap) == 15,
        base_damage(TrapType::SummonTrap) == 0,
        base_damage(TrapType::AlarmTrap) == 0,
{
}

} // verus!
