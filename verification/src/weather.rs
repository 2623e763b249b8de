//! Time of day, the weather cycle, and weighted choice among weather kinds.
use vstd::prelude::*;
use crate::dice::thread_range_u32;
use crate::tags::TagId;

verus! {

/// The four phases of a day.
#[derive(Debug, Clone, Copy, PartialEq, Eq, Structural)]
pub enum TimeOfDay {
    Dawn,
    Day,
    Dusk,
    Night,
}

/// Display name of a time of day.
pub open spec fn time_label(t: TimeOfDay) -> Seq<char> {
    match t {
        TimeOfDay::Dawn => "Dawn"@,
        TimeOfDay::Day => "Day"@,
        TimeOfDay::Dusk => "Dusk"@,
        TimeOfDay::Night => "Night"@,
    }
}

impl TimeOfDay {
    pub fn name(&self) -> (r: &'static str)
        ensures
            r@ == time_label(*self),
    {
        match self {
            TimeOfDay::Dawn => "Dawn",
            TimeOfDay::Day => "Day",
            TimeOfDay::Dusk => "Dusk",
            TimeOfDay::Night => "Night",
        }
    }
}

/// One kind of weather.
pub struct WeatherDef {
    pub name: String,
    pub weight: u32,
    pub duration: [u32; 2],
    /// Environmental score modifiers ("light", "temperature", "moisture").
    pub modifiers: Vec<(String, i32)>,
    /// Descriptive tags such as "RAINY".
    pub tags: Vec<String>,
}

/// The sum of the weights.
pub open spec fn weight_total(w: Seq<u32>) -> int
    decreases w.len(),
{
    if w.len() == 0 { 0 } else { weight_total(w.drop_last()) + w.last() }
}

/// The index a roll lands on when the weights are laid end to end: the first `i`
/// with `roll < w[0] + ... + w[i]`.
pub open spec fn weighted_pick(w: Seq<u32>, roll: int) -> Option<int>
    decreases w.len(),
{
    if w.len() == 0 {
        None
    } else if roll < w[0] {
        Some(0)
    } else {
        match weighted_pick(w.drop_first(), roll - w[0]) {
            Some(i) => Some(i + 1),
            None => None,
        }
    }
}

proof fn lemma_weight_total_first(w: Seq<u32>)
    requires
        w.len() > 0,
    ensures
        weight_total(w) == w[0] + weight_total(w.drop_first()),
    decreases w.len(),
{
    if w.len() > 1 {
        lemma_weight_total_first(w.drop_last());
        assert(w.drop_last().drop_first() =~= w.drop_first().drop_last());
        assert(w.drop_first().last() == w.last());
    } else {
        assert(w.drop_first() =~= Seq::<u32>::empty());
        assert(w.drop_last() =~= Seq::<u32>::empty());
    }
}

/// Wherever a roll lands, it is inside the list.
pub proof fn lemma_weighted_pick_bounds(w: Seq<u32>, roll: int)
    ensures
        weighted_pick(w, roll) matches Some(i) ==> 0 <= i < w.len(),
    decreases w.len(),
{
    if w.len() > 0 && roll >= w[0] {
        lemma_weighted_pick_bounds(w.drop_first(), roll - w[0]);
    }
}

/// A roll below the total always lands somewhere, inside the list.
pub proof fn law_weighted_pick_lands(w: Seq<u32>, roll: int)
    requires
        0 <= roll < weight_total(w),
    ensures
        weighted_pick(w, roll) matches Some(i) && 0 <= i < w.len(),
    decreases w.len(),
{
    lemma_weight_total_first(w);
    if roll >= w[0] {
        law_weighted_pick_lands(w.drop_first(), roll - w[0]);
    }
}

/// Where a roll lands among the weights (see `weighted_pick`).
pub fn pick_weighted(w: &Vec<u32>, roll: u32) -> (r: Option<usize>)
    ensures
        r matches Some(i) ==> weighted_pick(w@, roll as int) == Some(i as int),
        r is None ==> weighted_pick(w@, roll as int) is None,
{
    let mut rest: u32 = roll;
    let mut i: usize = 0;
    assert(w@.subrange(0, w@.len() as int) =~= w@);
    while i < w.len()
        invariant
            i <= w@.len(),
            weighted_pick(w@, roll as int) == (match weighted_pick(w@.subrange(i as int, w@.len() as int), rest as int) {
                Some(j) => Some(j + i),
                None => None,
            }),
        decreases w.len() - i,
    {
        let ghost tail = w@.subrange(i as int, w@.len() as int);
        assert(tail[0] == w@[i as int]);
        assert(tail.drop_first() =~= w@.subrange(i + 1, w@.len() as int));
        if rest < w[i] {
            return Some(i);
        }
        rest = rest - w[i];
        i = i + 1;
    }
    None
}

/// The sum of all weights, if it fits in `u32`.
pub fn total_weight(w: &Vec<u32>) -> (r: Option<u32>)
    ensures
        r matches Some(t) ==> t == weight_total(w@),
        r is None ==> weight_total(w@) > u32::MAX,
{
    let mut t: u32 = 0;
    let mut i: usize = 0;
    while i < w.len()
        invariant
            i <= w@.len(),
            t == weight_total(w@.subrange(0, i as int)),
        decreases w.len() - i,
    {
        assert(w@.subrange(0, i + 1).drop_last() =~= w@.subrange(0, i as int));
        if t > u32::MAX - w[i] {
            proof { lemma_weight_total_prefix(w@, i as int + 1); }
            return None;
        }
        t = t + w[i];
        i = i + 1;
    }
    assert(w@.subrange(0, w@.len() as int) =~= w@);
    Some(t)
}

pub proof fn lemma_weight_total_prefix(w: Seq<u32>, k: int)
    requires
        0 <= k <= w.len(),
    ensures
        weight_total(w.subrange(0, k)) <= weight_total(w),
    decreases w.len() - k,
{
    if k < w.len() {
        lemma_weight_total_prefix(w, k + 1);
        assert(w.subrange(0, k + 1).drop_last() =~= w.subrange(0, k));
    } else {
        assert(w.subrange(0, k) =~= w);
    }
}

/// The weights of a list of weather kinds.
pub open spec fn weather_weights(defs: Seq<WeatherDef>) -> Seq<u32> {
    defs.map_values(|d: WeatherDef| d.weight)
}

/// Turns a phase lasts in a 50-turn day: dawn and dusk a quarter, day a half, night a whole day.
pub open spec fn phase_length(t: TimeOfDay) -> int {
    match t {
        TimeOfDay::Dawn => 12,
        TimeOfDay::Day => 25,
        TimeOfDay::Dusk => 12,
        TimeOfDay::Night => 50,
    }
}

/// The phase that follows.
pub open spec fn next_phase(t: TimeOfDay) -> TimeOfDay {
    match t {
        TimeOfDay::Dawn => TimeOfDay::Day,
        TimeOfDay::Day => TimeOfDay::Dusk,
        TimeOfDay::Dusk => TimeOfDay::Night,
        TimeOfDay::Night => TimeOfDay::Dawn,
    }
}

/// The active weather, the time of day and the turn counters of the weather cycle.
pub struct WeatherState {
    pub weather_defs: Vec<WeatherDef>,
    pub active_idx: usize,
    pub time: TimeOfDay,
    pub turn_count: u64,
    pub weather_turns_remaining: u32,
}

impl WeatherState {
    /// Starts in daytime with the first weather kind, which lasts 20 turns.
    pub fn new(weather_defs: Vec<WeatherDef>) -> (r: Self)
        ensures
            r.weather_defs@ == weather_defs@,
            r.active_idx == 0,
            r.time == TimeOfDay::Day,
            r.turn_count == 0,
            r.weather_turns_remaining == 20,
    {
        WeatherState { weather_defs, active_idx: 0, time: TimeOfDay::Day, turn_count: 0, weather_turns_remaining: 20 }
    }

    /// The active weather kind.
    pub fn active_weather(&self) -> (r: &WeatherDef)
        requires
            self.active_idx < self.weather_defs@.len(),
        ensures
            *r == self.weather_defs@[self.active_idx as int],
    {
        &self.weather_defs[self.active_idx]
    }

    /// One turn passes: the phase advances once it has lasted its length (resetting the
    /// count), and the weather either counts down or, when its time is up, is re-rolled.
    pub fn advance_time(&mut self)
        requires
            old(self).turn_count < u64::MAX,
            old(self).weather_turns_remaining == 0 ==> 0 < weight_total(weather_weights(old(self).weather_defs@)) <= u32::MAX,
        ensures
            final(self).weather_defs@ == old(self).weather_defs@,
            old(self).turn_count + 1 >= phase_length(old(self).time) ==> final(self).time == next_phase(old(self).time) && final(self).turn_count == 0,
            old(self).turn_count + 1 < phase_length(old(self).time) ==> final(self).time == old(self).time && final(self).turn_count == old(self).turn_count + 1,
            old(self).weather_turns_remaining > 0 ==> final(self).weather_turns_remaining == old(self).weather_turns_remaining - 1 && final(self).active_idx == old(self).active_idx,
            old(self).weather_turns_remaining == 0 ==> 5 <= final(self).weather_turns_remaining < 25 && final(self).active_idx < final(self).weather_defs@.len(),
            old(self).weather_turns_remaining == 0 ==> exists|roll: int| 0 <= roll < weight_total(weather_weights(old(self).weather_defs@))
                && #[trigger] weighted_pick(weather_weights(old(self).weather_defs@), roll) == Some(final(self).active_idx as int),
    {
        self.turn_count = self.turn_count + 1;
        let length: u64 = match self.time {
            TimeOfDay::Dawn => 12,
            TimeOfDay::Day => 25,
            TimeOfDay::Dusk => 12,
            TimeOfDay::Night => 50,
        };
        if self.turn_count >= length {
            self.time = match self.time {
                TimeOfDay::Dawn => TimeOfDay::Day,
                TimeOfDay::Day => TimeOfDay::Dusk,
                TimeOfDay::Dusk => TimeOfDay::Night,
                TimeOfDay::Night => TimeOfDay::Dawn,
            };
            self.turn_count = 0;
        }
        if self.weather_turns_remaining > 0 {
            self.weather_turns_remaining = self.weather_turns_remaining - 1;
        } else {
            self.roll_new_weather();
        }
    }

    /// Picks the next weather kind by weight and how long it lasts (5 to 24 turns).
    pub fn roll_new_weather(&mut self)
        requires
            0 < weight_total(weather_weights(old(self).weather_defs@)) <= u32::MAX,
        ensures
            final(self).weather_defs@ == old(self).weather_defs@,
            final(self).time == old(self).time,
            final(self).turn_count == old(self).turn_count,
            final(self).active_idx < final(self).weather_defs@.len(),
            exists|roll: int| 0 <= roll < weight_total(weather_weights(old(self).weather_defs@))
                && #[trigger] weighted_pick(weather_weights(old(self).weather_defs@), roll) == Some(final(self).active_idx as int),
            5 <= final(self).weather_turns_remaining < 25,
    {
        let mut weights: Vec<u32> = Vec::new();
        let mut i: usize = 0;
        while i < self.weather_defs.len()
            invariant
                i <= self.weather_defs@.len(),
                weights@ == weather_weights(self.weather_defs@).subrange(0, i as int),
            decreases self.weather_defs.len() - i,
        {
            weights.push(self.weather_defs[i].weight);
            i = i + 1;
            assert(weights@ =~= weather_weights(self.weather_defs@).subrange(0, i as int));
        }
        assert(weights@ =~= weather_weights(self.weather_defs@));
        let total = total_weight(&weights);
        if let Some(t) = total {
            let roll = thread_range_u32(0, t);
            proof {
                law_weighted_pick_lands(weights@, roll as int);
            }
            if let Some(idx) = pick_weighted(&weights, roll) {
                self.active_idx = idx;
                assert(weighted_pick(weather_weights(old(self).weather_defs@), roll as int) == Some(self.active_idx as int));
            }
        }
        self.weather_turns_remaining = thread_range_u32(5, 25);
    }
}

/// Weather tags in effect and the tag ids applied to entities.
pub struct WeatherContext {
    pub tags: Vec<String>,
    pub applied_tags: Vec<TagId>,
}

/// The descriptive tags of the active weather.
pub fn weather_tags_for_context(state: &WeatherState, _time: &TimeOfDay) -> (r: Vec<String>)
    requires
        state.active_idx < state.weather_defs@.len(),
    ensures
        r@ == state.weather_defs@[state.active_idx as int].tags@,
{
    let t = state.active_weather().tags.clone();
    assert(t@ =~= state.weather_defs@[state.active_idx as int].tags@);
    t
}


/// The day cycles dawn, day, dusk, night and back to dawn, the phases lasting 12, 25, 12 and
/// 50 turns: four phase changes bring any phase back, after 99 turns in all.
pub proof fn law_day_cycle(t: TimeOfDay)
    ensures
        next_phase(next_phase(next_phase(next_phase(t)))) == t,
        next_phase(t) != t,
        phase_length(TimeOfDay::Dawn) == 12,
        phase_length(TimeOfDay::Day) == 25,
        phase_length(TimeOfDay::Dusk) == 12,
        phase_length(TimeOfDay::Night) == 50,
        next_phase(TimeOfDay::Dawn) == TimeOfDay::Day,
        next_phase(TimeOfDay::Day) == TimeOfDay::Dusk,
        next_phase(TimeOfDay::Dusk) == TimeOfDay::Night,
        next_phase(TimeOfDay::Night) == TimeOfDay::Dawn,
        phase_length(t) + phase_length(next_phase(t)) + phase_length(next_phase(next_phase(t)))
            + phase_length(next_phase(next_phase(next_phase(t)))) == 99,
{
}

} // verus!
