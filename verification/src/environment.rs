//! Environmental scores (light, temperature, moisture) and the condition tags they imply.
use vstd::prelude::*;
use crate::tags::{TagDef, TagId, TagRegistry, first_index, lemma_first_index};
use crate::text::{chars_of, same_chars, str_eq};
use crate::weather::TimeOfDay;

verus! {

/// Scores on a 0..=100 scale.
#[derive(Debug, Clone, Copy, Default, PartialEq, Structural)]
pub struct EnvironmentalScores {
    pub light: u32,
    pub temperature: u32,
    pub moisture: u32,
}

/// The value recorded for `key` (the first entry with that key), or 0.
pub open spec fn modifier_of(entries: Seq<(String, i32)>, key: Seq<char>) -> int {
    match first_index(entries.map_values(|e: (String, i32)| e.0@), key) {
        Some(i) => entries[i].1 as int,
        None => 0,
    }
}

/// Looks a modifier up by key; 0 when absent.
pub fn lookup_modifier(entries: &Vec<(String, i32)>, key: &str) -> (r: i32)
    ensures
        r == modifier_of(entries@, key@),
{
    let ghost names = entries@.map_values(|e: (String, i32)| e.0@);
    let k = chars_of(key);
    let mut i: usize = 0;
    while i < entries.len()
        invariant
            i <= entries@.len(),
            k@ == key@,
            names == entries@.map_values(|e: (String, i32)| e.0@),
            forall|j: int| 0 <= j < i ==> names[j] != key@,
        decreases entries.len() - i,
    {
        let n = chars_of(entries[i].0.as_str());
        assert(names[i as int] == entries@[i as int].0@);
        if same_chars(&n, &k) {
            proof { lemma_first_index(names, key@); }
            return entries[i].1;
        }
        i = i + 1;
    }
    proof { lemma_first_index(names, key@); }
    0
}

/// The light penalty of a time of day.
pub open spec fn time_light_penalty(t: TimeOfDay) -> int {
    match t {
        TimeOfDay::Night => -80,
        TimeOfDay::Dusk | TimeOfDay::Dawn => -40,
        TimeOfDay::Day => 0,
    }
}

/// `v` clamped into `[0, 100]`.
pub open spec fn clamp_score(v: int) -> int {
    if v < 0 { 0 } else if v > 100 { 100 } else { v }
}

/// The score an archetype name reads, if it is one of the three environmental archetypes.
pub open spec fn score_for(s: EnvironmentalScores, archetype: Seq<char>) -> Option<u32> {
    if archetype == "light"@ {
        Some(s.light)
    } else if archetype == "temperature"@ {
        Some(s.temperature)
    } else if archetype == "moisture"@ {
        Some(s.moisture)
    } else {
        None
    }
}

/// Whether a tag's threshold band holds the score of its archetype.
pub open spec fn env_hit(s: EnvironmentalScores, d: TagDef) -> bool {
    match d.threshold {
        Some((lo, hi)) => match score_for(s, d.archetype@) {
            Some(v) => lo <= v <= hi,
            None => false,
        },
        None => false,
    }
}

/// Ids of the registered tags whose band holds the matching score, ascending.
pub open spec fn env_tags(s: EnvironmentalScores, defs: Seq<TagDef>) -> Seq<TagId>
    decreases defs.len(),
{
    if defs.len() == 0 {
        seq![]
    } else if env_hit(s, defs.last()) {
        env_tags(s, defs.drop_last()).push((defs.len() - 1) as usize)
    } else {
        env_tags(s, defs.drop_last())
    }
}

fn clamp_i32(v: i32) -> (r: u32)
    ensures
        r == clamp_score(v as int),
{
    if v < 0 { 0 } else if v > 100 { 100 } else { v as u32 }
}

impl EnvironmentalScores {
    /// Base scores shifted by the weather's modifiers and the time of day (light only),
    /// each clamped to 0..=100.
    pub fn compute(base: EnvironmentalScores, weather_modifiers: &Vec<(String, i32)>, time: &TimeOfDay) -> (r: Self)
        requires
            i32::MIN <= (base.light as i32) + modifier_of(weather_modifiers@, "light"@) <= i32::MAX,
            i32::MIN <= (base.light as i32) + modifier_of(weather_modifiers@, "light"@) + time_light_penalty(*time) <= i32::MAX,
            i32::MIN <= (base.temperature as i32) + modifier_of(weather_modifiers@, "temperature"@) <= i32::MAX,
            i32::MIN <= (base.moisture as i32) + modifier_of(weather_modifiers@, "moisture"@) <= i32::MAX,
        ensures
            r.light == clamp_score((base.light as i32) + modifier_of(weather_modifiers@, "light"@) + time_light_penalty(*time)),
            r.temperature == clamp_score((base.temperature as i32) + modifier_of(weather_modifiers@, "temperature"@)),
            r.moisture == clamp_score((base.moisture as i32) + modifier_of(weather_modifiers@, "moisture"@)),
    {
        let light_mod = lookup_modifier(weather_modifiers, "light");
        let temp_mod = lookup_modifier(weather_modifiers, "temperature");
        let moist_mod = lookup_modifier(weather_modifiers, "moisture");
        let time_light_mod: i32 = match time {
            TimeOfDay::Night => -80,
            TimeOfDay::Dusk | TimeOfDay::Dawn => -40,
            TimeOfDay::Day => 0,
        };
        EnvironmentalScores {
            light: clamp_i32(base.light as i32 + light_mod + time_light_mod),
            temperature: clamp_i32(base.temperature as i32 + temp_mod),
            moisture: clamp_i32(base.moisture as i32 + moist_mod),
        }
    }

    /// The environmental condition tags that hold: every registered tag with a threshold
    /// band, in the light, temperature or moisture archetype, whose band holds that score.
    pub fn resolve_tags(&self, registry: &TagRegistry) -> (r: Vec<TagId>)
        ensures
            r@ == env_tags(*self, registry.defs@),
    {
        let mut result: Vec<TagId> = Vec::new();
        let mut i: usize = 0;
        while i < registry.defs.len()
            invariant
                i <= registry.defs@.len(),
                result@ == env_tags(*self, registry.defs@.subrange(0, i as int)),
            decreases registry.defs.len() - i,
        {
            let d = &registry.defs[i];
            assert(registry.defs@.subrange(0, i + 1).drop_last() =~= registry.defs@.subrange(0, i as int));
            assert(registry.defs@.subrange(0, i + 1).last() == *d);
            if let Some((low, high)) = d.threshold {
                let arch = d.archetype.as_str();
                let score: Option<u32> = if str_eq(arch, "light") {
                    Some(self.light)
                } else if str_eq(arch, "temperature") {
                    Some(self.temperature)
                } else if str_eq(arch, "moisture") {
                    Some(self.moisture)
                } else {
                    None
                };
                if let Some(v) = score {
                    if low <= v && v <= high {
                        result.push(i);
                    }
                }
            }
            i = i + 1;
        }
        assert(registry.defs@.subrange(0, registry.defs@.len() as int) =~= registry.defs@);
        result
    }
}


/// Light lost to the time of day: none by day, 40 at dawn and dusk, 80 at night; never a gain.
pub proof fn law_light_penalty_table(t: TimeOfDay)
    ensures
        time_light_penalty(TimeOfDay::Day) == 0,
        time_light_penalty(TimeOfDay::Dawn) == -40,
        time_light_penalty(TimeOfDay::Dusk) == -40,
        time_light_penalty(TimeOfDay::Night) == -80,
        -80 <= time_light_penalty(t) <= 0,
{
}

} // verus!
