use carapace::weather::{pick_weighted, total_weight, weather_tags_for_context, TimeOfDay, WeatherDef, WeatherState};

fn def(name: &str, weight: u32, tags: &[&str]) -> WeatherDef {
    WeatherDef {
        name: name.to_string(),
        weight,
        duration: [5, 20],
        modifiers: Vec::new(),
        tags: tags.iter().map(|s| s.to_string()).collect(),
    }
}

fn all_weathers() -> Vec<WeatherDef> {
    vec![
        def("Clear", 40, &[]),
        def("Cloudy", 20, &["CLOUDY"]),
        def("Fog", 10, &["FOGGY"]),
        def("Rain", 15, &["RAINY"]),
        def("Storm", 5, &["STORMY", "RAINY"]),
        def("Snow", 5, &["SNOWY"]),
        def("Sandstorm", 3, &["SANDSTORM"]),
        def("Ashfall", 2, &["ASHFALL"]),
    ]
}

#[test]
fn weather_defaults_to_first_weather_day() {
    let ws = WeatherState::new(all_weathers());
    assert_eq!(ws.time, TimeOfDay::Day);
    assert!(ws.weather_defs.len() >= 8);
    assert_eq!(ws.active_weather().name, "Clear");
}

#[test]
fn advance_time_changes_day_to_dusk() {
    let mut ws = WeatherState::new(all_weathers());
    ws.time = TimeOfDay::Day;
    ws.turn_count = 24;
    ws.advance_time();
    assert_eq!(ws.time, TimeOfDay::Dusk);
    assert_eq!(ws.turn_count, 0);
}

#[test]
fn weather_changes_after_turns_elapsed() {
    let mut ws = WeatherState::new(all_weathers());
    ws.weather_turns_remaining = 1;
    ws.advance_time();
    assert_eq!(ws.weather_turns_remaining, 0);
    ws.advance_time();
    assert!(ws.weather_turns_remaining >= 5 && ws.weather_turns_remaining < 25);
    assert!(ws.active_idx < ws.weather_defs.len());
}

#[test]
fn active_weather_returns_current_def() {
    let ws = WeatherState::new(all_weathers());
    let d = ws.active_weather();
    assert_eq!(d.name, "Clear");
    assert!(d.weight > 0);
}

#[test]
fn descriptive_tags_include_weather_def_tags() {
    let state = WeatherState::new(all_weathers());
    let tags = weather_tags_for_context(&state, &TimeOfDay::Day);
    assert!(tags.is_empty(), "Clear weather should have no descriptive tags");

    let rain_state = {
        let mut ws = WeatherState::new(all_weathers());
        ws.active_idx = ws.weather_defs.iter().position(|w| w.name == "Rain").unwrap_or(0);
        ws
    };
    let rain_tags = weather_tags_for_context(&rain_state, &TimeOfDay::Day);
    assert!(rain_tags.contains(&"RAINY".to_string()));
}

#[test]
fn all_times_have_names() {
    for t in &[TimeOfDay::Dawn, TimeOfDay::Day, TimeOfDay::Dusk, TimeOfDay::Night] {
        assert!(!t.name().is_empty());
    }
    assert_eq!(TimeOfDay::Dusk.name(), "Dusk");
}

#[test]
fn day_cycle_phase_lengths() {
    let mut ws = WeatherState::new(all_weathers());
    for _ in 0..24 {
        ws.advance_time();
    }
    assert_eq!(ws.time, TimeOfDay::Day);
    ws.advance_time();
    assert_eq!(ws.time, TimeOfDay::Dusk);
    for _ in 0..12 {
        ws.advance_time();
    }
    assert_eq!(ws.time, TimeOfDay::Night);
    for _ in 0..50 {
        ws.advance_time();
    }
    assert_eq!(ws.time, TimeOfDay::Dawn);
    for _ in 0..12 {
        ws.advance_time();
    }
    assert_eq!(ws.time, TimeOfDay::Day);
}

#[test]
fn weighted_pick_lands_by_cumulative_weight() {
    let w = vec![40u32, 20, 10];
    assert_eq!(total_weight(&w), Some(70));
    assert_eq!(pick_weighted(&w, 0), Some(0));
    assert_eq!(pick_weighted(&w, 39), Some(0));
    assert_eq!(pick_weighted(&w, 40), Some(1));
    assert_eq!(pick_weighted(&w, 69), Some(2));
    assert_eq!(pick_weighted(&w, 70), None);
    assert_eq!(total_weight(&vec![u32::MAX, 1]), None);
}

#[test]
fn roll_new_weather_never_picks_a_weightless_kind() {
    let mut ws = WeatherState::new(vec![def("Clear", 0, &[]), def("Rain", 7, &["RAINY"]), def("Fog", 0, &[])]);
    for _ in 0..20 {
        ws.roll_new_weather();
        assert_eq!(ws.active_weather().name, "Rain");
        assert!((5..25).contains(&ws.weather_turns_remaining));
    }
}
