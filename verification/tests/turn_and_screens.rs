use carapace::camera::Camera as GameCamera;
use carapace::components::Position;
use carapace::examine::ExamineMode;
use carapace::render::camera::{Camera, MapSize, TilePos};
use carapace::screen::{get_current_screen, register_app_screen_state, request_screen_transition, run_screen_transitions, AppScreen};
use carapace::turn::{BehaviorState, TurnCounter, TurnPhase, TurnState};
use carapace::world_overview::{WorldOverviewMode, WorldOverviewState, OverviewTab};

#[test]
fn turn_counter_starts_at_zero() {
    let counter = TurnCounter::new();
    assert_eq!(counter.current(), 0);
    assert_eq!(counter.0, 0);
}

#[test]
fn turn_counter_default_is_zero() {
    let counter = TurnCounter::default();
    assert_eq!(counter.current(), 0);
}

#[test]
fn turn_counter_increments() {
    let mut counter = TurnCounter::new();
    assert_eq!(counter.current(), 0);
    counter.increment();
    assert_eq!(counter.current(), 1);
    counter.increment();
    assert_eq!(counter.current(), 2);
}

#[test]
fn turn_state_defaults_to_player_phase() {
    let state = TurnState::new();
    assert_eq!(state.phase, TurnPhase::Player);
    assert!(state.is_player_turn());
    assert!(!state.is_npc_turn());
}

#[test]
fn turn_state_phase_transitions() {
    let mut state = TurnState::new();
    assert_eq!(state.phase, TurnPhase::Player);
    state.set_phase(TurnPhase::Npcs);
    assert_eq!(state.phase, TurnPhase::Npcs);
    assert!(state.is_npc_turn());
    assert!(!state.is_player_turn());
    state.set_phase(TurnPhase::Processing);
    assert_eq!(state.phase, TurnPhase::Processing);
    assert!(!state.is_player_turn());
    assert!(!state.is_npc_turn());
    state.set_phase(TurnPhase::Player);
    assert_eq!(state.phase, TurnPhase::Player);
    assert!(state.is_player_turn());
}

#[test]
fn behavior_state_with_home_pos() {
    let pos = Position { x: 5, y: 10, z: 0 };
    let state = BehaviorState { home_pos: Some(pos) };
    assert_eq!(state.home_pos.unwrap().x, 5);
    assert_eq!(state.home_pos.unwrap().y, 10);
}

#[test]
fn behavior_state_without_home_pos() {
    let state = BehaviorState { home_pos: None };
    assert!(state.home_pos.is_none());
}

#[test]
fn examine_mode_new() {
    let mode = ExamineMode::new();
    assert!(!mode.active);
    assert_eq!(mode.cursor.x, 0);
    assert_eq!(mode.cursor.y, 0);
}

#[test]
fn examine_mode_default() {
    let mode = ExamineMode::default();
    assert!(!mode.active);
    assert_eq!(mode.cursor.x, 0);
    assert_eq!(mode.cursor.y, 0);
}

#[test]
fn examine_mode_set_cursor() {
    let mut mode = ExamineMode::new();
    mode.set_cursor(5, 10);
    assert_eq!(mode.cursor.x, 5);
    assert_eq!(mode.cursor.y, 10);
    mode.set_cursor(42, 99);
    assert_eq!(mode.cursor.x, 42);
    assert_eq!(mode.cursor.y, 99);
    mode.set_cursor(0, 0);
    assert_eq!(mode.cursor.x, 0);
    assert_eq!(mode.cursor.y, 0);
}

#[test]
fn examine_mode_active_toggle() {
    let mut mode = ExamineMode::new();
    assert!(!mode.active);
    mode.active = true;
    assert!(mode.active);
    mode.active = false;
    assert!(!mode.active);
}

#[test]
fn camera_camera_starts_at_origin() {
    let cam = GameCamera::new(80, 24);
    assert_eq!(cam.x, 0);
    assert_eq!(cam.y, 0);
    assert_eq!(cam.target_x, 0);
    assert_eq!(cam.target_y, 0);
}

#[test]
fn camera_camera_move_right_clamped() {
    let mut cam = GameCamera::new(80, 24);
    for _ in 0..200 {
        cam.move_right(200);
    }
    assert_eq!(cam.target_x, 200 - 80);
}

#[test]
fn camera_camera_move_left_clamped_at_zero() {
    let mut cam = GameCamera::new(80, 24);
    cam.move_left(200);
    assert_eq!(cam.x, 0);
}

#[test]
fn camera_camera_centered_on() {
    let mut cam = GameCamera::new(80, 24);
    cam.centered_on(100, 100, 200, 200);
    assert_eq!(cam.x, 60);
    assert_eq!(cam.y, 88);
}

#[test]
fn camera_centered_on_sets_target_too() {
    let mut cam = GameCamera::new(80, 24);
    cam.centered_on(100, 50, 256, 256);
    assert_eq!(cam.x, 60);
    assert_eq!(cam.y, 38);
    assert_eq!(cam.target_x, 60);
    assert_eq!(cam.target_y, 38);
}

#[test]
fn camera_pan_to_clamps_to_map() {
    let mut cam = GameCamera::new(80, 24);
    cam.pan_to((500, 5), 200, 200);
    assert_eq!(cam.target_x, 120);
    assert_eq!(cam.target_y, 5);
    assert_eq!(cam.x, 0);
    cam.follow_z(3);
    assert_eq!(cam.z, 3);
}

#[test]
fn camera_starts_at_origin() {
    let cam = Camera::new(80, 24);
    assert_eq!(cam.x, 0);
    assert_eq!(cam.y, 0);
}

#[test]
fn camera_move_right_clamped() {
    let map = MapSize { width: 200, height: 200 };
    let mut cam = Camera::new(80, 24);
    for _ in 0..200 {
        cam.move_right(&map);
    }
    assert_eq!(cam.x, 200 - 80);
}

#[test]
fn camera_move_left_clamped_at_zero() {
    let map = MapSize { width: 200, height: 200 };
    let mut cam = Camera::new(80, 24);
    cam.move_left(&map);
    assert_eq!(cam.x, 0);
}

#[test]
fn camera_centered_on() {
    let map = MapSize { width: 200, height: 200 };
    let mut cam = Camera::new(80, 24);
    cam.centered_on(TilePos { x: 100, y: 100 }, &map);
    assert_eq!(cam.x, 60);
    assert_eq!(cam.y, 88);
}

#[test]
fn screens_move_only_along_allowed_paths() {
    assert!(AppScreen::transition_allowed(&AppScreen::Boot, &AppScreen::MainMenu));
    assert!(!AppScreen::transition_allowed(&AppScreen::Boot, &AppScreen::InWorld));
    assert!(AppScreen::transition_allowed(&AppScreen::Dead, &AppScreen::MainMenu));
    assert!(AppScreen::InWorld.is_gameplay());
    assert!(AppScreen::MainMenu.is_menu());
    assert!(AppScreen::WorldOverview.transitions_to_gameplay());
    let mut state = register_app_screen_state();
    assert_eq!(get_current_screen(Some(&state)), AppScreen::Boot);
    request_screen_transition(&mut state, AppScreen::MainMenu);
    assert_eq!(get_current_screen(Some(&state)), AppScreen::Boot);
    run_screen_transitions(&mut state);
    assert_eq!(get_current_screen(Some(&state)), AppScreen::MainMenu);
    assert_eq!(get_current_screen(None), AppScreen::Boot);
}

#[test]
fn world_overview_zoom_and_cursor() {
    let mut s = WorldOverviewState::new(WorldOverviewMode::SpawnSelection);
    assert!(s.active);
    assert_eq!(s.tab, OverviewTab::Minimap);
    assert_eq!(s.tiles_per_cell(), 4);
    s.zoom_in();
    s.zoom_in();
    s.zoom_in();
    assert_eq!(s.zoom, 2);
    assert_eq!(s.tiles_per_cell(), 1);
    s.move_cursor_right(10);
    assert_eq!(s.cursor_x, 1);
    s.zoom_out();
    s.move_cursor_down(3);
    assert_eq!(s.cursor_y, 2);
    s.move_cursor_down(3);
    assert_eq!(s.cursor_y, 2);
    s.move_cursor_up(3);
    assert_eq!(s.cursor_y, 0);
}
