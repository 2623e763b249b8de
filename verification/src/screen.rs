//! The application's screens and which moves between them are allowed.
use vstd::prelude::*;

verus! {

/// The screens of the application.
#[derive(Debug, Clone, Copy, PartialEq, Eq, Hash, Structural)]
pub enum AppScreen {
    Boot,
    MainMenu,
    CreateWorld,
    WorldGenProgress,
    NewCharacter,
    WorldOverview,
    InWorld,
    PauseMenu,
    Dead,
}

impl Default for AppScreen {
    /// The boot screen.
    fn default() -> (r: Self)
        ensures
            r == AppScreen::Boot,
    {
        AppScreen::Boot
    }
}

/// The allowed moves between screens.
pub open spec fn allowed(from: AppScreen, to: AppScreen) -> bool {
    match (from, to) {
        (AppScreen::Boot, AppScreen::MainMenu) => true,
        (AppScreen::MainMenu, AppScreen::CreateWorld) => true,
        (AppScreen::MainMenu, AppScreen::NewCharacter) => true,
        (AppScreen::MainMenu, AppScreen::WorldOverview) => true,
        (AppScreen::CreateWorld, AppScreen::WorldGenProgress) => true,
        (AppScreen::CreateWorld, AppScreen::MainMenu) => true,
        (AppScreen::WorldGenProgress, AppScreen::NewCharacter) => true,
        (AppScreen::WorldGenProgress, AppScreen::CreateWorld) => true,
        (AppScreen::NewCharacter, AppScreen::WorldOverview) => true,
        (AppScreen::NewCharacter, AppScreen::InWorld) => true,
        (AppScreen::NewCharacter, AppScreen::MainMenu) => true,
        (AppScreen::NewCharacter, AppScreen::CreateWorld) => true,
        (AppScreen::WorldOverview, AppScreen::NewCharacter) => true,
        (AppScreen::WorldOverview, AppScreen::InWorld) => true,
        (AppScreen::WorldOverview, AppScreen::MainMenu) => true,
        (AppScreen::InWorld, AppScreen::PauseMenu) => true,
        (AppScreen::InWorld, AppScreen::Dead) => true,
        (AppScreen::InWorld, AppScreen::MainMenu) => true,
        (AppScreen::PauseMenu, AppScreen::InWorld) => true,
        (AppScreen::Dead, AppScreen::MainMenu) => true,
        _ => false,
    }
}

impl AppScreen {
    /// Whether the screen shows the game world.
    pub fn is_gameplay(&self) -> (r: bool)
        ensures
            r == (*self == AppScreen::InWorld || *self == AppScreen::Dead),
    {
        match self {
            AppScreen::InWorld | AppScreen::Dead => true,
            _ => false,
        }
    }

    /// Whether the screen is one of the menus before play.
    pub fn is_menu(&self) -> (r: bool)
        ensures
            r == (*self == AppScreen::MainMenu || *self == AppScreen::CreateWorld
                || *self == AppScreen::NewCharacter || *self == AppScreen::WorldOverview),
    {
        match self {
            AppScreen::MainMenu | AppScreen::CreateWorld | AppScreen::NewCharacter | AppScreen::WorldOverview => true,
            _ => false,
        }
    }

    /// Whether play can start from the screen.
    pub fn transitions_to_gameplay(&self) -> (r: bool)
        ensures
            r == (*self == AppScreen::NewCharacter || *self == AppScreen::WorldOverview),
    {
        match self {
            AppScreen::NewCharacter | AppScreen::WorldOverview => true,
            _ => false,
        }
    }

    /// Whether moving from one screen to another is allowed.
    pub fn transition_allowed(from: &AppScreen, to: &AppScreen) -> (r: bool)
        ensures
            r == allowed(*from, *to),
    {
        match (from, to) {
            (AppScreen::Boot, AppScreen::MainMenu) => true,
            (AppScreen::MainMenu, AppScreen::CreateWorld) => true,
            (AppScreen::MainMenu, AppScreen::NewCharacter) => true,
            (AppScreen::MainMenu, AppScreen::WorldOverview) => true,
            (AppScreen::CreateWorld, AppScreen::WorldGenProgress) => true,
            (AppScreen::CreateWorld, AppScreen::MainMenu) => true,
            (AppScreen::WorldGenProgress, AppScreen::NewCharacter) => true,
            (AppScreen::WorldGenProgress, AppScreen::CreateWorld) => true,
            (AppScreen::NewCharacter, AppScreen::WorldOverview) => true,
            (AppScreen::NewCharacter, AppScreen::InWorld) => true,
            (AppScreen::NewCharacter, AppScreen::MainMenu) => true,
            (AppScreen::NewCharacter, AppScreen::CreateWorld) => true,
            (AppScreen::WorldOverview, AppScreen::NewCharacter) => true,
            (AppScreen::WorldOverview, AppScreen::InWorld) => true,
            (AppScreen::WorldOverview, AppScreen::MainMenu) => true,
            (AppScreen::InWorld, AppScreen::PauseMenu) => true,
            (AppScreen::InWorld, AppScreen::Dead) => true,
            (AppScreen::InWorld, AppScreen::MainMenu) => true,
            (AppScreen::PauseMenu, AppScreen::InWorld) => true,
            (AppScreen::Dead, AppScreen::MainMenu) => true,
            _ => false,
        }
    }
}

/// No screen moves to itself, nothing leads back to boot, and every screen but boot can be
/// left for another.
pub proof fn law_transitions(s: AppScreen, t: AppScreen)
    ensures
        !allowed(s, s),
        !allowed(s, AppScreen::Boot),
        allowed(AppScreen::Dead, t) ==> t == AppScreen::MainMenu,
        allowed(s, AppScreen::InWorld) ==> s.transitions_to_gameplay_spec() || s == AppScreen::PauseMenu,
{
}

impl AppScreen {
    /// Whether play can start from the screen.
    pub open spec fn transitions_to_gameplay_spec(&self) -> bool {
        *self == AppScreen::NewCharacter || *self == AppScreen::WorldOverview
    }
}

/// The current screen and the one requested for the next transition step.
#[derive(Debug, Clone, Copy, PartialEq, Eq, Structural)]
pub struct ScreenState {
    pub current: AppScreen,
    pub pending: Option<AppScreen>,
}

/// The screen state machine on start: boot, nothing requested.
pub fn register_app_screen_state() -> (r: ScreenState)
    ensures
        r == (ScreenState { current: AppScreen::Boot, pending: None }),
{
    ScreenState { current: AppScreen::Boot, pending: None }
}

/// Requests a move to `target` at the next transition step (a later request replaces it).
pub fn request_screen_transition(state: &mut ScreenState, target: AppScreen)
    ensures
        *final(state) == (ScreenState { pending: Some(target), ..*old(state) }),
{
    state.pending = Some(target);
}

/// The current screen; boot when the state machine is not set up.
pub fn get_current_screen(state: Option<&ScreenState>) -> (r: AppScreen)
    ensures
        r == match state { Some(s) => s.current, None => AppScreen::Boot },
{
    match state {
        Some(s) => s.current,
        None => AppScreen::Boot,
    }
}

/// Runs a transition step: a requested screen becomes current.
pub fn run_screen_transitions(state: &mut ScreenState)
    ensures
        final(state).pending is None,
        final(state).current == match old(state).pending { Some(t) => t, None => old(state).current },
{
    if let Some(t) = state.pending {
        state.current = t;
    }
    state.pending = None;
}

} // verus!
