//! Application screens and game state: what the Escape key, the main menu,
//! the settings screen and the pause overlay do to them.  The application
//! performs the side effects that the returned outcomes ask for.
use vstd::prelude::*;
use vstd::string::StringExecFns;
use crate::scene::GizmoMode;

verus! {

broadcast use vstd::string::to_string_from_display_ensures_for_str;

/// Game mode while a scene is open.
#[derive(Debug, Clone, Copy, PartialEq, Eq, Structural)]
pub enum GameStateKind {
    Exploring,
    Paused,
}

impl Default for GameStateKind {
    /// A session starts exploring.
    fn default() -> (r: Self)
        ensures
            r == GameStateKind::Exploring,
    {
        GameStateKind::Exploring
    }
}

/// One-frame actions emitted by the pause overlay.
#[derive(Debug, Clone, Copy, PartialEq, Eq, Structural)]
pub struct GameAction {
    /// Resume from Paused → Exploring.
    pub resume: bool,
    /// Leave the scene.
    pub quit: bool,
}

impl Default for GameAction {
    /// No action.
    fn default() -> (r: Self)
        ensures
            !r.resume && !r.quit,
    {
        GameAction { resume: false, quit: false }
    }
}

/// Top-level application screen.
#[derive(Debug, Clone, Copy, PartialEq, Eq, Structural)]
pub enum AppScreen {
    MainMenu,
    Settings,
    InScene,
}

/// State shared between the physics panel and the main loop.
#[derive(Debug, Clone, Copy, PartialEq, Eq, Structural)]
pub struct PhysicsUiState {
    /// Set by the panel when the user clicks "Spawn Physics Cube".
    pub spawn_cube_clicked: bool,
    /// Toggles rendering of collider wireframes.
    pub show_wireframe: bool,
}

/// State shared between the scene panel and the main loop.
#[derive(Debug, Clone)]
pub struct SceneUiState {
    pub save_clicked: bool,
    pub load_clicked: bool,
    /// Status message shown in the panel (last save/load result).
    pub status: String,
    pub model_count: usize,
    pub entity_count: usize,
    /// True while an asynchronous asset load is in progress.
    pub is_loading: bool,
}

/// State shared between the scripting panel and the main loop.
#[derive(Debug, Clone)]
pub struct ScriptingUiState {
    /// (path, enabled, last error) of each loaded script.
    pub scripts: Vec<(String, bool, Option<String>)>,
    /// Recent log lines emitted by scripts.
    pub log_lines: Vec<String>,
}

/// The screen, the game mode, and whether prop placement is active.
#[derive(Debug, Clone, Copy, PartialEq, Eq, Structural)]
pub struct ScreenState {
    pub screen: AppScreen,
    pub game: GameStateKind,
    pub placement_active: bool,
}

/// What the application must do with the mouse.
#[derive(Debug, Clone, Copy, PartialEq, Eq, Structural)]
pub enum MouseAction {
    Keep,
    Capture,
    Release,
}

/// Result of pressing Escape.
#[derive(Debug, Clone, Copy, PartialEq, Eq, Structural)]
pub struct EscapeOutcome {
    pub state: ScreenState,
    pub mouse: MouseAction,
    /// Placement was cancelled: also forget the prop selected in the panel.
    pub clear_selected_prop: bool,
}

/// Escape: cancel placement if it is active; otherwise leave the settings
/// screen for the main menu, or toggle pause in a scene (releasing the
/// mouse when pausing and capturing it when resuming).
pub open spec fn spec_on_escape(s: ScreenState) -> EscapeOutcome {
    if s.placement_active {
        EscapeOutcome {
            state: ScreenState { placement_active: false, ..s },
            mouse: MouseAction::Keep,
            clear_selected_prop: true,
        }
    } else {
        match (s.screen, s.game) {
            (AppScreen::Settings, _) => EscapeOutcome {
                state: ScreenState { screen: AppScreen::MainMenu, ..s },
                mouse: MouseAction::Keep,
                clear_selected_prop: false,
            },
            (AppScreen::InScene, GameStateKind::Exploring) => EscapeOutcome {
                state: ScreenState { game: GameStateKind::Paused, ..s },
                mouse: MouseAction::Release,
                clear_selected_prop: false,
            },
            (AppScreen::InScene, GameStateKind::Paused) => EscapeOutcome {
                state: ScreenState { game: GameStateKind::Exploring, ..s },
                mouse: MouseAction::Capture,
                clear_selected_prop: false,
            },
            _ => EscapeOutcome { state: s, mouse: MouseAction::Keep, clear_selected_prop: false },
        }
    }
}

/// React to the Escape key.
pub fn on_escape(s: ScreenState) -> (r: EscapeOutcome)
    ensures
        r == spec_on_escape(s),
{
    if s.placement_active {
        return EscapeOutcome {
            state: ScreenState { placement_active: false, ..s },
            mouse: MouseAction::Keep,
            clear_selected_prop: true,
        };
    }
    match (s.screen, s.game) {
        (AppScreen::Settings, _) => EscapeOutcome {
            state: ScreenState { screen: AppScreen::MainMenu, ..s },
            mouse: MouseAction::Keep,
            clear_selected_prop: false,
        },
        (AppScreen::InScene, GameStateKind::Exploring) => EscapeOutcome {
            state: ScreenState { game: GameStateKind::Paused, ..s },
            mouse: MouseAction::Release,
            clear_selected_prop: false,
        },
        (AppScreen::InScene, GameStateKind::Paused) => EscapeOutcome {
            state: ScreenState { game: GameStateKind::Exploring, ..s },
            mouse: MouseAction::Capture,
            clear_selected_prop: false,
        },
        _ => EscapeOutcome { state: s, mouse: MouseAction::Keep, clear_selected_prop: false },
    }
}

/// Escape toggles pause: in a scene without active placement, pressing
/// Escape twice returns to the same state, having released and then
/// re-captured the mouse (or the reverse).
pub proof fn lemma_escape_toggles_pause(s: ScreenState)
    requires
        s.screen == AppScreen::InScene,
        !s.placement_active,
    ensures
        spec_on_escape(spec_on_escape(s).state).state == s,
        spec_on_escape(s).state.game != s.game,
        spec_on_escape(s).mouse != spec_on_escape(spec_on_escape(s).state).mouse,
{
}

/// Escape on the main menu changes nothing.
pub proof fn lemma_escape_idle_on_main_menu(s: ScreenState)
    requires
        s.screen == AppScreen::MainMenu,
        !s.placement_active,
    ensures
        spec_on_escape(s).state == s,
        spec_on_escape(s).mouse == MouseAction::Keep,
{
}

/// One-frame actions of the main menu.
#[derive(Debug, Clone)]
pub struct MainMenuAction {
    pub continue_game: bool,
    pub new_scene: bool,
    pub quit: bool,
    /// Name of a saved scene to load.
    pub load_scene: Option<String>,
}

/// What the main menu asks the application to do this frame.
#[derive(Debug, Clone)]
pub struct MenuOutcome {
    /// Leave the application.
    pub exit_requested: bool,
    /// Refresh the settings options and go to the settings screen.
    pub open_settings: bool,
    /// Start loading the last session.
    pub load_last_session: bool,
    /// Start loading this scene file.
    pub load_scene_path: Option<String>,
}

/// Path of the saved scene called `name`: `scenes/{name}.json`.
pub open spec fn spec_scene_path(name: Seq<char>) -> Seq<char> {
    "scenes/"@ + name + ".json"@
}

/// Path of the saved scene called `name`.
pub fn scene_path(name: &str) -> (p: String)
    ensures
        p@ == spec_scene_path(name@),
{
    let mut p = "scenes/".to_string();
    p.append(name);
    p.append(".json");
    p
}

/// Decide the main menu's frame: every requested action is reported; the
/// actions are independent of one another.
pub fn main_menu_step(a: &MainMenuAction) -> (r: MenuOutcome)
    ensures
        r.exit_requested == a.quit,
        r.open_settings == a.new_scene,
        r.load_last_session == a.continue_game,
        r.load_scene_path is Some <==> a.load_scene is Some,
        a.load_scene matches Some(n) ==> r.load_scene_path->Some_0@ == spec_scene_path(n@),
{
    let load_scene_path = match &a.load_scene {
        Some(name) => Some(scene_path(name.as_str())),
        None => None,
    };
    MenuOutcome {
        exit_requested: a.quit,
        open_settings: a.new_scene,
        load_last_session: a.continue_game,
        load_scene_path,
    }
}

/// The option at `idx`, or the empty string when there is none.
pub fn pick_option(options: &Vec<String>, idx: usize) -> (r: String)
    ensures
        idx < options@.len() ==> r@ == options@[idx as int]@,
        idx >= options@.len() ==> r@.len() == 0,
{
    if idx < options.len() {
        options[idx].clone()
    } else {
        String::new()
    }
}

/// Default props catalog of a new scene.
pub open spec fn default_props_catalog() -> Seq<char> {
    "assets/props/default_props.json"@
}

/// The props catalog to load for a scene: its own, or the default one when
/// the scene names none.
pub fn catalog_path(catalog: &str) -> (p: String)
    ensures
        catalog@.len() == 0 ==> p@ == default_props_catalog(),
        catalog@.len() != 0 ==> p@ == catalog@,
{
    if catalog.is_empty() {
        "assets/props/default_props.json".to_string()
    } else {
        catalog.to_string()
    }
}

/// What the pause overlay asks the application to do this frame.
#[derive(Debug, Clone, Copy, PartialEq, Eq, Structural)]
pub struct HudOutcome {
    pub state: ScreenState,
    /// Resumed from pause: capture the mouse.
    pub capture_mouse: bool,
    /// Quit the scene: save the session, clear the world and physics, drop
    /// the undo stack, release the mouse.
    pub leave_scene: bool,
}

/// Decide the overlay's frame in a scene: resume only un-pauses a paused
/// game; quit leaves for the main menu in exploring mode with placement
/// cancelled.
pub fn hud_step(s: ScreenState, a: GameAction) -> (r: HudOutcome)
    ensures
        r.capture_mouse == (a.resume && s.game == GameStateKind::Paused),
        r.leave_scene == a.quit,
        a.quit ==> r.state == (ScreenState {
            screen: AppScreen::MainMenu,
            game: GameStateKind::Exploring,
            placement_active: false,
        }),
        !a.quit ==> r.state == (ScreenState {
            game: if a.resume && s.game == GameStateKind::Paused {
                GameStateKind::Exploring
            } else {
                s.game
            },
            ..s
        }),
{
    let mut state = s;
    let mut capture_mouse = false;
    if a.resume && s.game == GameStateKind::Paused {
        state.game = GameStateKind::Exploring;
        capture_mouse = true;
    }
    if a.quit {
        state = ScreenState {
            screen: AppScreen::MainMenu,
            game: GameStateKind::Exploring,
            placement_active: false,
        };
    }
    HudOutcome { state, capture_mouse, leave_scene: a.quit }
}

/// Unicode `White_Space` (the characters `str::trim` removes).
pub open spec fn is_white_space(c: char) -> bool {
    let u = c as u32;
    (9 <= u && u <= 13) || u == 32 || u == 0x85 || u == 0xA0 || u == 0x1680 || (0x2000 <= u && u
        <= 0x200A) || u == 0x2028 || u == 0x2029 || u == 0x202F || u == 0x205F || u == 0x3000
}

/// `r` is `s` without its leading and trailing white space.
pub open spec fn is_trim_of(r: Seq<char>, s: Seq<char>) -> bool {
    exists|i: int, j: int|
        0 <= i <= j <= s.len() && r == s.subrange(i, j) && (forall|k: int|
            0 <= k < i ==> is_white_space(#[trigger] s[k])) && (forall|k: int|
            j <= k < s.len() ==> is_white_space(#[trigger] s[k])) && (i < j ==> !is_white_space(
            s[i],
        ) && !is_white_space(s[j - 1]))
}

/// `str::trim` (then `to_string`): the standard library documents that it
/// removes leading and trailing whitespace as defined by the Unicode
/// `White_Space` property, which `is_white_space` lists.
#[verifier::external_body]
fn trim(s: &str) -> (r: String)
    ensures
        is_trim_of(r@, s@),
{
    s.trim().to_string()
}

/// The settings screen's choices for a new scene.
#[derive(Debug, Clone)]
pub struct SettingsChoice {
    pub scene_name: String,
    pub skybox_options: Vec<String>,
    pub selected_skybox: usize,
    pub terrain_options: Vec<String>,
    pub selected_terrain: usize,
    pub catalog_options: Vec<String>,
    pub selected_catalog: usize,
}

/// A scene to create from the settings screen.
#[derive(Debug, Clone)]
pub struct NewScene {
    /// Scene name (the typed name, trimmed).
    pub name: String,
    pub skybox: String,
    pub terrain: String,
    pub props_catalog: String,
}

/// What the settings screen asks the application to do this frame.
#[derive(Debug, Clone)]
pub struct SettingsOutcome {
    /// Go back to the main menu.
    pub back_to_menu: bool,
    /// Create (save and enter) this scene.
    pub create: Option<NewScene>,
}

/// The option at `idx` of `options`, or empty.
pub open spec fn option_at(options: Seq<String>, idx: usize) -> Seq<char> {
    if idx < options.len() {
        options[idx as int]@
    } else {
        Seq::empty()
    }
}

/// Decide the settings screen's frame: "back" returns to the main menu;
/// "create" builds the new scene from the trimmed name and the selected
/// options (empty where a selection is out of range).
pub fn settings_step(c: &SettingsChoice, create: bool, back: bool) -> (r: SettingsOutcome)
    ensures
        r.back_to_menu == back,
        r.create is Some <==> create,
        r.create matches Some(n) ==> {
            &&& is_trim_of(n.name@, c.scene_name@)
            &&& n.skybox@ == option_at(c.skybox_options@, c.selected_skybox)
            &&& n.terrain@ == option_at(c.terrain_options@, c.selected_terrain)
            &&& n.props_catalog@ == option_at(c.catalog_options@, c.selected_catalog)
        },
{
    let new_scene = if create {
        Some(
            NewScene {
                name: trim(c.scene_name.as_str()),
                skybox: pick_option(&c.skybox_options, c.selected_skybox),
                terrain: pick_option(&c.terrain_options, c.selected_terrain),
                props_catalog: pick_option(&c.catalog_options, c.selected_catalog),
            },
        )
    } else {
        None
    };
    SettingsOutcome { back_to_menu: back, create: new_scene }
}


/// The keys the engine reacts to.
#[derive(Debug, Clone, Copy, PartialEq, Eq, Structural)]
pub enum EngineKey {
    W,
    A,
    S,
    D,
    E,
    R,
    G,
    Space,
    Shift,
    Escape,
    Other,
}

/// Movement keys held (and a pending jump request).
#[derive(Debug, Clone, Copy, PartialEq, Eq, Structural)]
pub struct KeyFlags {
    pub forward: bool,
    pub backward: bool,
    pub left: bool,
    pub right: bool,
    pub sprint: bool,
    pub jump: bool,
}

/// Editor settings the keyboard changes while the mouse is free.
#[derive(Debug, Clone, Copy, PartialEq, Eq, Structural)]
pub struct EditorKeys {
    pub gizmo: GizmoMode,
    pub grid_snap: bool,
}

/// What a key event does.
#[derive(Debug, Clone, Copy, PartialEq, Eq, Structural)]
pub struct KeyOutcome {
    pub keys: KeyFlags,
    pub editor: EditorKeys,
    /// Escape was pressed: run the Escape handling.
    pub escape: bool,
}

/// Effect of a key going down (`pressed`) or up.  With the mouse captured
/// (walking), W/A/S/D drive movement and Space requests a jump; with the
/// mouse free (editing), W/E/R pick the gizmo mode and G toggles grid
/// snapping.  Shift is sprint in both, and Escape is reported on press.
pub open spec fn spec_on_key(
    key: EngineKey,
    pressed: bool,
    captured: bool,
    keys: KeyFlags,
    editor: EditorKeys,
) -> KeyOutcome {
    let same = KeyOutcome { keys, editor, escape: false };
    match key {
        EngineKey::W => if captured {
            KeyOutcome { keys: KeyFlags { forward: pressed, ..keys }, ..same }
        } else if pressed {
            KeyOutcome { editor: EditorKeys { gizmo: GizmoMode::Translate, ..editor }, ..same }
        } else {
            same
        },
        EngineKey::S => if captured {
            KeyOutcome { keys: KeyFlags { backward: pressed, ..keys }, ..same }
        } else {
            same
        },
        EngineKey::A => if captured {
            KeyOutcome { keys: KeyFlags { left: pressed, ..keys }, ..same }
        } else {
            same
        },
        EngineKey::D => if captured {
            KeyOutcome { keys: KeyFlags { right: pressed, ..keys }, ..same }
        } else {
            same
        },
        EngineKey::E => if !captured && pressed {
            KeyOutcome { editor: EditorKeys { gizmo: GizmoMode::Rotate, ..editor }, ..same }
        } else {
            same
        },
        EngineKey::R => if !captured && pressed {
            KeyOutcome { editor: EditorKeys { gizmo: GizmoMode::Scale, ..editor }, ..same }
        } else {
            same
        },
        EngineKey::Shift => KeyOutcome { keys: KeyFlags { sprint: pressed, ..keys }, ..same },
        EngineKey::Space => if captured && pressed {
            KeyOutcome { keys: KeyFlags { jump: true, ..keys }, ..same }
        } else {
            same
        },
        EngineKey::G => if !captured && pressed {
            KeyOutcome { editor: EditorKeys { grid_snap: !editor.grid_snap, ..editor }, ..same }
        } else {
            same
        },
        EngineKey::Escape => KeyOutcome { escape: pressed, ..same },
        EngineKey::Other => same,
    }
}

/// Apply a key event to the held keys and the editor settings.
pub fn on_key(
    key: EngineKey,
    pressed: bool,
    captured: bool,
    keys: KeyFlags,
    editor: EditorKeys,
) -> (r: KeyOutcome)
    ensures
        r == spec_on_key(key, pressed, captured, keys, editor),
{
    let same = KeyOutcome { keys, editor, escape: false };
    match key {
        EngineKey::W => if captured {
            KeyOutcome { keys: KeyFlags { forward: pressed, ..keys }, ..same }
        } else if pressed {
            KeyOutcome { editor: EditorKeys { gizmo: GizmoMode::Translate, ..editor }, ..same }
        } else {
            same
        },
        EngineKey::S => if captured {
            KeyOutcome { keys: KeyFlags { backward: pressed, ..keys }, ..same }
        } else {
            same
        },
        EngineKey::A => if captured {
            KeyOutcome { keys: KeyFlags { left: pressed, ..keys }, ..same }
        } else {
            same
        },
        EngineKey::D => if captured {
            KeyOutcome { keys: KeyFlags { right: pressed, ..keys }, ..same }
        } else {
            same
        },
        EngineKey::E => if !captured && pressed {
            KeyOutcome { editor: EditorKeys { gizmo: GizmoMode::Rotate, ..editor }, ..same }
        } else {
            same
        },
        EngineKey::R => if !captured && pressed {
            KeyOutcome { editor: EditorKeys { gizmo: GizmoMode::Scale, ..editor }, ..same }
        } else {
            same
        },
        EngineKey::Shift => KeyOutcome { keys: KeyFlags { sprint: pressed, ..keys }, ..same },
        EngineKey::Space => if captured && pressed {
            KeyOutcome { keys: KeyFlags { jump: true, ..keys }, ..same }
        } else {
            same
        },
        EngineKey::G => if !captured && pressed {
            KeyOutcome { editor: EditorKeys { grid_snap: !editor.grid_snap, ..editor }, ..same }
        } else {
            same
        },
        EngineKey::Escape => KeyOutcome { escape: pressed, ..same },
        EngineKey::Other => same,
    }
}

/// While walking (mouse captured) no key changes the editor settings, and
/// while editing (mouse free) no key changes movement other than sprint.
pub proof fn lemma_keys_split_by_mode(
    key: EngineKey,
    pressed: bool,
    captured: bool,
    keys: KeyFlags,
    editor: EditorKeys,
)
    ensures
        captured ==> spec_on_key(key, pressed, captured, keys, editor).editor == editor,
        !captured ==> spec_on_key(key, pressed, captured, keys, editor).keys == (KeyFlags {
            sprint: spec_on_key(key, pressed, captured, keys, editor).keys.sprint,
            ..keys
        }),
{
}

/// With the mouse captured the keys drive the character: W moves forward,
/// S backward, A strafes left, D strafes right, Shift sprints while held and
/// Space starts a jump; each movement key sets exactly its own flag to
/// whether it is held and leaves the editor alone.
pub proof fn lemma_captured_keys_move(pressed: bool, keys: KeyFlags, editor: EditorKeys)
    ensures
        spec_on_key(EngineKey::W, pressed, true, keys, editor) == (KeyOutcome {
            keys: KeyFlags { forward: pressed, ..keys },
            editor,
            escape: false,
        }),
        spec_on_key(EngineKey::S, pressed, true, keys, editor) == (KeyOutcome {
            keys: KeyFlags { backward: pressed, ..keys },
            editor,
            escape: false,
        }),
        spec_on_key(EngineKey::A, pressed, true, keys, editor) == (KeyOutcome {
            keys: KeyFlags { left: pressed, ..keys },
            editor,
            escape: false,
        }),
        spec_on_key(EngineKey::D, pressed, true, keys, editor) == (KeyOutcome {
            keys: KeyFlags { right: pressed, ..keys },
            editor,
            escape: false,
        }),
        spec_on_key(EngineKey::Shift, pressed, true, keys, editor).keys == (KeyFlags {
            sprint: pressed,
            ..keys
        }),
        spec_on_key(EngineKey::Space, true, true, keys, editor).keys == (KeyFlags {
            jump: true,
            ..keys
        }),
        spec_on_key(EngineKey::Space, false, true, keys, editor).keys == keys,
{
}

/// With the mouse free the keys drive the editor: pressing W, E and R picks
/// the translate, rotate and scale gizmo, G toggles grid snapping; the
/// movement flags are not touched (A, S and D do nothing), and releasing
/// a key changes nothing.
pub proof fn lemma_free_keys_edit(keys: KeyFlags, editor: EditorKeys)
    ensures
        spec_on_key(EngineKey::W, true, false, keys, editor).editor == (EditorKeys {
            gizmo: GizmoMode::Translate,
            ..editor
        }),
        spec_on_key(EngineKey::E, true, false, keys, editor).editor == (EditorKeys {
            gizmo: GizmoMode::Rotate,
            ..editor
        }),
        spec_on_key(EngineKey::R, true, false, keys, editor).editor == (EditorKeys {
            gizmo: GizmoMode::Scale,
            ..editor
        }),
        spec_on_key(EngineKey::G, true, false, keys, editor).editor == (EditorKeys {
            grid_snap: !editor.grid_snap,
            ..editor
        }),
        spec_on_key(EngineKey::W, true, false, keys, editor).keys == keys,
        spec_on_key(EngineKey::A, true, false, keys, editor) == (KeyOutcome { keys, editor, escape: false }),
        spec_on_key(EngineKey::S, true, false, keys, editor) == (KeyOutcome { keys, editor, escape: false }),
        spec_on_key(EngineKey::D, true, false, keys, editor) == (KeyOutcome { keys, editor, escape: false }),
        forall|k: EngineKey| k != EngineKey::Shift && k != EngineKey::Escape ==> #[trigger] spec_on_key(k, false, false, keys, editor)
            == (KeyOutcome { keys, editor, escape: false }),
{
}

/// Escape is reported exactly when it is pressed, in either mode, and no
/// other key reports it.
pub proof fn lemma_escape_key(k: EngineKey, pressed: bool, captured: bool, keys: KeyFlags, editor: EditorKeys)
    ensures
        spec_on_key(k, pressed, captured, keys, editor).escape == (k == EngineKey::Escape && pressed),
{
}

} // verus!
