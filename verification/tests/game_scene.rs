use ralk::config::{default_msaa, default_ssao_samples, default_true};
use ralk::game::{
    catalog_path, hud_step, main_menu_step, on_escape, on_key, pick_option, scene_path,
    settings_step, AppScreen, EditorKeys, EngineKey, GameAction, GameStateKind, KeyFlags,
    MainMenuAction, MouseAction, ScreenState, SettingsChoice,
};
use ralk::scene::{
    clamp_entity_indices, default_category, default_collider, GizmoAxis, GizmoMode,
    PhysicsBodyType, PropPhysics, RigidBodyDef, SceneConfig,
};
use ralk::scripting::{command_kind, CommandKind, ScriptLog, ScriptRegistry, MAX_LOG_LINES};
use ralk::shader::ShaderTarget;

fn screen(screen: AppScreen, game: GameStateKind, placement_active: bool) -> ScreenState {
    ScreenState { screen, game, placement_active }
}

#[test]
fn escape_pauses_and_resumes() {
    let exploring = screen(AppScreen::InScene, GameStateKind::Exploring, false);
    let paused = on_escape(exploring);
    assert_eq!(paused.state.game, GameStateKind::Paused);
    assert_eq!(paused.mouse, MouseAction::Release);
    let resumed = on_escape(paused.state);
    assert_eq!(resumed.state, exploring);
    assert_eq!(resumed.mouse, MouseAction::Capture);
}

#[test]
fn escape_cancels_placement_first() {
    let s = screen(AppScreen::InScene, GameStateKind::Exploring, true);
    let r = on_escape(s);
    assert!(!r.state.placement_active);
    assert_eq!(r.state.game, GameStateKind::Exploring);
    assert!(r.clear_selected_prop);
    assert_eq!(r.mouse, MouseAction::Keep);
}

#[test]
fn escape_leaves_settings_and_ignores_main_menu() {
    let r = on_escape(screen(AppScreen::Settings, GameStateKind::Exploring, false));
    assert_eq!(r.state.screen, AppScreen::MainMenu);
    let menu = screen(AppScreen::MainMenu, GameStateKind::Paused, false);
    let r = on_escape(menu);
    assert_eq!(r.state, menu);
    assert_eq!(r.mouse, MouseAction::Keep);
    assert!(!r.clear_selected_prop);
}

#[test]
fn main_menu_actions() {
    let a = MainMenuAction {
        continue_game: true,
        new_scene: false,
        quit: false,
        load_scene: Some("forest".to_string()),
    };
    let r = main_menu_step(&a);
    assert!(r.load_last_session);
    assert!(!r.open_settings && !r.exit_requested);
    assert_eq!(r.load_scene_path, Some("scenes/forest.json".to_string()));
    let q = main_menu_step(&MainMenuAction {
        continue_game: false,
        new_scene: true,
        quit: true,
        load_scene: None,
    });
    assert!(q.exit_requested && q.open_settings);
    assert_eq!(q.load_scene_path, None);
    assert_eq!(scene_path("a b"), "scenes/a b.json");
}

#[test]
fn hud_resume_and_quit() {
    let paused = screen(AppScreen::InScene, GameStateKind::Paused, true);
    let r = hud_step(paused, GameAction { resume: true, quit: false });
    assert!(r.capture_mouse);
    assert_eq!(r.state, screen(AppScreen::InScene, GameStateKind::Exploring, true));
    let r = hud_step(paused, GameAction { resume: false, quit: true });
    assert!(r.leave_scene);
    assert_eq!(r.state, screen(AppScreen::MainMenu, GameStateKind::Exploring, false));
    let exploring = screen(AppScreen::InScene, GameStateKind::Exploring, false);
    let r = hud_step(exploring, GameAction::default());
    assert!(!r.capture_mouse && !r.leave_scene);
    assert_eq!(r.state, exploring);
    // Resume while exploring does nothing.
    let r = hud_step(exploring, GameAction { resume: true, quit: false });
    assert!(!r.capture_mouse);
}

#[test]
fn options_and_catalogs() {
    let opts = vec!["sky_a".to_string(), "sky_b".to_string()];
    assert_eq!(pick_option(&opts, 1), "sky_b");
    assert_eq!(pick_option(&opts, 2), "");
    assert_eq!(catalog_path(""), "assets/props/default_props.json");
    assert_eq!(catalog_path("assets/props/mine.json"), "assets/props/mine.json");
}

#[test]
fn settings_create_trims_the_name() {
    let c = SettingsChoice {
        scene_name: "  My Scene \t\n".to_string(),
        skybox_options: vec!["dawn".to_string(), "dusk".to_string()],
        selected_skybox: 1,
        terrain_options: vec!["hills".to_string()],
        selected_terrain: 5,
        catalog_options: vec!["props.json".to_string()],
        selected_catalog: 0,
    };
    let r = settings_step(&c, true, false);
    assert!(!r.back_to_menu);
    let n = r.create.unwrap();
    assert_eq!(n.name, "My Scene");
    assert_eq!(n.skybox, "dusk");
    assert_eq!(n.terrain, "");
    assert_eq!(n.props_catalog, "props.json");
    let r = settings_step(&c, false, true);
    assert!(r.back_to_menu);
    assert!(r.create.is_none());
    let blank = SettingsChoice { scene_name: "\u{3000} \u{a0}".to_string(), ..c };
    assert_eq!(settings_step(&blank, true, false).create.unwrap().name, "");
}

fn no_keys() -> KeyFlags {
    KeyFlags { forward: false, backward: false, left: false, right: false, sprint: false, jump: false }
}

#[test]
fn keys_while_walking_drive_movement() {
    let editor = EditorKeys { gizmo: GizmoMode::Scale, grid_snap: false };
    let r = on_key(EngineKey::W, true, true, no_keys(), editor);
    assert!(r.keys.forward);
    assert_eq!(r.editor, editor);
    let r = on_key(EngineKey::W, false, true, r.keys, editor);
    assert!(!r.keys.forward);
    let r = on_key(EngineKey::Space, true, true, no_keys(), editor);
    assert!(r.keys.jump);
    // Releasing space does not cancel a pending jump.
    let r = on_key(EngineKey::Space, false, true, r.keys, editor);
    assert!(r.keys.jump);
    let r = on_key(EngineKey::E, true, true, no_keys(), editor);
    assert_eq!(r.editor, editor);
}

#[test]
fn keys_while_editing_drive_the_editor() {
    let editor = EditorKeys { gizmo: GizmoMode::Scale, grid_snap: false };
    let r = on_key(EngineKey::W, true, false, no_keys(), editor);
    assert_eq!(r.editor.gizmo, GizmoMode::Translate);
    assert_eq!(r.keys, no_keys());
    assert_eq!(on_key(EngineKey::E, true, false, no_keys(), editor).editor.gizmo, GizmoMode::Rotate);
    let r = on_key(EngineKey::R, true, false, no_keys(), EditorKeys { gizmo: GizmoMode::Translate, ..editor });
    assert_eq!(r.editor.gizmo, GizmoMode::Scale);
    let r = on_key(EngineKey::G, true, false, no_keys(), editor);
    assert!(r.editor.grid_snap);
    let r = on_key(EngineKey::G, false, false, no_keys(), r.editor);
    assert!(r.editor.grid_snap);
    let r = on_key(EngineKey::S, true, false, no_keys(), editor);
    assert_eq!(r.keys, no_keys());
    // Sprint works in both modes; Escape is reported on press only.
    assert!(on_key(EngineKey::Shift, true, false, no_keys(), editor).keys.sprint);
    assert!(on_key(EngineKey::Escape, true, false, no_keys(), editor).escape);
    assert!(!on_key(EngineKey::Escape, false, true, no_keys(), editor).escape);
    assert!(!on_key(EngineKey::Other, true, true, no_keys(), editor).escape);
}

#[test]
fn scene_defaults() {
    assert_eq!(default_msaa(), 4);
    assert!(default_true());
    assert_eq!(default_ssao_samples(), 32);
    assert_eq!(default_collider(), "box");
    assert_eq!(default_category(), "objetos");
    assert_eq!(PropPhysics::default(), PropPhysics::Static);
    let c = SceneConfig::default();
    assert!(c.skybox.is_empty() && c.terrain.is_empty());
    assert!(c.character.is_empty() && c.props_catalog.is_empty());
    assert_eq!(GameStateKind::default(), GameStateKind::Exploring);
}

#[test]
fn body_type_round_trip() {
    for t in [PhysicsBodyType::Dynamic, PhysicsBodyType::Static] {
        assert_eq!(RigidBodyDef::from_body_type(t).body_type(), t);
    }
    let k = RigidBodyDef::from_body_type(PhysicsBodyType::Kinematic);
    assert_eq!(k.body_type, "kinematic");
    assert_eq!(k.body_type(), PhysicsBodyType::Dynamic);
    assert_eq!(RigidBodyDef { body_type: "weird".to_string() }.body_type(), PhysicsBodyType::Dynamic);
}

#[test]
fn gizmo_codes_and_axes() {
    for m in [GizmoMode::Translate, GizmoMode::Rotate, GizmoMode::Scale] {
        assert_eq!(GizmoMode::from_editor_code(m.editor_code()), m);
    }
    assert_eq!(GizmoMode::from_editor_code(9), GizmoMode::Translate);
    assert_eq!(GizmoMode::Rotate.editor_code(), 1);
    assert_eq!((GizmoAxis::X.index(), GizmoAxis::Y.index(), GizmoAxis::Z.index()), (0, 1, 2));
}

#[test]
fn entity_indices_are_clamped() {
    assert_eq!(clamp_entity_indices(7, 9, 3, 2), (2, 2));
    assert_eq!(clamp_entity_indices(1, 1, 3, 2), (1, 1));
    assert_eq!(clamp_entity_indices(4, 0, 0, 0), (0, 0));
}

#[test]
fn shader_names_round_trip() {
    for t in [ShaderTarget::Main, ShaderTarget::Shadow, ShaderTarget::Skybox] {
        assert_eq!(ShaderTarget::from_filename(t.vert_name()), Some(t));
        assert_eq!(ShaderTarget::from_filename(t.frag_name()), Some(t));
    }
    assert_eq!(ShaderTarget::Main.frag_name(), "triangle.frag");
    assert_eq!(ShaderTarget::from_filename("shadow.geom"), None);
}

#[test]
fn script_log_keeps_the_newest_lines() {
    let mut log = ScriptLog::new();
    for i in 0..(MAX_LOG_LINES + 5) {
        log.push_log(format!("line {i}"));
    }
    assert_eq!(log.len(), MAX_LOG_LINES);
    let lines = log.to_vec();
    assert_eq!(lines[0], "line 5");
    assert_eq!(lines[MAX_LOG_LINES - 1], format!("line {}", MAX_LOG_LINES + 4));
}

#[test]
fn script_registry_records_loads() {
    let mut reg = ScriptRegistry::new();
    reg.record_load("a.lua", Ok(()));
    reg.record_load("b.lua", Err("syntax error".to_string()));
    assert_eq!(reg.scripts.len(), 2);
    assert!(reg.scripts[0].enabled && reg.scripts[0].last_error.is_none());
    assert!(!reg.scripts[1].enabled);
    assert_eq!(reg.scripts[1].last_error, Some("syntax error".to_string()));
    reg.record_load("b.lua", Ok(()));
    assert_eq!(reg.scripts.len(), 2);
    assert!(reg.scripts[1].enabled && reg.scripts[1].last_error.is_none());
    reg.record_load("a.lua", Err("boom".to_string()));
    assert_eq!(reg.scripts[0].path, "a.lua");
    assert!(!reg.scripts[0].enabled);
    reg.clear();
    assert!(reg.scripts.is_empty());
}

#[test]
fn script_command_kinds() {
    assert_eq!(command_kind("spawn_cube"), CommandKind::SpawnCube);
    assert_eq!(command_kind("destroy"), CommandKind::Destroy);
    assert_eq!(command_kind("set_position"), CommandKind::SetPosition);
    assert_eq!(command_kind("play_sound"), CommandKind::PlaySound);
    assert_eq!(command_kind("log"), CommandKind::Log);
    assert_eq!(command_kind("fly"), CommandKind::Unknown);
    assert_eq!(command_kind(""), CommandKind::Empty);
}

#[test]
fn saved_scenes_are_listed_by_name() {
    let files: Vec<String> = [
        "b.json", ".hidden.json", "a.json", "notes.txt", ".json", "c.JSON", "ä.json", "Z.json",
        "x.json.bak", "a.b.json", "a.json",
    ]
    .iter()
    .map(|s| s.to_string())
    .collect();
    let names = ralk::listing::saved_scene_names(&files);
    assert_eq!(names, vec!["Z", "a", "a", "a.b", "b", "ä"]);
    let mut expected = names.clone();
    expected.sort();
    assert_eq!(names, expected);
    assert!(ralk::listing::saved_scene_names(&Vec::new()).is_empty());
}
