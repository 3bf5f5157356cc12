use std::collections::HashSet;

use chronos_engine::editor_panels::asset_browser::{
    detect_asset_type, format_size, sort_entries, AssetBrowserPanel, AssetEntry, AssetType, AssetViewMode,
};
use chronos_engine::editor_panels::console::{parse_u32, ConsolePanel};
use chronos_engine::editor_panels::hierarchy::{format_entity, HierarchyPanel, HierarchyShortcut};
use chronos_engine::component::{ComponentKind, Gravity, Health, Position};
use chronos_engine::editor_panels::inspector::{
    color_to_hex, make_default_component, InspectorPanel, InspectorTarget, KNOWN_COMPONENTS,
};
use chronos_engine::editor_panels::menu_bar::{MenuBarPanel, MenuCommand};
use chronos_engine::editor_panels::welcome::WelcomeScreen;
use chronos_engine::editor_panels::{ConsoleEntry, ConsoleLogLevel, EditorState, GizmoMode};
use chronos_engine::entity::Entity;
use chronos_engine::project::{ProjectManager, ProjectManifest, ProjectTemplate};

fn entry(name: &str, is_dir: bool, size: u64, t: AssetType) -> AssetEntry {
    AssetEntry { name: name.into(), path: format!("/assets/{name}"), is_dir, size_bytes: size, asset_type: t }
}

// ── Asset browser ──

#[test]
fn asset_browser_new_returns_expected_defaults() {
    let panel = AssetBrowserPanel::new();
    assert!(panel.current_dir.is_none());
    assert!(panel.entries.is_empty());
    assert!(panel.selected_entry.is_none());
    assert!(!panel.show_hidden);
    assert_eq!(panel.view_mode, AssetViewMode::List);
    assert!(panel.search_filter.is_empty());
}

#[test]
fn title_returns_asset_browser() {
    let panel = AssetBrowserPanel::new();
    assert_eq!(panel.title(), "Asset Browser");
}

#[test]
fn detect_asset_type_known_extensions() {
    assert_eq!(detect_asset_type("level.scene"), AssetType::Scene);
    assert_eq!(detect_asset_type("data.json"), AssetType::Scene);
    assert_eq!(detect_asset_type("hero.png"), AssetType::Image);
    assert_eq!(detect_asset_type("bg.jpg"), AssetType::Image);
    assert_eq!(detect_asset_type("icon.bmp"), AssetType::Image);
    assert_eq!(detect_asset_type("character.obj"), AssetType::Mesh);
    assert_eq!(detect_asset_type("model.gltf"), AssetType::Mesh);
    assert_eq!(detect_asset_type("anim.glb"), AssetType::Mesh);
    assert_eq!(detect_asset_type("bgm.wav"), AssetType::Audio);
    assert_eq!(detect_asset_type("sfx.ogg"), AssetType::Audio);
    assert_eq!(detect_asset_type("track.mp3"), AssetType::Audio);
    assert_eq!(detect_asset_type("ai.rhai"), AssetType::Script);
    assert_eq!(detect_asset_type("body.ttf"), AssetType::Font);
    assert_eq!(detect_asset_type("display.otf"), AssetType::Font);
}

#[test]
fn detect_asset_type_unknown_and_case_insensitive() {
    assert_eq!(detect_asset_type("readme"), AssetType::Unknown);
    assert_eq!(detect_asset_type("data.zip"), AssetType::Unknown);
    assert_eq!(detect_asset_type("sprite.PNG"), AssetType::Image);
    assert_eq!(detect_asset_type("hero.OBJ"), AssetType::Mesh);
}

#[test]
fn detect_asset_type_path_rules() {
    assert_eq!(detect_asset_type("/assets/dir.d/photo.Jpeg"), AssetType::Image);
    assert_eq!(detect_asset_type(".png"), AssetType::Unknown);
    assert_eq!(detect_asset_type("archive.tar.ogg"), AssetType::Audio);
}

#[test]
fn entries_sorted_directories_first_then_alphabetical() {
    let entries = vec![
        entry("zebra.txt", false, 10, AssetType::Unknown),
        entry("alpha", true, 0, AssetType::Unknown),
        entry("beta.lua", false, 5, AssetType::Unknown),
        entry("chars", true, 0, AssetType::Unknown),
    ];
    let entries = sort_entries(entries);
    assert!(entries[0].is_dir);
    assert!(entries[1].is_dir);
    assert_eq!(entries[0].name, "alpha");
    assert_eq!(entries[1].name, "chars");
    assert!(!entries[2].is_dir);
    assert_eq!(entries[2].name, "beta.lua");
    assert_eq!(entries[3].name, "zebra.txt");
}

#[test]
fn listing_hides_dot_files_and_ignores_case() {
    let mut panel = AssetBrowserPanel::new();
    panel.selected_entry = Some(1);
    panel.apply_listing(vec![
        entry("b.png", false, 1, AssetType::Image),
        entry(".hidden", false, 1, AssetType::Unknown),
        entry("A.png", false, 1, AssetType::Image),
    ]);
    let names: Vec<&str> = panel.entries.iter().map(|e| e.name.as_str()).collect();
    assert_eq!(names, vec!["A.png", "b.png"]);
    assert!(panel.selected_entry.is_none());
    panel.show_hidden = true;
    panel.apply_listing(vec![entry(".hidden", false, 1, AssetType::Unknown), entry("a", false, 1, AssetType::Unknown)]);
    assert_eq!(panel.entries.len(), 2);
    assert_eq!(panel.entries[0].name, ".hidden");
}

#[test]
fn search_filter_matches_name_case_insensitive() {
    let mut panel = AssetBrowserPanel::new();
    panel.entries = vec![
        entry("hero.png", false, 2048, AssetType::Image),
        entry("hero_scene.json", false, 512, AssetType::Scene),
        entry("enemy.obj", false, 8192, AssetType::Mesh),
    ];

    panel.search_filter = String::new();
    assert_eq!(panel.filtered_entries().len(), 3);

    panel.search_filter = "hero".into();
    let filtered = panel.filtered_entries();
    assert_eq!(filtered.len(), 2);
    assert_eq!(filtered[0].1.name, "hero.png");
    assert_eq!(filtered[1].1.name, "hero_scene.json");

    panel.search_filter = "HERO".into();
    assert_eq!(panel.filtered_entries().len(), 2);

    panel.search_filter = "nonexistent".into();
    assert_eq!(panel.filtered_entries().len(), 0);
}

#[test]
fn view_mode_toggles_between_list_and_grid() {
    let mut panel = AssetBrowserPanel::new();
    assert_eq!(panel.view_mode, AssetViewMode::List);

    panel.view_mode = AssetViewMode::Grid;
    assert_eq!(panel.view_mode, AssetViewMode::Grid);

    panel.toggle_view_mode();
    assert_eq!(panel.view_mode, AssetViewMode::List);
    panel.toggle_view_mode();
    assert_eq!(panel.view_mode, AssetViewMode::Grid);
}

#[test]
fn asset_type_labels_are_distinct() {
    let labels: Vec<&str> = vec![
        AssetType::Scene.label(),
        AssetType::Image.label(),
        AssetType::Mesh.label(),
        AssetType::Audio.label(),
        AssetType::Script.label(),
        AssetType::Font.label(),
        AssetType::Unknown.label(),
    ];
    let unique: HashSet<&str> = labels.iter().copied().collect();
    assert_eq!(unique.len(), labels.len());
    assert_eq!(AssetType::Unknown.label(), "File");
    assert_eq!(AssetType::Audio.color_hex(), "#ed7d31");
}

#[test]
fn format_size_human_readable() {
    assert_eq!(format_size(0), "");
    assert_eq!(format_size(512), "512 B");
    assert_eq!(format_size(1024), "1.0 KB");
    assert_eq!(format_size(1536), "1.5 KB");
    assert_eq!(format_size(1_048_576), "1.0 MB");
    assert_eq!(format_size(2_097_152), "2.0 MB");
}

#[test]
fn format_size_matches_float_formatting() {
    for bytes in [1023u64, 1280, 1075, 10_000, 1_048_575, 1_100_000, 5_505_024, 123_456_789_012, u64::MAX, (1u64 << 53) + 1, (1u64 << 60) + 12345] {
        let expected = if bytes < 1024 {
            format!("{bytes} B")
        } else if bytes < 1_048_576 {
            format!("{:.1} KB", bytes as f64 / 1024f64)
        } else {
            format!("{:.1} MB", bytes as f64 / 1_048_576f64)
        };
        assert_eq!(format_size(bytes), expected, "bytes = {bytes}");
    }
}

// ── Hierarchy ──

#[test]
fn hierarchy_new_defaults() {
    let panel = HierarchyPanel::new();
    assert!(!panel.scroll_to_selected);
    assert!(panel.rename_entity.is_none());
    assert!(panel.rename_buffer.is_empty());
    assert!(panel.show_entities);
    assert!(panel.search_filter.is_empty());
}

#[test]
fn title_returns_hierarchy() {
    let panel = HierarchyPanel::new();
    assert_eq!(panel.title(), "Hierarchy");
}

#[test]
fn search_filter_matches_substring() {
    let mut panel = HierarchyPanel::new();
    let entity = Entity::new(0, 0);
    assert!(panel.matches_filter(entity));
    panel.search_filter = "Entity 0".to_string();
    assert!(panel.matches_filter(entity));
    panel.search_filter = "Entity 99".to_string();
    assert!(!panel.matches_filter(entity));
}

#[test]
fn search_filter_case_insensitive() {
    let mut panel = HierarchyPanel::new();
    let entity = Entity::new(5, 2);
    panel.search_filter = "entity 5".to_string();
    assert!(panel.matches_filter(entity));
    panel.search_filter = "ENTITY 5".to_string();
    assert!(panel.matches_filter(entity));
}

#[test]
fn format_entity_basic() {
    let entity = Entity::new(3, 1);
    assert_eq!(format_entity(entity), "Entity 3:1");
}

#[test]
fn format_entity_zero_generation() {
    let entity = Entity::new(0, 0);
    assert_eq!(format_entity(entity), "Entity 0:0");
}

#[test]
fn hierarchy_shortcuts_and_entity_actions() {
    let mut state = EditorState::new();
    let mut panel = HierarchyPanel::new();
    let a = HierarchyPanel::create_empty_entity(&mut state);
    let b = HierarchyPanel::create_empty_entity(&mut state);
    assert_eq!(state.selected_entities, vec![b]);
    panel.handle_shortcut(&mut state, HierarchyShortcut::SelectAll);
    assert_eq!(state.selected_entities, vec![a, b]);
    assert_eq!(HierarchyPanel::collect_alive_entities(&state), vec![a, b]);
    panel.rename_entity = Some(a);
    panel.handle_shortcut(&mut state, HierarchyShortcut::Escape);
    assert!(state.selected_entities.is_empty());
    assert!(panel.rename_entity.is_none());
    state.select(a);
    panel.handle_shortcut(&mut state, HierarchyShortcut::Delete);
    assert!(!state.world.entity_exists(a));
    assert!(state.world.entity_exists(b));
    assert!(state.selected_entities.is_empty());
}

// ── Inspector ──

#[test]
fn new_defaults_all_expanded() {
    let panel = InspectorPanel::new();
    assert_eq!(panel.expanded_components.len(), KNOWN_COMPONENTS.len());
    for name in KNOWN_COMPONENTS {
        assert!(panel.is_expanded(name), "{name} should be expanded by default");
    }
}

#[test]
fn title_returns_inspector() {
    let panel = InspectorPanel::new();
    assert_eq!(panel.title(), "Inspector");
}

#[test]
fn toggle_expanded_flips_state() {
    let mut panel = InspectorPanel::new();
    assert!(panel.is_expanded("Position"));
    panel.toggle_expanded("Position");
    assert!(!panel.is_expanded("Position"), "should be collapsed after toggle");
    panel.toggle_expanded("Position");
    assert!(panel.is_expanded("Position"), "should be expanded after second toggle");
}

#[test]
fn toggle_expanded_no_duplicates() {
    let mut panel = InspectorPanel::new();
    panel.toggle_expanded("Position");
    panel.toggle_expanded("Position");
    let count = panel.expanded_components.iter().filter(|s| *s == "Position").count();
    assert_eq!(count, 1, "should not duplicate entries");
}

#[test]
fn known_components_covers_all_types() {
    let expected = [
        "Position", "Velocity", "Health", "Transform", "Sprite", "RigidBody", "CircleRadius", "Gravity", "Damage",
        "Dead", "Grounded",
    ];
    for name in &expected {
        assert!(KNOWN_COMPONENTS.contains(name), "missing {name}");
    }
    assert_eq!(KNOWN_COMPONENTS.len(), expected.len());
}

// ── Menu bar ──

#[test]
fn menu_bar_new_defaults() {
    let panel = MenuBarPanel::new();
    assert!(!panel.show_shortcuts_dialog);
}

#[test]
fn title_returns_menu_bar() {
    let panel = MenuBarPanel::new();
    assert_eq!(panel.title(), "Menu Bar");
}

#[test]
fn shortcuts_dialog_toggle() {
    let mut panel = MenuBarPanel::new();
    assert!(!panel.show_shortcuts_dialog);
    panel.show_shortcuts_dialog = true;
    assert!(panel.show_shortcuts_dialog);
    panel.show_shortcuts_dialog = false;
    assert!(!panel.show_shortcuts_dialog);
}

// ── Viewport ──

#[test]
fn gizmo_mode_labels() {
    assert_eq!(GizmoMode::Translate.indicator_label(), "⬚ Translate");
    assert_eq!(GizmoMode::Rotate.indicator_label(), "↻ Rotate");
    assert_eq!(GizmoMode::Scale.indicator_label(), "⤢ Scale");
}

// ── Editor state ──

#[test]
fn editor_state_selection_and_log() {
    let mut state = EditorState::new();
    let e = state.world.create_entity();
    let f = state.world.create_entity();
    state.select(e);
    assert!(state.is_selected(e));
    state.select_add(f);
    state.select_add(f);
    assert_eq!(state.selected_entities, vec![e, f]);
    state.deselect(e);
    assert_eq!(state.selected_entities, vec![f]);
    state.clear_selection();
    assert!(!state.is_selected(f));
    state.log(ConsoleLogLevel::Info, "Open project requested".to_string());
    state.log(ConsoleLogLevel::Warn, "second".to_string());
    assert_eq!(state.console_log.len(), 2);
    assert_eq!(state.console_log[0].message, "Open project requested");
    assert_eq!(state.console_log[0].level, ConsoleLogLevel::Info);
    assert_eq!(state.console_log[1].timestamp_secs, 1);
}

// ── Welcome screen ──

#[test]
fn welcome_new_defaults() {
    let w = WelcomeScreen::new();
    assert_eq!(w.selected_template, ProjectTemplate::Empty);
    assert!(w.project_name.is_empty());
    assert!(!w.show_new_project);
    assert!(!w.show_open_project);
    assert!(w.last_error.is_none());
}

#[test]
fn welcome_title() {
    let w = WelcomeScreen::new();
    assert_eq!(w.title(), "Welcome");
}

#[test]
fn template_labels() {
    assert_eq!(ProjectTemplate::Empty.label(), "Empty Project");
    assert_eq!(ProjectTemplate::Platformer2D.label(), "2D Platformer");
    assert_eq!(ProjectTemplate::Shooter3D.label(), "3D Shooter");
    assert_eq!(ProjectTemplate::RPG.label(), "RPG");
}

#[test]
fn template_icons() {
    assert!(!ProjectTemplate::Empty.icon().is_empty());
    assert!(!ProjectTemplate::Platformer2D.icon().is_empty());
    assert!(!ProjectTemplate::Shooter3D.icon().is_empty());
    assert!(!ProjectTemplate::RPG.icon().is_empty());
}

#[test]
fn template_descriptions_not_empty() {
    for t in ProjectTemplate::all() {
        assert!(!t.description().is_empty());
    }
}

#[test]
fn template_all_count() {
    assert_eq!(ProjectTemplate::all().len(), 4);
}

#[test]
fn default_impl() {
    let w = WelcomeScreen::default();
    assert_eq!(w.selected_template, ProjectTemplate::Empty);
    assert!(w.project_name.is_empty());
    assert!(!w.show_new_project);
}

#[test]
fn toggle_new_project() {
    let mut w = WelcomeScreen::new();
    assert!(!w.show_new_project);
    w.show_new_project = true;
    assert!(w.show_new_project);
    w.show_new_project = false;
    assert!(!w.show_new_project);
}

#[test]
fn template_variants_distinct() {
    let all = ProjectTemplate::all();
    for i in 0..all.len() {
        for j in (i + 1)..all.len() {
            assert_ne!(all[i], all[j], "variants must be distinct");
        }
    }
}

#[test]
fn template_selectable_labels_unique() {
    let all = ProjectTemplate::all();
    let labels: Vec<&str> = all.iter().map(|t| t.label()).collect();
    for i in 0..labels.len() {
        for j in (i + 1)..labels.len() {
            assert_ne!(labels[i], labels[j], "labels must be unique");
        }
    }
}

#[test]
fn project_name_editable() {
    let mut w = WelcomeScreen::new();
    assert!(w.project_name.is_empty());
    w.project_name = "My Game".to_string();
    assert_eq!(w.project_name, "My Game");
    w.project_name.clear();
    assert!(w.project_name.is_empty());
}

#[test]
fn template_selection_changes() {
    let mut w = WelcomeScreen::new();
    assert_eq!(w.selected_template, ProjectTemplate::Empty);
    w.selected_template = ProjectTemplate::RPG;
    assert_eq!(w.selected_template, ProjectTemplate::RPG);
    w.selected_template = ProjectTemplate::Shooter3D;
    assert_eq!(w.selected_template, ProjectTemplate::Shooter3D);
}

#[test]
fn error_display_and_clear() {
    let mut w = WelcomeScreen::new();
    assert!(w.last_error.is_none());
    w.last_error = Some("Something went wrong".to_string());
    assert!(w.last_error.is_some());
    w.clear_error();
    assert!(w.last_error.is_none());
}

#[test]
fn open_project_path_defaults_empty() {
    let w = WelcomeScreen::new();
    assert!(w.open_project_path.is_empty());
}

#[test]
fn welcome_form_decisions() {
    let mut w = WelcomeScreen::new();
    w.toggle_new_project();
    assert!(w.show_new_project);
    w.toggle_open_project();
    assert!(w.show_open_project && !w.show_new_project);
    w.project_name = "   ".to_string();
    assert_eq!(w.requested_project_name(), None);
    assert_eq!(w.last_error.as_deref(), Some("Project name cannot be empty."));
    w.project_name = "  My Game \t".to_string();
    assert_eq!(w.requested_project_name(), Some("My Game".to_string()));
    w.finish_create();
    assert!(w.project_name.is_empty() && w.last_error.is_none() && !w.show_new_project);
    assert_eq!(w.requested_open_path(), None);
    assert_eq!(w.last_error.as_deref(), Some("Project path cannot be empty."));
}

// ── Console ──

fn console_entry(level: ConsoleLogLevel, message: &str, stamp: u64) -> ConsoleEntry {
    ConsoleEntry { level, message: message.to_string(), timestamp_secs: stamp }
}

#[test]
fn console_new_defaults() {
    let panel = ConsolePanel::new();
    assert!(panel.command_input.is_empty());
    assert_eq!(f32::from_bits(panel.scrollback_position), 0.0);
    assert!(panel.auto_scroll);
    assert!(panel.filter_info);
    assert!(panel.filter_warn);
    assert!(panel.filter_error);
    assert!(panel.history_index.is_none());
    assert_eq!(panel.max_entries, 10_000);
}

#[test]
fn title_returns_console() {
    let panel = ConsolePanel::new();
    assert_eq!(panel.title(), "Console");
}

#[test]
fn filter_toggles() {
    let mut panel = ConsolePanel::new();
    let _state = EditorState::new();
    let info_entry = console_entry(ConsoleLogLevel::Info, "hi", 0);
    let warn_entry = console_entry(ConsoleLogLevel::Warn, "careful", 1);
    let err_entry = console_entry(ConsoleLogLevel::Error, "boom", 2);
    assert!(panel.entry_visible(&info_entry));
    assert!(panel.entry_visible(&warn_entry));
    assert!(panel.entry_visible(&err_entry));
    panel.filter_info = false;
    assert!(!panel.entry_visible(&info_entry));
    assert!(panel.entry_visible(&warn_entry));
    panel.filter_warn = false;
    assert!(!panel.entry_visible(&warn_entry));
    panel.filter_error = false;
    assert!(!panel.entry_visible(&err_entry));
    panel.filter_info = true;
    panel.filter_warn = true;
    panel.filter_error = true;
    assert!(panel.entry_visible(&info_entry));
    assert!(panel.entry_visible(&warn_entry));
    assert!(panel.entry_visible(&err_entry));
}

#[test]
fn command_help() {
    let panel = ConsolePanel::new();
    let mut state = EditorState::new();
    panel.process_command("help", &mut state);
    assert!(state.console_log.len() >= 7);
    assert_eq!(state.console_log[0].level, ConsoleLogLevel::Info);
    assert!(state.console_log[0].message.contains("Available commands"));
}

#[test]
fn command_clear() {
    let panel = ConsolePanel::new();
    let mut state = EditorState::new();
    state.log(ConsoleLogLevel::Info, "before clear".to_string());
    assert_eq!(state.console_log.len(), 1);
    panel.process_command("clear", &mut state);
    assert!(state.console_log.is_empty());
}

#[test]
fn command_echo() {
    let panel = ConsolePanel::new();
    let mut state = EditorState::new();
    panel.process_command("echo hello world", &mut state);
    assert_eq!(state.console_log.len(), 1);
    assert_eq!(state.console_log[0].message, "hello world");
    assert_eq!(state.console_log[0].level, ConsoleLogLevel::Info);
    let mut state2 = EditorState::new();
    panel.process_command("echo", &mut state2);
    assert_eq!(state2.console_log[0].level, ConsoleLogLevel::Warn);
}

#[test]
fn command_entities() {
    let panel = ConsolePanel::new();
    let mut state = EditorState::new();
    panel.process_command("entities", &mut state);
    assert!(state.console_log[0].message.contains("0"));
    state.world.create_entity();
    state.world.create_entity();
    state.console_log.clear();
    panel.process_command("entities", &mut state);
    assert!(state.console_log[0].message.contains("2"));
}

#[test]
fn command_unknown() {
    let panel = ConsolePanel::new();
    let mut state = EditorState::new();
    panel.process_command("blarghle", &mut state);
    assert_eq!(state.console_log.len(), 1);
    assert_eq!(state.console_log[0].level, ConsoleLogLevel::Warn);
    assert!(state.console_log[0].message.contains("Unknown command: blarghle"));
    assert!(state.console_log[0].message.contains("Type 'help'"));
}

#[test]
fn command_select() {
    let panel = ConsolePanel::new();
    let mut state = EditorState::new();
    let e = state.world.create_entity();
    panel.process_command("select 0", &mut state);
    assert!(state.is_selected(e));
    let log = &state.console_log;
    assert!(log.iter().any(|l| l.message.contains("Selected entity 0")));
    let mut state2 = EditorState::new();
    panel.process_command("select 99", &mut state2);
    assert!(state2.console_log.iter().any(|l| l.message.contains("No alive entity")));
    let mut state3 = EditorState::new();
    panel.process_command("select abc", &mut state3);
    assert!(state3.console_log.iter().any(|l| l.message.contains("Invalid index")));
}

#[test]
fn history_index_navigation() {
    let mut panel = ConsolePanel::new();
    let mut state = EditorState::new();
    state.console_history.push("cmd_one".into());
    state.console_history.push("cmd_two".into());
    state.console_history.push("cmd_three".into());
    assert!(panel.history_index.is_none());
    panel.history_up(&state.console_history);
    assert_eq!(panel.history_index, Some(2));
    panel.history_up(&state.console_history);
    assert_eq!(panel.history_index, Some(1));
    panel.history_up(&state.console_history);
    assert_eq!(panel.history_index, Some(0));
    panel.history_down(&state.console_history);
    assert_eq!(panel.history_index, Some(1));
    panel.history_down(&state.console_history);
    assert_eq!(panel.history_index, Some(2));
    panel.history_down(&state.console_history);
    assert!(panel.history_index.is_none());
}

#[test]
fn max_entry_trimming() {
    let mut panel = ConsolePanel::new();
    panel.max_entries = 5;
    let mut state = EditorState::new();
    for i in 0..8 {
        state.log(ConsoleLogLevel::Info, format!("entry {i}"));
    }
    panel.trim_log(&mut state);
    assert_eq!(state.console_log.len(), 5);
    assert!(state.console_log[0].message.contains("entry 3"));
    assert!(state.console_log[4].message.contains("entry 7"));
}

#[test]
fn trim_does_nothing_below_limit() {
    let panel = ConsolePanel::new();
    let mut state = EditorState::new();
    state.log(ConsoleLogLevel::Info, "only one".to_string());
    panel.trim_log(&mut state);
    assert_eq!(state.console_log.len(), 1);
}

#[test]
fn format_timestamp_basic() {
    assert_eq!(ConsolePanel::format_timestamp(0), "00:00:00");
    assert_eq!(ConsolePanel::format_timestamp(65), "00:01:05");
    assert_eq!(ConsolePanel::format_timestamp(3661), "01:01:01");
    assert_eq!(ConsolePanel::format_timestamp(86399), "23:59:59");
}

#[test]
fn empty_command_is_noop() {
    let panel = ConsolePanel::new();
    let mut state = EditorState::new();
    panel.process_command("", &mut state);
    panel.process_command("   ", &mut state);
    assert!(state.console_log.is_empty());
}

#[test]
fn console_help_lists_every_command() {
    let panel = ConsolePanel::new();
    let mut state = EditorState::new();
    panel.process_command("  help  ", &mut state);
    assert_eq!(state.console_log.len(), 7);
    assert_eq!(state.console_log[6].message, "  select <id> — Select entity by index");
}

#[test]
fn console_select_accepts_plus_sign_and_rejects_overflow() {
    let panel = ConsolePanel::new();
    let mut state = EditorState::new();
    let e = state.world.create_entity();
    panel.process_command("select +0", &mut state);
    assert!(state.is_selected(e));
    assert_eq!(state.console_log[0].message, "Selected entity 0");
    panel.process_command("select 4294967296", &mut state);
    assert_eq!(state.console_log[1].message, "Invalid index: 4294967296");
    panel.process_command("select", &mut state);
    assert_eq!(state.console_log[2].message, "Usage: select <entity_index>");
    panel.process_command("fps", &mut state);
    assert_eq!(state.console_log[3].message, "FPS: (not available in headless mode)");
    assert_eq!(
        parse_u32(&"4294967295".chars().collect::<Vec<char>>()),
        Some(4294967295)
    );
    assert_eq!(parse_u32(&"-1".chars().collect::<Vec<char>>()), None);
    assert_eq!(parse_u32(&"+".chars().collect::<Vec<char>>()), None);
}

#[test]
fn console_submit_records_history_and_clears_input() {
    let mut panel = ConsolePanel::new();
    let mut state = EditorState::new();
    panel.command_input = "  echo hi ".to_string();
    panel.history_index = Some(0);
    assert!(panel.submit(&mut state));
    assert_eq!(state.console_history, vec!["echo hi".to_string()]);
    assert_eq!(state.console_log[0].message, "hi");
    assert!(panel.command_input.is_empty());
    assert!(panel.history_index.is_none());
    panel.command_input = "   ".to_string();
    assert!(!panel.submit(&mut state));
    assert_eq!(state.console_history.len(), 1);
}

#[test]
fn console_visible_count_and_tags() {
    let mut panel = ConsolePanel::new();
    let log = vec![
        console_entry(ConsoleLogLevel::Info, "a", 0),
        console_entry(ConsoleLogLevel::Warn, "b", 1),
        console_entry(ConsoleLogLevel::Error, "c", 2),
        console_entry(ConsoleLogLevel::Info, "d", 3),
    ];
    assert_eq!(panel.visible_count(&log), 4);
    panel.filter_info = false;
    assert_eq!(panel.visible_count(&log), 2);
    assert_eq!(ConsolePanel::level_tag(ConsoleLogLevel::Error), "[ERROR]");
    assert_eq!(ConsolePanel::level_color(ConsoleLogLevel::Warn), (255, 255, 0));
}

// ── Menu bar: editor state it drives ──

#[test]
fn quit_flag_set() {
    let mut state = EditorState::new();
    assert!(!state.should_quit);
    state.should_quit = true;
    assert!(state.should_quit);
}

#[test]
fn about_dialog_toggle() {
    let mut state = EditorState::new();
    assert!(!state.show_about);
    state.show_about = true;
    assert!(state.show_about);
    state.show_about = false;
    assert!(!state.show_about);
}

#[test]
fn clear_selection_from_edit_menu() {
    let mut state = EditorState::new();
    let entity = state.world.create_entity();
    state.select(entity);
    assert!(state.is_selected(entity));
    state.clear_selection();
    assert!(state.selected_entities.is_empty());
    assert!(!state.is_selected(entity));
}

#[test]
fn recent_projects_from_project_manager() {
    let mut state = EditorState::new();
    state.project_manager.add_recent("platformer", "/tmp/platformer", ProjectTemplate::Platformer2D);
    state.project_manager.add_recent("rpg_demo", "/tmp/rpg_demo", ProjectTemplate::RPG);
    assert_eq!(state.project_manager.recent_projects.len(), 2);
    assert_eq!(state.project_manager.recent_projects[0].name, "rpg_demo");
    assert_eq!(state.project_manager.recent_projects[1].name, "platformer");
}

#[test]
fn log_on_new_project() {
    let mut state = EditorState::new();
    state.log(ConsoleLogLevel::Info, "New project".to_string());
    assert_eq!(state.console_log.len(), 1);
    assert_eq!(state.console_log[0].message, "New project");
    assert_eq!(state.console_log[0].level, ConsoleLogLevel::Info);
}

#[test]
fn log_on_save() {
    let mut state = EditorState::new();
    state.log(ConsoleLogLevel::Info, "Save".to_string());
    assert_eq!(state.console_log.len(), 1);
    assert_eq!(state.console_log[0].message, "Save");
}

#[test]
fn menu_items_raise_their_flags() {
    let mut panel = MenuBarPanel::new();
    let mut state = EditorState::new();
    panel.execute(&mut state, MenuCommand::Quit);
    assert!(state.should_quit);
    assert!(state.console_log.is_empty());
    panel.execute(&mut state, MenuCommand::NewProject);
    assert!(state.project_manager.show_new_wizard);
    assert_eq!(state.console_log[0].message, "New project wizard opened");
    panel.execute(&mut state, MenuCommand::KeyboardShortcuts);
    assert!(panel.show_shortcuts_dialog);
    panel.execute(&mut state, MenuCommand::About);
    assert!(state.show_about);
    panel.execute(&mut state, MenuCommand::Undo);
    panel.execute(&mut state, MenuCommand::ResetLayout);
    assert!(state.undo_requested && state.reset_layout_requested);
    assert!(!state.redo_requested);
    assert_eq!(state.console_log.last().unwrap().message, "Reset layout requested");
}

#[test]
fn menu_deselect_clears_and_logs() {
    let mut panel = MenuBarPanel::new();
    let mut state = EditorState::new();
    let e = state.world.create_entity();
    state.select(e);
    panel.execute(&mut state, MenuCommand::Deselect);
    assert!(state.selected_entities.is_empty());
    assert_eq!(state.console_log[0].message, "Deselected all");
}

#[test]
fn menu_save_reports_outcome() {
    let mut panel = MenuBarPanel::new();
    let mut state = EditorState::new();
    panel.execute(&mut state, MenuCommand::Save);
    assert_eq!(state.console_log[0].level, ConsoleLogLevel::Warn);
    assert_eq!(state.console_log[0].message, "No project loaded to save");
    state.project_manager.current_project = Some(ProjectManifest::new("game", ProjectTemplate::Empty));
    panel.execute(&mut state, MenuCommand::Save);
    assert_eq!(state.console_log[1].level, ConsoleLogLevel::Error);
    assert_eq!(
        state.console_log[1].message,
        "Save failed: project not found: no project is currently loaded"
    );
    state.project_manager.project_dir = Some("/tmp/game".to_string());
    panel.execute(&mut state, MenuCommand::Save);
    assert_eq!(state.console_log[2].level, ConsoleLogLevel::Info);
    assert_eq!(state.console_log[2].message, "Project saved");
}

// ── Welcome screen: what it logs ──

#[test]
fn create_project_logs_message() {
    let mut state = EditorState::new();
    state.log(
        ConsoleLogLevel::Info,
        format!("Create project: '{}' ({:?})", "TestGame", ProjectTemplate::Platformer2D),
    );
    assert_eq!(state.console_log.len(), 1);
    assert!(state.console_log[0].message.contains("TestGame"));
    assert!(state.console_log[0].message.contains("Platformer2D"));
}

#[test]
fn open_project_logs_request() {
    let mut state = EditorState::new();
    state.log(ConsoleLogLevel::Info, "Open project requested".to_string());
    assert_eq!(state.console_log.len(), 1);
    assert_eq!(state.console_log[0].message, "Open project requested");
    assert_eq!(state.console_log[0].level, ConsoleLogLevel::Info);
}

// ── Hierarchy: selection and entity lifecycle ──

#[test]
fn select_sets_single_entity() {
    let mut state = EditorState::new();
    let e = state.world.create_entity();
    state.select(e);
    assert_eq!(state.selected_entities.len(), 1);
    assert!(state.is_selected(e));
}

#[test]
fn select_add_enables_multi_select() {
    let mut state = EditorState::new();
    let a = state.world.create_entity();
    let b = state.world.create_entity();
    state.select(a);
    state.select_add(b);
    assert_eq!(state.selected_entities.len(), 2);
    assert!(state.is_selected(a));
    assert!(state.is_selected(b));
}

#[test]
fn ctrl_click_toggle_selection() {
    let mut state = EditorState::new();
    let a = state.world.create_entity();
    let b = state.world.create_entity();
    state.select(a);
    state.select_add(b);
    assert!(state.is_selected(b));
    state.deselect(b);
    assert!(!state.is_selected(b));
    assert!(state.is_selected(a));
}

#[test]
fn delete_entity_removes_from_selection() {
    let mut state = EditorState::new();
    let a = state.world.create_entity();
    let b = state.world.create_entity();
    state.select(a);
    state.select_add(b);
    assert_eq!(state.selected_entities.len(), 2);
    HierarchyPanel::delete_entity(&mut state, a);
    assert!(!state.is_selected(a));
    assert!(state.is_selected(b));
    assert_eq!(state.world.entity_count(), 1);
}

#[test]
fn delete_all_selected() {
    let mut state = EditorState::new();
    let a = state.world.create_entity();
    let b = state.world.create_entity();
    state.select(a);
    state.select_add(b);
    let to_delete = state.selected_entities.clone();
    for entity in to_delete {
        HierarchyPanel::delete_entity(&mut state, entity);
    }
    assert!(state.selected_entities.is_empty());
    assert_eq!(state.world.entity_count(), 0);
}

#[test]
fn create_empty_entity_auto_selects() {
    let mut state = EditorState::new();
    assert_eq!(state.world.entity_count(), 0);
    HierarchyPanel::create_empty_entity(&mut state);
    assert_eq!(state.world.entity_count(), 1);
    assert_eq!(state.selected_entities.len(), 1);
}

#[test]
fn collect_alive_returns_sorted_entities() {
    let mut state = EditorState::new();
    let c = state.world.create_entity();
    let a = state.world.create_entity();
    let b = state.world.create_entity();
    state.world.destroy_entity(a);
    let alive = HierarchyPanel::collect_alive_entities(&state);
    assert_eq!(alive.len(), 2);
    assert_eq!(alive[0].index(), c.index());
    assert_eq!(alive[1].index(), b.index());
}

#[test]
fn clear_selection_empties_selection() {
    let mut state = EditorState::new();
    let a = state.world.create_entity();
    let b = state.world.create_entity();
    state.select(a);
    state.select_add(b);
    assert_eq!(state.selected_entities.len(), 2);
    state.clear_selection();
    assert!(state.selected_entities.is_empty());
}

#[test]
fn no_selection_state_is_empty() {
    let state = EditorState::new();
    assert!(state.selected_entities.is_empty());
}

#[test]
fn welcome_create_and_open_outcomes() {
    let mut w = WelcomeScreen::new();
    let mut state = EditorState::new();
    state.project_manager.add_recent("old", "/tmp/old", ProjectTemplate::Empty);
    w.project_name = "TestGame".to_string();
    w.show_new_project = true;
    w.selected_template = ProjectTemplate::Platformer2D;
    let made = ProjectManager::create_project("TestGame", "/tmp/TestGame", ProjectTemplate::Platformer2D, false);
    w.complete_create(&mut state, "TestGame", "/tmp/TestGame", made);
    assert_eq!(state.console_log[0].message, "Created project 'TestGame' at TestGame");
    assert!(!w.show_new_project);
    assert!(w.project_name.is_empty());
    assert_eq!(state.project_path.as_deref(), Some("/tmp/TestGame"));
    assert_eq!(state.project_manager.recent_projects.len(), 2);
    assert_eq!(state.project_manager.recent_projects[0].path, "/tmp/TestGame");
    assert_eq!(state.project_manager.recent_projects[1].path, "/tmp/old");
    assert!(state.recent_dirty);

    let refused = ProjectManager::create_project("TestGame", "/tmp/TestGame", ProjectTemplate::Empty, true);
    w.complete_create(&mut state, "TestGame", "/tmp/TestGame", refused);
    assert_eq!(state.console_log[1].level, ConsoleLogLevel::Error);
    assert_eq!(
        state.console_log[1].message,
        "Create project failed: project already exists: a project already exists at /tmp/TestGame"
    );
    assert!(w.last_error.is_some());

    let opened = ProjectManager::open_project(ProjectManifest::new("Other", ProjectTemplate::RPG), "/tmp/other");
    w.open_project_path = "/tmp/other".to_string();
    w.complete_open(&mut state, "/tmp/other", Ok(opened));
    assert_eq!(state.console_log[2].message, "Opened project 'Other'");
    assert!(w.open_project_path.is_empty());
    assert!(w.last_error.is_none());
    assert_eq!(state.project_manager.recent_projects[0].template, ProjectTemplate::RPG);
}

#[test]
fn menu_recent_project_outcomes() {
    let mut panel = MenuBarPanel::new();
    let mut state = EditorState::new();
    let opened = ProjectManager::open_project(ProjectManifest::new("rpg_demo", ProjectTemplate::RPG), "/tmp/rpg_demo");
    panel.complete_recent_open(&mut state, "rpg_demo", "/tmp/rpg_demo", ProjectTemplate::RPG, Ok(opened));
    assert_eq!(state.console_log[0].message, "Opened recent project: rpg_demo");
    assert_eq!(state.project_path.as_deref(), Some("/tmp/rpg_demo"));
    let failed = ProjectManager::create_project("x", "/tmp/x", ProjectTemplate::Empty, true);
    panel.complete_recent_open(&mut state, "x", "/tmp/x", ProjectTemplate::Empty, failed);
    assert_eq!(
        state.console_log[1].message,
        "Failed to open recent project 'x': project already exists: a project already exists at /tmp/x"
    );
    assert_eq!(state.project_path.as_deref(), Some("/tmp/rpg_demo"));
}

// ── Inspector: what it shows and adds ──

#[test]
fn color_to_hex_format() {
    assert_eq!(color_to_hex(255, 128, 0), "#FF8000");
}

#[test]
fn color_to_hex_black() {
    assert_eq!(color_to_hex(0, 0, 0), "#000000");
}

#[test]
fn color_to_hex_white() {
    assert_eq!(color_to_hex(255, 255, 255), "#FFFFFF");
}

#[test]
fn show_with_no_selection_no_panic() {
    let _panel = InspectorPanel::new();
    let mut state = EditorState::new();
    assert_eq!(InspectorPanel::target(&mut state), InspectorTarget::Nothing);
}

#[test]
fn show_with_single_entity_no_panic() {
    let _panel = InspectorPanel::new();
    let mut state = EditorState::new();
    let entity = state.world.create_entity();
    state.world.add_component(entity, Position::new(10.0f32.to_bits(), 20.0f32.to_bits()));
    state.world.add_component(entity, Health::new(100));
    state.select(entity);
    assert_eq!(InspectorPanel::target(&mut state), InspectorTarget::Single(entity));
    state.world.destroy_entity(entity);
    assert_eq!(InspectorPanel::target(&mut state), InspectorTarget::Gone);
    assert!(state.selected_entities.is_empty());
}

#[test]
fn show_with_multi_selection_no_panic() {
    let _panel = InspectorPanel::new();
    let mut state = EditorState::new();
    let e1 = state.world.create_entity();
    let e2 = state.world.create_entity();
    state.select_add(e1);
    state.select_add(e2);
    assert_eq!(InspectorPanel::target(&mut state), InspectorTarget::Many(2));
}

#[test]
fn add_menu_creates_defaults_once() {
    let mut state = EditorState::new();
    let e = state.world.create_entity();
    assert!(InspectorPanel::add_default_component(&mut state, e, ComponentKind::Gravity));
    assert_eq!(state.world.get_component::<Gravity>(e), Some(Gravity::down(9.81f32.to_bits())));
    assert!(!InspectorPanel::add_default_component(&mut state, e, ComponentKind::Gravity));
    assert!(InspectorPanel::add_default_component(&mut state, e, ComponentKind::Health));
    assert_eq!(state.world.get_component::<Health>(e), Some(Health::new(100)));
    assert_eq!(make_default_component(ComponentKind::Sprite).kind(), ComponentKind::Sprite);
}

#[test]
fn welcome_recent_click_uses_entry_name() {
    let mut w = WelcomeScreen::new();
    let mut state = EditorState::new();
    let opened = ProjectManager::open_project(ProjectManifest::new("InFile", ProjectTemplate::Shooter3D), "/tmp/p");
    w.complete_recent_open(&mut state, "Listed", "/tmp/p", ProjectTemplate::Empty, Ok(opened));
    assert_eq!(state.console_log[0].message, "Opened recent project: Listed");
    assert_eq!(state.project_manager.recent_projects[0].name, "Listed");
    assert_eq!(state.project_manager.recent_projects[0].template, ProjectTemplate::Shooter3D);
    assert_eq!(state.project_manager.project_name(), "InFile");
}

#[test]
fn hierarchy_clicks_and_duplicate() {
    let mut state = EditorState::new();
    let a = state.world.create_entity();
    let b = state.world.create_entity();
    HierarchyPanel::click_entity(&mut state, a, false);
    HierarchyPanel::click_entity(&mut state, b, true);
    assert_eq!(state.selected_entities, vec![a, b]);
    HierarchyPanel::click_entity(&mut state, a, true);
    assert_eq!(state.selected_entities, vec![b]);
    let d = HierarchyPanel::duplicate_entity(&mut state, b);
    assert_eq!(state.selected_entities, vec![d]);
    assert_eq!(state.world.entity_count(), 3);
}
