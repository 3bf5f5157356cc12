use chronos_engine::component::{Position, Velocity};
use chronos_engine::editor_panels::{ConsoleLogLevel, EditorState};
use chronos_engine::project::{ProjectError, ProjectManifest, ProjectTemplate};
use chronos_engine::undo::{Command, CreateEntityCommand, UndoStack};

#[test]
fn requests_delete_duplicate_select_all() {
    let mut state = EditorState::new();
    let mut stack = UndoStack::new();
    let a = state.world.create_entity();
    let b = state.world.create_entity();
    state.world.add_component(a, Position::new(1.0f32.to_bits(), 2.0f32.to_bits()));

    state.select(a);
    state.duplicate_selected_requested = true;
    state.process_world_requests(&mut stack);
    assert!(!state.duplicate_selected_requested);
    assert_eq!(state.selected_entities.len(), 1);
    let copy = state.selected_entities[0];
    assert_ne!(copy, a);
    assert_eq!(state.world.get_component::<Position>(copy), state.world.get_component::<Position>(a));
    assert_eq!(state.console_log.last().unwrap().message, "Duplicated 1 entity/ies");

    state.select_all_requested = true;
    state.process_world_requests(&mut stack);
    assert_eq!(state.selected_entities, vec![a, b, copy]);
    assert_eq!(state.console_log.last().unwrap().message, "Selected all 3 entities");

    state.delete_selected_requested = true;
    state.process_world_requests(&mut stack);
    assert!(state.selected_entities.is_empty());
    assert_eq!(state.world.entity_count(), 0);
    assert_eq!(state.console_log.last().unwrap().message, "Deleted 3 entity/ies");

    let logged = state.console_log.len();
    state.delete_selected_requested = true;
    state.process_world_requests(&mut stack);
    assert_eq!(state.console_log.len(), logged);
}

#[test]
fn requests_undo_and_redo_log_descriptions() {
    let mut state = EditorState::new();
    let mut stack = UndoStack::new();
    let e = state.world.create_entity();
    stack.push(Command::Create(CreateEntityCommand::new(e)));
    state.undo_requested = true;
    state.process_world_requests(&mut stack);
    assert!(!state.world.entity_exists(e));
    assert_eq!(
        state.console_log.last().unwrap().message,
        format!("Undo: Create entity (index {}, gen {})", e.index(), e.generation())
    );
    state.redo_requested = true;
    state.process_world_requests(&mut stack);
    assert_eq!(state.world.entity_count(), 1);
    assert!(state.console_log.last().unwrap().message.starts_with("Redo: Create entity"));
    assert!(!state.undo_requested && !state.redo_requested);
}

#[test]
fn save_as_request_outcomes() {
    let mut state = EditorState::new();
    assert!(state.handle_save_as_request(Some("/tmp/g_copy"), false).is_none());
    assert!(state.console_log.is_empty());
    state.save_as_requested = true;
    assert!(state.handle_save_as_request(Some("/tmp/g_copy"), false).is_none());
    assert_eq!(state.console_log[0].message, "No project loaded to save as");
    state.project_manager.current_project = Some(ProjectManifest::new("g", ProjectTemplate::RPG));
    state.project_manager.project_dir = Some("/tmp/g".to_string());
    state.save_as_requested = true;
    assert!(state.handle_save_as_request(None, false).is_none());
    assert_eq!(state.console_log[1].message, "Could not determine copy destination");
    state.save_as_requested = true;
    assert!(state.handle_save_as_request(Some("/tmp/g_copy"), true).is_none());
    assert_eq!(state.console_log[2].level, ConsoleLogLevel::Error);
    assert_eq!(
        state.console_log[2].message,
        "Save As failed: project already exists: a project already exists at /tmp/g_copy"
    );
    state.save_as_requested = true;
    let copy = state.handle_save_as_request(Some("/tmp/g_copy"), false).expect("copy to write");
    assert_eq!(state.console_log.len(), 3);
    assert_eq!(state.project_manager.project_dir.as_deref(), Some("/tmp/g"));
    state.finish_save_as(copy.duplicate(), "/tmp/g_copy", Err(ProjectError::InvalidManifest("bad".into())));
    assert_eq!(state.console_log[3].level, ConsoleLogLevel::Error);
    assert_eq!(state.console_log[3].message, "Save As failed: invalid project manifest: bad");
    assert_eq!(state.project_manager.project_dir.as_deref(), Some("/tmp/g"));
    assert!(!state.recent_dirty);
    state.finish_save_as(copy, "/tmp/g_copy", Ok(()));
    assert_eq!(state.console_log[4].message, "Saved project copy to /tmp/g_copy");
    assert_eq!(state.project_manager.project_dir.as_deref(), Some("/tmp/g_copy"));
    assert_eq!(state.project_manager.recent_projects[0].path, "/tmp/g_copy");
    assert_eq!(state.project_manager.recent_projects[0].template, ProjectTemplate::RPG);
    assert!(state.recent_dirty);
    assert!(!state.save_as_requested);
}

#[test]
fn window_requests_are_lowered_and_logged() {
    let mut state = EditorState::new();
    assert_eq!(state.handle_fullscreen_request(false), None);
    state.fullscreen_requested = true;
    assert_eq!(state.handle_fullscreen_request(false), Some(true));
    assert_eq!(state.console_log[0].message, "Entered fullscreen");
    state.fullscreen_requested = true;
    assert_eq!(state.handle_fullscreen_request(true), Some(false));
    assert_eq!(state.console_log[1].message, "Exited fullscreen");
    assert!(!state.handle_reset_layout_request());
    state.reset_layout_requested = true;
    assert!(state.handle_reset_layout_request());
    assert_eq!(state.console_log[2].message, "Layout reset to defaults");
    state.launch_engine_requested = true;
    assert_eq!(state.handle_launch_request(), None);
    assert_eq!(state.console_log[3].message, "No project loaded — cannot launch engine");
    state.project_manager.project_dir = Some("/tmp/p".to_string());
    state.launch_engine_requested = true;
    assert_eq!(state.handle_launch_request().as_deref(), Some("/tmp/p"));
    assert_eq!(state.console_log[4].message, "Launching engine in /tmp/p");
    state.report_engine_launch(Ok(42));
    assert_eq!(state.console_log[5].message, "Engine started (PID: 42)");
    state.report_engine_launch(Err("no cargo".to_string()));
    assert_eq!(state.console_log[6].message, "Failed to launch engine: no cargo");
}

#[test]
fn duplicate_copies_position_of_each_live_selected_entity() {
    let mut state = EditorState::new();
    let a = state.world.create_entity();
    let b = state.world.create_entity();
    let c = state.world.create_entity();
    state.world.add_component(a, Position::new(1.0f32.to_bits(), 2.0f32.to_bits()));
    state.world.add_component(a, Velocity::new(3.0f32.to_bits(), 4.0f32.to_bits()));
    state.world.destroy_entity(b);
    state.selected_entities = vec![a, b, c];
    state.duplicate_selected();
    assert_eq!(state.selected_entities.len(), 2);
    let ca = state.selected_entities[0];
    let cc = state.selected_entities[1];
    assert_ne!(ca, a);
    assert_ne!(cc, c);
    assert_eq!(state.world.get_component::<Position>(ca), state.world.get_component::<Position>(a));
    assert!(state.world.get_component::<Velocity>(ca).is_none());
    assert!(state.world.get_component::<Position>(cc).is_none());
    assert_eq!(state.world.entity_count(), 4);
    assert_eq!(state.console_log.last().unwrap().message, "Duplicated 2 entity/ies");
}
