use std::io;

use chronos_engine::project::{
    ProjectConfig, ProjectError, ProjectManager, ProjectManifest, ProjectTemplate, RecentProject,
};

#[test]
fn project_manifest_new() {
    let m = ProjectManifest::new("TestGame", ProjectTemplate::Empty);
    assert_eq!(m.name, "TestGame");
    assert_eq!(m.version, "1.0.0");
    assert_eq!(m.engine_version, "0.3.0");
    assert!(m.description.is_empty());
    assert_eq!(m.created_at, 0);
    assert_eq!(m.modified_at, 0);
    assert_eq!(m.scenes, vec!["main.scene"]);
    assert_eq!(m.template, ProjectTemplate::Empty);
}

#[test]
fn project_config_defaults() {
    let c = ProjectConfig::new();
    assert_eq!(c.window_width, 1280);
    assert_eq!(c.window_height, 720);
    assert!(c.vsync);
    assert_eq!(c.target_fps, 60);
    assert!(c.last_opened_scene.is_none());
    assert!(c.editor_layout.is_empty());
}

#[test]
fn project_template_labels() {
    assert_eq!(ProjectTemplate::Empty.label(), "Empty Project");
    assert_eq!(ProjectTemplate::Platformer2D.label(), "2D Platformer");
    assert_eq!(ProjectTemplate::Shooter3D.label(), "3D Shooter");
    assert_eq!(ProjectTemplate::RPG.label(), "RPG");
}

#[test]
fn project_template_descriptions() {
    for t in ProjectTemplate::all() {
        assert!(!t.description().is_empty(), "description empty for {:?}", t);
    }
}

#[test]
fn project_template_default_scenes() {
    assert_eq!(ProjectTemplate::Empty.default_scenes(), vec!["main.scene"]);
    assert_eq!(ProjectTemplate::Platformer2D.default_scenes(), vec!["main.scene", "level_1.scene"]);
    assert_eq!(ProjectTemplate::Shooter3D.default_scenes(), vec!["main.scene", "arena.scene"]);
    assert_eq!(
        ProjectTemplate::RPG.default_scenes(),
        vec!["main.scene", "overworld.scene", "town.scene"]
    );
}

#[test]
fn project_template_all_variants() {
    let all = ProjectTemplate::all();
    assert_eq!(all.len(), 4);
    assert_eq!(all[0], ProjectTemplate::Empty);
    assert_eq!(all[1], ProjectTemplate::Platformer2D);
    assert_eq!(all[2], ProjectTemplate::Shooter3D);
    assert_eq!(all[3], ProjectTemplate::RPG);
}

#[test]
fn project_error_display() {
    let io_err = ProjectError::IoError(io::Error::new(io::ErrorKind::NotFound, "gone"));
    assert!(io_err.to_string().contains("project I/O error"));
    let ser_err = ProjectError::SerializationError("bad json".into());
    assert!(ser_err.to_string().contains("bad json"));
    let inv_err = ProjectError::InvalidManifest("missing field".into());
    assert!(inv_err.to_string().contains("missing field"));
    let nf_err = ProjectError::ProjectNotFound("nope".into());
    assert!(nf_err.to_string().contains("nope"));
    let ae_err = ProjectError::AlreadyExists("dup".into());
    assert!(ae_err.to_string().contains("dup"));
}

#[test]
fn project_error_from_io() {
    let io_err = io::Error::new(io::ErrorKind::PermissionDenied, "denied");
    let project_err: ProjectError = io_err.into();
    match project_err {
        ProjectError::IoError(e) => {
            assert_eq!(e.kind(), io::ErrorKind::PermissionDenied);
        }
        _ => panic!("expected IoError variant"),
    }
}

#[test]
fn recent_project_new() {
    let rp = RecentProject::new("MyGame", "/tmp/mygame", ProjectTemplate::RPG);
    assert_eq!(rp.name, "MyGame");
    assert_eq!(rp.path, "/tmp/mygame");
    assert_eq!(rp.last_opened, 0);
    assert_eq!(rp.template, ProjectTemplate::RPG);
}

#[test]
fn project_manager_new() {
    let mgr = ProjectManager::new();
    assert!(mgr.current_project.is_none());
    assert!(mgr.project_dir.is_none());
    assert!(mgr.recent_projects.is_empty());
    assert_eq!(mgr.max_recent, 10);
    assert!(mgr.show_welcome);
    assert!(!mgr.show_new_wizard);
    assert!(!mgr.show_open_dialog);
    assert!(!mgr.is_loaded());
    assert_eq!(mgr.project_name(), "No Project");
}

#[test]
fn project_manager_recent_projects() {
    let mut mgr = ProjectManager::new();
    mgr.add_recent("A", "/tmp/a", ProjectTemplate::Empty);
    mgr.add_recent("B", "/tmp/b", ProjectTemplate::Platformer2D);
    assert_eq!(mgr.recent_projects.len(), 2);
    assert_eq!(mgr.recent_projects[0].name, "B");

    mgr.add_recent("A", "/tmp/a", ProjectTemplate::Empty);
    assert_eq!(mgr.recent_projects.len(), 2);
    assert_eq!(mgr.recent_projects[0].name, "A");

    mgr.remove_recent("/tmp/b");
    assert_eq!(mgr.recent_projects.len(), 1);
    assert_eq!(mgr.recent_projects[0].name, "A");

    mgr.max_recent = 2;
    mgr.add_recent("C", "/tmp/c", ProjectTemplate::RPG);
    mgr.add_recent("D", "/tmp/d", ProjectTemplate::Shooter3D);
    assert_eq!(mgr.recent_projects.len(), 2);
    assert_eq!(mgr.recent_projects[0].name, "D");
    assert_eq!(mgr.recent_projects[1].name, "C");
}

#[test]
fn project_manifest_touch() {
    let mut m = ProjectManifest::new("Touched", ProjectTemplate::Empty);
    assert_eq!(m.modified_at, 0);
    m.touch();
    assert!(m.modified_at > 0);
}

#[test]
fn project_manager_save_current_no_project() {
    let mut mgr = ProjectManager::new();
    let result = mgr.save_current();
    assert!(result.is_err());
    match result.unwrap_err() {
        ProjectError::ProjectNotFound(_) => {}
        other => panic!("expected ProjectNotFound, got {:?}", other),
    }
}

#[test]
fn project_template_icons() {
    for t in ProjectTemplate::all() {
        assert!(!t.icon().is_empty(), "icon empty for {:?}", t);
    }
}

#[test]
fn project_config_default_trait() {
    let c = ProjectConfig::default();
    assert_eq!(c.window_width, 1280);
    assert_eq!(c.window_height, 720);
}

// ── Scenarios and laws on concrete values ──

#[test]
fn create_project_rejects_existing_manifest() {
    match ProjectManager::create_project("Second", "/tmp/x", ProjectTemplate::RPG, true) {
        Err(ProjectError::AlreadyExists(m)) => assert_eq!(m, "a project already exists at /tmp/x"),
        other => panic!("expected AlreadyExists, got {:?}", other),
    }
}

#[test]
fn create_project_loads_and_registers() {
    let mgr = ProjectManager::create_project("CoolGame", "/tmp/cool", ProjectTemplate::Shooter3D, false).unwrap();
    assert!(mgr.is_loaded());
    assert_eq!(mgr.project_name(), "CoolGame");
    assert!(!mgr.show_welcome);
    let m = mgr.current_project.as_ref().unwrap();
    assert_eq!(m.scenes, vec!["main.scene", "arena.scene"]);
    assert!(m.created_at > 0);
    assert_eq!(m.created_at, m.modified_at);
    assert_eq!(mgr.recent_projects.len(), 1);
    assert_eq!(mgr.recent_projects[0].path, "/tmp/cool");
}

#[test]
fn close_and_save_as() {
    let mut mgr = ProjectManager::create_project("Original", "/tmp/a", ProjectTemplate::Empty, false).unwrap();
    assert!(matches!(mgr.save_as_copy("Copy", "/tmp/b", true), Err(ProjectError::AlreadyExists(_))));
    assert_eq!(mgr.project_name(), "Original");
    let copy = mgr.save_as_copy("Copy", "/tmp/b", false).unwrap();
    assert_eq!(copy.name, "Copy");
    assert_eq!(mgr.project_name(), "Original");
    let failed = mgr.save_as(copy.duplicate(), "/tmp/b", Err(ProjectError::InvalidManifest("disk full".into())));
    assert!(matches!(failed, Err(ProjectError::InvalidManifest(_))));
    assert_eq!(mgr.project_name(), "Original");
    assert_eq!(mgr.project_dir.as_deref(), Some("/tmp/a"));
    mgr.save_as(copy, "/tmp/b", Ok(())).unwrap();
    assert_eq!(mgr.project_name(), "Copy");
    assert_eq!(mgr.project_dir.as_deref(), Some("/tmp/b"));
    assert!(mgr.save_current().is_ok());
    mgr.close_project();
    assert!(!mgr.is_loaded());
    assert!(mgr.project_dir.is_none());
    assert!(mgr.show_welcome);
    assert_eq!(mgr.project_name(), "No Project");
    assert!(matches!(mgr.save_as_copy("X", "/tmp/c", false), Err(ProjectError::ProjectNotFound(_))));
}

#[test]
fn open_project_registers_recent() {
    let manifest = ProjectManifest::new("OpenMe", ProjectTemplate::RPG);
    let mgr = ProjectManager::open_project(manifest, "/tmp/open");
    assert!(mgr.is_loaded());
    assert_eq!(mgr.project_name(), "OpenMe");
    assert_eq!(mgr.recent_projects.len(), 1);
    assert_eq!(mgr.recent_projects[0].template, ProjectTemplate::RPG);
}

#[test]
fn recent_list_has_no_duplicate_paths() {
    let mut mgr = ProjectManager::new();
    for (n, p) in [("a", "/a"), ("b", "/b"), ("a2", "/a"), ("c", "/c"), ("b2", "/b")] {
        mgr.add_recent(n, p, ProjectTemplate::Empty);
    }
    let paths: Vec<&str> = mgr.recent_projects.iter().map(|r| r.path.as_str()).collect();
    assert_eq!(paths, vec!["/b", "/c", "/a"]);
    assert_eq!(mgr.recent_projects[0].name, "b2");
    mgr.max_recent = 0;
    mgr.add_recent("z", "/z", ProjectTemplate::Empty);
    assert!(mgr.recent_projects.is_empty());
}

#[test]
fn add_recent_at_stamps_time() {
    let mut mgr = ProjectManager::new();
    mgr.add_recent_at("T", "/t", ProjectTemplate::Empty, 1234);
    assert_eq!(mgr.recent_projects[0].last_opened, 1234);
}

#[test]
fn save_current_without_dir_changes_nothing() {
    let mut mgr = ProjectManager::new();
    let mut manifest = ProjectManifest::new("Loose", ProjectTemplate::Empty);
    manifest.modified_at = 7;
    mgr.current_project = Some(manifest);
    assert!(matches!(mgr.save_current(), Err(ProjectError::ProjectNotFound(_))));
    assert_eq!(mgr.current_project.as_ref().unwrap().modified_at, 7);
}
