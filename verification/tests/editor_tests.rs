use chronos_engine::component::{
    CircleRadius, Damage, Dead, Gravity, Grounded, Health, Position, RigidBody, Sprite, Transform, Velocity,
};
use chronos_engine::editor::{
    build_component_summary, DevConsole, DevOverlay, EntityInspector, LogLevel, SceneTree, Stats, StatsPanel,
};
use chronos_engine::world::World;

fn b(x: f32) -> u32 {
    x.to_bits()
}

#[test]
fn console_log_submit_and_clear() {
    let mut con = DevConsole::new();
    con.log("hello");
    con.log("world");
    assert_eq!(con.get_log().len(), 2);
    con.submit("help");
    assert_eq!(con.get_log().len(), 4);
    con.submit("clear");
    assert!(con.get_log().is_empty());
}

#[test]
fn console_unknown_command() {
    let mut con = DevConsole::new();
    con.submit("foobar");
    let log = con.get_log();
    assert_eq!(log[log.len() - 1].level, LogLevel::Warn);
    assert!(log[log.len() - 1].message.contains("Unknown command: foobar"));
}

#[test]
fn console_drops_oldest_at_capacity() {
    let mut con = DevConsole::new();
    con.max_entries = 5;
    for i in 0..10 {
        con.log(&format!("msg {}", i));
    }
    assert_eq!(con.get_log().len(), 5);
    assert_eq!(con.get_log()[0].message, "msg 5");
}

#[test]
fn console_replies_echo_and_report_stats() {
    let mut con = DevConsole::new();
    con.update_stats(Stats { fps: b(59.96), entity_count: 3, draw_calls: 7, frame_time_ms: b(16.678) });
    con.submit("  entities ");
    assert_eq!(con.get_log()[0].message, "> entities");
    assert_eq!(con.get_log()[1].message, "Entity count: 3");
    con.submit("fps");
    assert_eq!(con.get_log()[3].message, "FPS: 60.0 | frame time: 16.68ms");
    con.submit("   ");
    assert_eq!(con.get_log().len(), 4);
    con.max_entries = 1;
    con.submit("help");
    assert_eq!(con.get_log().len(), 4);
    assert_eq!(con.get_log()[3].message, "Available commands: help, clear, entities, fps");
    assert_eq!(con.get_log()[0].message, "> fps");
    assert_eq!(con.get_log()[2].message, "> help");
}

#[test]
fn log_level_filter_returns_only_matching() {
    let mut con = DevConsole::new();
    con.log_with_level(LogLevel::Info, "info msg");
    con.log_with_level(LogLevel::Warn, "warn msg");
    con.log_with_level(LogLevel::Error, "error msg");
    con.log_with_level(LogLevel::Debug, "debug msg");
    let warns = con.get_log_filtered(LogLevel::Warn);
    assert_eq!(warns.len(), 1);
    assert_eq!(warns[0].message, "warn msg");
    let infos = con.get_log_filtered(LogLevel::Info);
    assert_eq!(infos.len(), 1);
}

#[test]
fn overlay_toggle_and_render_visibility() {
    let mut overlay = DevOverlay::new();
    assert!(!overlay.is_visible());
    assert!(overlay.render(Stats::zero()).is_none());
    overlay.toggle();
    assert!(overlay.is_visible());
    assert!(overlay.render(Stats::zero()).is_some());
    overlay.toggle();
    assert!(!overlay.is_visible());
}

#[test]
fn overlay_frame_tracks_selection_and_stats() {
    let mut world = World::new();
    let e = world.create_entity();
    world.add_component(e, Health::new(10));
    let mut overlay = DevOverlay::new();
    overlay.selected_entity = Some(e);
    overlay.record_frame(&world, b(16.0));
    assert_eq!(overlay.stats_panel.entity_count(), 1);
    assert_eq!(overlay.stats_panel.recent_frame_times(), &[b(16.0)]);
    overlay.finish_frame(&world, Stats::zero());
    assert_eq!(overlay.entity_inspector.get_report().unwrap().components.len(), 1);
    world.destroy_entity(e);
    overlay.finish_frame(&world, Stats::zero());
    assert_eq!(overlay.selected_entity, None);
}

#[test]
fn stats_panel_ring_buffer_wraps() {
    let mut panel = StatsPanel::new();
    for i in 0..61u32 {
        panel.update_fps(i);
    }
    let recent = panel.recent_frame_times();
    assert_eq!(recent.len(), 60);
    assert_eq!(recent[0], 60);
    assert_eq!(recent[1], 1);
    panel.set_draw_calls(4);
    assert_eq!(panel.draw_calls(), 4);
}

#[test]
fn scene_tree_rebuild_and_select() {
    let mut world = World::new();
    let e1 = world.create_entity();
    world.add_component(e1, Position::new(b(1.0), b(2.0)));
    world.add_component(e1, Velocity::new(b(0.5), b(-0.5)));
    let e2 = world.create_entity();
    world.add_component(e2, Health::new(100));
    let mut tree = SceneTree::new();
    tree.rebuild(&world);
    assert_eq!(tree.entries().len(), 2);
    assert!(tree.entries()[0].component_summary.contains("Position"));
    assert!(tree.entries()[0].component_summary.contains("Velocity"));
    assert!(tree.entries()[1].component_summary.contains("Health"));
    tree.select(1);
    assert_eq!(tree.get_selected(), Some(e2));
    tree.select(99);
    assert_eq!(tree.get_selected(), Some(e2));
}

#[test]
fn inspector_reads_all_component_fields() {
    let mut world = World::new();
    let entity = world.create_entity();
    world.add_component(entity, Position::new(b(10.0), b(20.0)));
    world.add_component(entity, Health::new(75));
    world.add_component(entity, Damage(5));
    world.add_component(entity, Dead);
    world.add_component(entity, Gravity::new(b(0.0), b(9.8)));
    let mut inspector = EntityInspector::new();
    inspector.inspect(&world, entity);
    let report = inspector.get_report().expect("report should exist");
    assert_eq!(report.entity, entity);
    assert_eq!(report.components.len(), 5);
    let names: Vec<&str> = report.components.iter().map(|c| c.name.as_str()).collect();
    assert!(names.contains(&"Position"));
    assert!(names.contains(&"Health"));
    assert!(names.contains(&"Damage"));
    assert!(names.contains(&"Dead"));
    assert!(names.contains(&"Gravity"));
    let pos = report.components.iter().find(|c| c.name == "Position").unwrap();
    assert_eq!(pos.fields[0].0, "x");
    assert_eq!(pos.fields[0].1, "10.00");
}

#[test]
fn component_summary_includes_all_types() {
    let mut world = World::new();
    let entity = world.create_entity();
    world.add_component(entity, Position::new(b(0.0), b(0.0)));
    world.add_component(entity, Velocity::new(b(1.0), b(1.0)));
    world.add_component(entity, Health::new(50));
    world.add_component(entity, Damage(10));
    world.add_component(entity, Dead);
    world.add_component(entity, Transform::new(b(0.0), b(0.0), b(0.0)));
    world.add_component(entity, Sprite::new('@', 255, 255, 255));
    world.add_component(entity, CircleRadius::new(b(1.0)));
    world.add_component(entity, RigidBody::dynamic(b(1.0)));
    world.add_component(entity, Grounded);
    world.add_component(entity, Gravity::down(b(9.8)));
    let summary = build_component_summary(&world, entity);
    for name in [
        "Position", "Velocity", "Health", "Damage", "Dead", "Transform", "Sprite", "CircleRadius", "RigidBody",
        "Grounded", "Gravity",
    ] {
        assert!(summary.contains(name), "missing {name}");
    }
}

#[test]
fn scene_tree_selection_is_last_accepted_since_rebuild() {
    let mut world = World::new();
    let a = world.create_entity();
    let b = world.create_entity();
    let mut tree = SceneTree::new();
    tree.rebuild(&world);
    tree.select(1);
    tree.select(9);
    assert_eq!(tree.get_selected(), Some(b));
    tree.select(0);
    assert_eq!(tree.get_selected(), Some(a));
    tree.rebuild(&world);
    assert_eq!(tree.get_selected(), None);
    tree.select(5);
    assert_eq!(tree.get_selected(), None);
}
