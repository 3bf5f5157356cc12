use chronos_engine::editor_workspace::docking::{DockError, DockZone, DragState, SplitDirection};
use chronos_engine::editor_workspace::shortcuts::{Key, KeyBinding, ShortcutAction, ShortcutMap};

#[test]
fn test_dock_error_display() {
    let err = DockError::PanelNotFound("test".into());
    assert!(err.to_string().contains("test"));

    let err = DockError::InvalidLayout("broken".into());
    assert!(err.to_string().contains("broken"));

    let err = DockError::SerializationError("bad json".into());
    assert!(err.to_string().contains("bad json"));
}

#[test]
fn test_split_direction_invert() {
    assert_eq!(SplitDirection::Horizontal.invert(), SplitDirection::Vertical);
    assert_eq!(SplitDirection::Vertical.invert(), SplitDirection::Horizontal);
}

#[test]
fn test_split_direction_display() {
    assert_eq!(SplitDirection::Horizontal.to_string(), "horizontal");
    assert_eq!(SplitDirection::Vertical.to_string(), "vertical");
}

#[test]
fn test_dock_zone_split_direction() {
    assert_eq!(DockZone::Left.split_direction(), Some(SplitDirection::Horizontal));
    assert_eq!(DockZone::Right.split_direction(), Some(SplitDirection::Horizontal));
    assert_eq!(DockZone::Top.split_direction(), Some(SplitDirection::Vertical));
    assert_eq!(DockZone::Bottom.split_direction(), Some(SplitDirection::Vertical));
    assert_eq!(DockZone::Center.split_direction(), None);
}

#[test]
fn test_dock_zone_is_first_child() {
    assert!(DockZone::Left.is_first_child());
    assert!(DockZone::Top.is_first_child());
    assert!(!DockZone::Right.is_first_child());
    assert!(!DockZone::Bottom.is_first_child());
    assert!(!DockZone::Center.is_first_child());
}

#[test]
fn drag_state_preview() {
    let mut d = DragState::new("viewport".into(), vec![0, 1]);
    assert!(!d.has_preview());
    d.set_preview_zone(Some(DockZone::Left));
    assert!(d.has_preview());
    assert_eq!(d.panel_id, "viewport");
    assert_eq!(d.source_path, vec![0, 1]);
    d.set_preview_zone(None);
    assert!(!d.has_preview());
}

#[test]
fn label_for_action_format() {
    assert_eq!(ShortcutAction::label_for_action(&ShortcutAction::NewProject), "New Project");
    assert_eq!(ShortcutAction::label_for_action(&ShortcutAction::ToggleGrid), "Toggle Grid");
    assert_eq!(ShortcutAction::label_for_action(&ShortcutAction::PlayStop), "Play / Stop");
}

#[test]
fn shortcut_defaults_and_rebinding() {
    let mut map = ShortcutMap::new();
    assert_eq!(map.get(&ShortcutAction::Save), Some(&KeyBinding::ctrl(Key::S)));
    assert_eq!(map.get(&ShortcutAction::SaveAs), Some(&KeyBinding::ctrl_shift(Key::S)));
    assert_eq!(map.find_action(Key::S, true, false, false), Some(ShortcutAction::Save));
    assert_eq!(map.find_action(Key::K, true, false, false), None);
    assert_eq!(map.find_action(Key::X, true, false, true), None);
    map.bind(ShortcutAction::Save, KeyBinding::alt(Key::K));
    assert_eq!(map.find_action(Key::K, false, false, true), Some(ShortcutAction::Save));
    assert_eq!(map.find_action(Key::S, true, false, false), None);
    map.unbind(ShortcutAction::Save);
    assert_eq!(map.get(&ShortcutAction::Save), None);
    assert_eq!(map.all_bindings().len(), 21);
}

#[test]
fn binding_labels() {
    assert_eq!(KeyBinding::label_for_binding(&KeyBinding::ctrl(Key::S)), "Ctrl+S");
    assert_eq!(KeyBinding::label_for_binding(&KeyBinding::ctrl_shift(Key::S)), "Ctrl+Shift+S");
    assert_eq!(KeyBinding::label_for_binding(&KeyBinding::alt(Key::G)), "Alt+G");
    assert_eq!(KeyBinding::label_for_binding(&KeyBinding::key(Key::Escape)), "Esc");
    assert_eq!(KeyBinding::label_for_binding(&KeyBinding::key(Key::K)), "???");
}

use chronos_engine::editor_workspace::docking::{DockLayout, DockNode, DockState};

#[test]
fn test_dock_node_leaf_creation() {
    let node = DockNode::leaf("viewport".to_string());
    match &node {
        DockNode::Leaf { panel_id, size_ratio } => {
            assert_eq!(panel_id, "viewport");
            assert_eq!(f32::from_bits(*size_ratio), 1.0);
        }
        _ => panic!("expected Leaf node"),
    }
}

#[test]
fn test_dock_node_split_creation() {
    let node = DockNode::h_split(0.3f32.to_bits(), DockNode::leaf("a".into()), DockNode::leaf("b".into()));
    match &node {
        DockNode::Split { direction, ratio, children } => {
            assert_eq!(*direction, SplitDirection::Horizontal);
            assert!((f32::from_bits(*ratio) - 0.3).abs() < 0.01);
            assert!(matches!(&children.0, DockNode::Leaf { panel_id, .. } if panel_id == "a"));
            assert!(matches!(&children.1, DockNode::Leaf { panel_id, .. } if panel_id == "b"));
        }
        _ => panic!("expected Split node"),
    }
}

#[test]
fn split_ratio_is_clamped_like_f32_clamp() {
    for r in [1.5f32, -0.5, 0.0, -0.0, 0.005, 0.995, 0.5, f32::NAN, f32::INFINITY, f32::NEG_INFINITY] {
        let node = DockNode::v_split(r.to_bits(), DockNode::Empty, DockNode::Empty);
        match node {
            DockNode::Split { ratio, .. } => assert_eq!(ratio, r.clamp(0.01, 0.99).to_bits(), "r = {r}"),
            _ => panic!("expected Split"),
        }
    }
}

#[test]
fn test_default_layout_has_five_panels() {
    let layout = DockLayout::default_layout();
    let ids = layout.all_panel_ids();
    assert_eq!(ids, vec!["hierarchy", "viewport", "inspector", "console", "asset_browser"]);
    assert_eq!(layout.root.panel_count(), 5);
}

#[test]
fn test_default_layout_root_is_vertical_split() {
    let layout = DockLayout::default_layout();
    match &layout.root {
        DockNode::Split { direction, ratio, .. } => {
            assert_eq!(*direction, SplitDirection::Vertical);
            assert_eq!(f32::from_bits(*ratio), 0.75);
        }
        _ => panic!("root should be a vertical split"),
    }
}

#[test]
fn test_find_panel_paths() {
    let layout = DockLayout::default_layout();
    assert_eq!(layout.find_panel("viewport"), Some(vec![0, 1, 0]));
    assert_eq!(layout.find_panel("console"), Some(vec![1, 0]));
    assert_eq!(layout.find_panel("asset_browser"), Some(vec![1, 1]));
    assert!(layout.find_panel("nonexistent").is_none());
}

#[test]
fn test_remove_panels() {
    let mut layout = DockLayout::new();
    assert!(layout.remove_panel("inspector"));
    assert!(!layout.has_panel("inspector"));
    assert!(layout.has_panel("viewport"));
    assert_eq!(layout.find_panel("viewport"), Some(vec![0, 1]));
    assert!(layout.remove_panel("console"));
    assert!(!layout.has_panel("console"));
    assert!(layout.has_panel("asset_browser"));
    assert!(!layout.remove_panel("nonexistent"));
    assert_eq!(layout.all_panel_ids().len(), 3);
}

#[test]
fn test_add_and_move_panel() {
    let mut layout = DockLayout::new();
    let viewport_path = layout.find_panel("viewport").expect("viewport should exist");
    let parent_path = &viewport_path[..viewport_path.len().saturating_sub(1)];
    layout.add_panel(parent_path, SplitDirection::Vertical, "timeline".into());
    assert!(layout.has_panel("timeline"));
    assert!(layout.has_panel("viewport"));
    layout.move_panel("inspector", &[1], SplitDirection::Horizontal);
    assert_eq!(layout.all_panel_ids(), vec!["hierarchy", "viewport", "timeline", "console", "asset_browser", "inspector"]);
}

#[test]
fn test_active_panel_in_tab() {
    let mut layout = DockLayout::default_layout();
    assert_eq!(layout.active_panel_in_tab("console").as_deref(), Some("console"));
    assert_eq!(layout.active_panel_in_tab("asset_browser").as_deref(), Some("console"));
    assert_eq!(layout.active_panel_in_tab("viewport").as_deref(), Some("viewport"));
    assert!(layout.active_panel_in_tab("nonexistent").is_none());
    layout.remove_panel("console");
    assert_eq!(layout.active_panel_in_tab("asset_browser").as_deref(), Some("asset_browser"));
}

#[test]
fn test_normalize_ratios_clamps_values() {
    let mut node = DockNode::Split {
        direction: SplitDirection::Horizontal,
        ratio: 1.5f32.to_bits(),
        children: Box::new((
            DockNode::Leaf { panel_id: "a".into(), size_ratio: 2.0f32.to_bits() },
            DockNode::Leaf { panel_id: "b".into(), size_ratio: (-0.5f32).to_bits() },
        )),
    };
    node.normalize_ratios();
    match &node {
        DockNode::Split { ratio, children, .. } => {
            assert_eq!(f32::from_bits(*ratio), 0.99);
            match &children.0 {
                DockNode::Leaf { size_ratio, .. } => assert_eq!(f32::from_bits(*size_ratio), 1.0),
                _ => panic!(),
            }
            match &children.1 {
                DockNode::Leaf { size_ratio, .. } => assert_eq!(f32::from_bits(*size_ratio), 0.0),
                _ => panic!(),
            }
        }
        _ => panic!("expected Split"),
    }
}

#[test]
fn test_dock_state_visibility_drag_and_reset() {
    let mut state = DockState::new();
    assert!(state.is_panel_visible("viewport"));
    state.show_panel("viewport", false);
    assert!(!state.is_panel_visible("viewport"));
    assert!(state.is_panel_visible("unknown"));
    state.begin_drag("viewport".into(), vec![0, 0, 0]);
    assert!(state.is_dragging());
    state.drag_state.as_mut().unwrap().set_preview_zone(Some(DockZone::Right));
    assert!(state.drag_state.as_ref().unwrap().has_preview());
    let ended = state.end_drag().expect("should end drag");
    assert_eq!(ended.panel_id, "viewport");
    assert!(!state.is_dragging());
    state.layout.remove_panel("inspector");
    state.reset_to_default();
    assert!(state.layout.has_panel("inspector"));
    assert!(state.is_panel_visible("viewport"));
}

#[test]
fn test_dock_node_tabbed_creation() {
    let node = DockNode::tabbed(vec!["console".into(), "log".into()]);
    match &node {
        DockNode::Tabbed { tabs, active, .. } => {
            assert_eq!(tabs.len(), 2);
            assert_eq!(*active, 0);
        }
        _ => panic!("expected Tabbed node"),
    }
}

#[test]
fn test_find_panel_leaf() {
    let layout = DockLayout::default_layout();
    let path = layout.find_panel("viewport").expect("should find viewport");
    assert!(!path.is_empty());
}

#[test]
fn test_find_panel_in_tabs() {
    let layout = DockLayout::default_layout();
    let path = layout.find_panel("console").expect("should find console");
    assert!(!path.is_empty());
    assert_eq!(*path.last().unwrap(), 0);
}

#[test]
fn test_find_missing_panel_returns_none() {
    let layout = DockLayout::default_layout();
    assert!(layout.find_panel("nonexistent").is_none());
}

#[test]
fn test_remove_panel_from_leaf() {
    let mut layout = DockLayout::new();
    assert!(layout.remove_panel("inspector"));
    assert!(!layout.has_panel("inspector"));
    assert!(layout.has_panel("viewport"));
}

#[test]
fn test_remove_panel_from_tabbed() {
    let mut layout = DockLayout::new();
    assert!(layout.remove_panel("console"));
    assert!(!layout.has_panel("console"));
    assert!(layout.has_panel("asset_browser"));
}

#[test]
fn test_remove_nonexistent_panel() {
    let mut layout = DockLayout::new();
    assert!(!layout.remove_panel("nonexistent"));
    assert_eq!(layout.all_panel_ids().len(), 5);
}

#[test]
fn test_add_panel_creates_split() {
    let mut layout = DockLayout::new();
    let viewport_path = layout.find_panel("viewport").expect("viewport should exist");
    let parent_path = &viewport_path[..viewport_path.len().saturating_sub(1)];
    layout.add_panel(parent_path, SplitDirection::Vertical, "timeline".into());
    assert!(layout.has_panel("timeline"));
    assert!(layout.has_panel("viewport"));
}

#[test]
fn test_move_panel() {
    let mut layout = DockLayout::new();
    let bottom_path = vec![1];
    layout.move_panel("inspector", &bottom_path, SplitDirection::Horizontal);
    assert!(layout.has_panel("inspector"));
    let ids = layout.all_panel_ids();
    assert!(ids.contains(&"inspector".to_string()));
}

#[test]
fn test_active_panel_in_leaf() {
    let layout = DockLayout::default_layout();
    let active = layout.active_panel_in_tab("viewport").expect("should find");
    assert_eq!(active, "viewport");
}

#[test]
fn test_active_panel_not_found() {
    let layout = DockLayout::default_layout();
    assert!(layout.active_panel_in_tab("nonexistent").is_none());
}

#[test]
fn test_drag_state_lifecycle() {
    let mut state = DockState::new();
    assert!(!state.is_dragging());
    state.begin_drag("viewport".into(), vec![0, 0, 0]);
    assert!(state.is_dragging());
    let drag = state.drag_state.as_ref().unwrap();
    assert_eq!(drag.panel_id, "viewport");
    assert!(drag.preview_zone.is_none());
    assert!(!drag.has_preview());
    state.drag_state.as_mut().unwrap().set_preview_zone(Some(DockZone::Right));
    assert!(state.drag_state.as_ref().unwrap().has_preview());
    let ended = state.end_drag().expect("should end drag");
    assert_eq!(ended.panel_id, "viewport");
    assert!(!state.is_dragging());
}

#[test]
fn test_reset_to_default() {
    let mut state = DockState::new();
    state.layout.remove_panel("inspector");
    assert!(!state.layout.has_panel("inspector"));
    state.reset_to_default();
    assert!(state.layout.has_panel("inspector"));
    assert!(state.layout.has_panel("viewport"));
    assert!(state.layout.has_panel("hierarchy"));
    assert!(state.layout.has_panel("console"));
    assert!(state.layout.has_panel("asset_browser"));
    assert!(!state.is_dragging());
}

#[test]
fn test_panel_visibility() {
    let mut state = DockState::new();
    assert!(state.is_panel_visible("viewport"));
    state.show_panel("viewport", false);
    assert!(!state.is_panel_visible("viewport"));
    state.show_panel("viewport", true);
    assert!(state.is_panel_visible("viewport"));
}

#[test]
fn test_panel_count() {
    let layout = DockLayout::default_layout();
    assert_eq!(layout.root.panel_count(), 5);
}

#[test]
fn test_remove_all_tabs_yields_empty() {
    let mut layout = DockLayout::new();
    layout.remove_panel("console");
    layout.remove_panel("asset_browser");
    assert!(!layout.has_panel("console"));
    assert!(!layout.has_panel("asset_browser"));
    assert!(layout.has_panel("viewport"));
}

#[test]
fn test_contains_panel() {
    let layout = DockLayout::default_layout();
    assert!(layout.root.contains_panel("viewport"));
    assert!(layout.root.contains_panel("console"));
    assert!(!layout.root.contains_panel("nonexistent"));
}

#[test]
fn test_dock_state_with_custom_layout() {
    let custom = DockLayout { root: DockNode::leaf("custom_panel".to_string()) };
    let state = DockState::with_layout(custom);
    assert!(state.is_panel_visible("custom_panel"));
    assert!(state.layout.has_panel("custom_panel"));
}

// ── Shortcuts, under the names of the original suite ──

#[test]
fn new_has_blender_defaults() {
    let map = ShortcutMap::new();
    assert_eq!(map.get(&ShortcutAction::Save), Some(&KeyBinding::ctrl(Key::S)));
    assert_eq!(map.get(&ShortcutAction::Undo), Some(&KeyBinding::ctrl(Key::Z)));
    assert_eq!(map.get(&ShortcutAction::GizmoTranslate), Some(&KeyBinding::key(Key::W)));
}

#[test]
fn bind_and_get_roundtrip() {
    let mut map = ShortcutMap::new();
    map.bind(ShortcutAction::PlayStop, KeyBinding::ctrl(Key::P));
    assert_eq!(map.get(&ShortcutAction::PlayStop), Some(&KeyBinding::ctrl(Key::P)));
}

#[test]
fn unbind_removes_binding() {
    let mut map = ShortcutMap::new();
    assert!(map.get(&ShortcutAction::Save).is_some());
    map.unbind(ShortcutAction::Save);
    assert!(map.get(&ShortcutAction::Save).is_none());
}

#[test]
fn find_action_with_modifiers() {
    let map = ShortcutMap::new();
    assert_eq!(map.find_action(Key::S, true, true, false), Some(ShortcutAction::SaveAs));
    assert_eq!(map.find_action(Key::S, true, false, false), Some(ShortcutAction::Save));
    assert_eq!(map.find_action(Key::D, true, false, false), Some(ShortcutAction::Duplicate));
}

#[test]
fn find_action_returns_none_for_unmapped() {
    let map = ShortcutMap::new();
    assert_eq!(map.find_action(Key::K, true, false, false), None);
    assert_eq!(map.find_action(Key::X, true, false, true), None);
}

#[test]
fn label_for_binding_format() {
    assert_eq!(KeyBinding::label_for_binding(&KeyBinding::ctrl(Key::S)), "Ctrl+S");
    assert_eq!(KeyBinding::label_for_binding(&KeyBinding::shift(Key::A)), "Shift+A");
    assert_eq!(KeyBinding::label_for_binding(&KeyBinding::key(Key::W)), "W");
    assert_eq!(KeyBinding::label_for_binding(&KeyBinding::ctrl_shift(Key::S)), "Ctrl+Shift+S");
    assert_eq!(KeyBinding::label_for_binding(&KeyBinding::alt(Key::G)), "Alt+G");
}

#[test]
fn blender_defaults_all_actions_have_bindings() {
    type A = ShortcutAction;
    let map = ShortcutMap::blender_defaults();
    let all_actions: &[ShortcutAction] = &[
        A::NewProject,
        A::OpenProject,
        A::Save,
        A::SaveAs,
        A::Quit,
        A::Undo,
        A::Redo,
        A::Delete,
        A::Duplicate,
        A::SelectAll,
        A::Deselect,
        A::ToggleFullscreen,
        A::ResetLayout,
        A::FocusSelected,
        A::GizmoTranslate,
        A::GizmoRotate,
        A::GizmoScale,
        A::ToggleSnap,
        A::ToggleGrid,
        A::PlayStop,
        A::FrameAll,
        A::FrameSelected,
    ];
    for action in all_actions {
        assert!(map.get(action).is_some(), "Blender defaults missing binding for: {:?}", action);
    }
}

#[test]
fn display_trait_delegates_correctly() {
    assert_eq!(ShortcutAction::label_for_action(&ShortcutAction::Save), "Save");
    assert_eq!(KeyBinding::label_for_binding(&KeyBinding::ctrl(Key::S)), "Ctrl+S");
    assert_eq!(KeyBinding::label_for_binding(&KeyBinding::key(Key::F5)), "F5");
}

#[test]
fn move_to_vanished_path_keeps_panel() {
    let mut layout = DockLayout::default_layout();
    assert_eq!(layout.find_panel("inspector"), Some(vec![0, 1, 1]));
    layout.move_panel("inspector", &[0, 1, 1], SplitDirection::Horizontal);
    assert!(layout.has_panel("inspector"));
    assert_eq!(layout.all_panel_ids().len(), 5);
    assert_eq!(layout.find_panel("inspector"), Some(vec![0, 1, 1]));
}
