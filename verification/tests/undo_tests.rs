use std::any::TypeId;

use chronos_engine::component::{Health, Position, Velocity};
use chronos_engine::entity::Entity;
use chronos_engine::undo::{
    Command, CreateEntityCommand, DestroyEntityCommand, EditorCommand, ModifyComponentCommand,
    MoveEntityCommand, UndoStack,
};
use chronos_engine::world::World;

fn bits(v: f32) -> u32 {
    v.to_bits()
}

fn pos(x: f32, y: f32) -> Position {
    Position::new(bits(x), bits(y))
}

fn world_with_positioned_entity() -> (World, Entity, Position) {
    let mut world = World::new();
    let entity = world.create_entity();
    let p = pos(10.0, 20.0);
    world.add_component(entity, p);
    (world, entity, p)
}

#[test]
fn test_new_defaults() {
    let stack = UndoStack::new();
    assert!(!stack.can_undo(), "new stack should not be undoable");
    assert!(!stack.can_redo(), "new stack should not be redoable");
    assert_eq!(stack.undo_count(), 0);
    assert_eq!(stack.redo_count(), 0);
    assert!(stack.description().is_none());
}

#[test]
fn test_push_undo_redo_cycle() {
    let (mut world, entity, original_pos) = world_with_positioned_entity();
    let mut stack = UndoStack::new();
    let new_pos = pos(50.0, 60.0);
    stack.push(Command::Move(MoveEntityCommand::new(entity, Some(original_pos), Some(new_pos))));

    let desc = stack.undo(&mut world).expect("should undo");
    assert!(desc.contains("Move"));
    let p = world.get_component::<Position>(entity).unwrap();
    assert_eq!(p, pos(10.0, 20.0));

    let desc = stack.redo(&mut world).expect("should redo");
    assert!(desc.contains("Move"));
    let p = world.get_component::<Position>(entity).unwrap();
    assert_eq!(p, pos(50.0, 60.0));
}

#[test]
fn test_push_clears_redo() {
    let (mut world, entity, original_pos) = world_with_positioned_entity();
    let mut stack = UndoStack::new();
    stack.push(Command::Move(MoveEntityCommand::new(entity, Some(original_pos), Some(pos(1.0, 2.0)))));
    stack.undo(&mut world).unwrap();
    assert_eq!(stack.redo_count(), 1, "should have one redo");
    stack.push(Command::Move(MoveEntityCommand::new(entity, Some(original_pos), Some(pos(3.0, 4.0)))));
    assert_eq!(stack.redo_count(), 0, "push must clear redo stack");
    assert_eq!(stack.undo_count(), 1);
}

#[test]
fn test_can_undo_can_redo() {
    let (mut world, entity, p) = world_with_positioned_entity();
    let mut stack = UndoStack::new();
    assert!(!stack.can_undo());
    assert!(!stack.can_redo());
    stack.push(Command::Move(MoveEntityCommand::new(entity, Some(p), Some(pos(5.0, 5.0)))));
    assert!(stack.can_undo());
    assert!(!stack.can_redo());
    stack.undo(&mut world).unwrap();
    assert!(!stack.can_undo());
    assert!(stack.can_redo());
}

#[test]
fn test_max_history_trimming() {
    let mut world = World::new();
    let mut stack = UndoStack::new().with_max_history(3);
    for _ in 0..5 {
        let e = world.create_entity();
        stack.push(Command::Create(CreateEntityCommand::new(e)));
    }
    assert_eq!(stack.undo_count(), 3, "should trim to max_history");
}

#[test]
fn test_move_entity_command() {
    let mut world = World::new();
    let entity = world.create_entity();
    world.add_component(entity, pos(0.0, 0.0));
    let mut cmd = MoveEntityCommand::new(entity, Some(pos(0.0, 0.0)), Some(pos(42.0, 84.0)));
    world.add_component(entity, pos(42.0, 84.0));
    cmd.undo(&mut world);
    assert_eq!(world.get_component::<Position>(entity).unwrap(), pos(0.0, 0.0));
    cmd.redo(&mut world);
    assert_eq!(world.get_component::<Position>(entity).unwrap(), pos(42.0, 84.0));
}

#[test]
fn test_modify_component_undo_redo() {
    let mut world = World::new();
    let entity = world.create_entity();
    world.add_component(entity, Health::new(100));

    let mut cmd = ModifyComponentCommand::new(entity, Health::new(100), Health { current: 30, max: 100 });

    // Simulate: modification already applied.
    world.add_component(entity, Health { current: 30, max: 100 });

    cmd.undo(&mut world);
    let hp = world.get_component::<Health>(entity).unwrap();
    assert_eq!(hp.current, 100, "undo should restore old value");

    cmd.redo(&mut world);
    let hp = world.get_component::<Health>(entity).unwrap();
    assert_eq!(hp.current, 30, "redo should set new value");
}

#[test]
fn test_clear() {
    let (mut world, entity, p) = world_with_positioned_entity();
    let mut stack = UndoStack::new();
    stack.push(Command::Move(MoveEntityCommand::new(entity, Some(p), Some(pos(1.0, 1.0)))));
    stack.push(Command::Move(MoveEntityCommand::new(entity, Some(pos(1.0, 1.0)), Some(pos(2.0, 2.0)))));
    stack.undo(&mut world).unwrap();
    assert_eq!(stack.undo_count(), 1);
    assert_eq!(stack.redo_count(), 1);
    stack.clear();
    assert_eq!(stack.undo_count(), 0);
    assert_eq!(stack.redo_count(), 0);
    assert!(!stack.can_undo());
    assert!(!stack.can_redo());
}

#[test]
fn test_destroy_entity_command() {
    let mut world = World::new();
    let entity = world.create_entity();
    world.add_component(entity, pos(7.0, 8.0));
    world.add_component(entity, Velocity::new(bits(1.0), bits(-1.0)));

    let mut cmd = DestroyEntityCommand::new(entity)
        .with_snapshot(pos(7.0, 8.0))
        .with_snapshot(Velocity::new(bits(1.0), bits(-1.0)));

    world.destroy_entity(entity);
    assert!(!world.entity_exists(entity));

    cmd.undo(&mut world);
    let new_entity = cmd.entity();
    assert!(world.entity_exists(new_entity));
    assert_eq!(cmd.snapshot_count(), 2);
    assert_eq!(world.get_component::<Position>(new_entity).unwrap(), pos(7.0, 8.0));
    let vel = world.get_component::<Velocity>(new_entity).unwrap();
    assert_eq!(f32::from_bits(vel.x), 1.0);
    assert_eq!(f32::from_bits(vel.y), -1.0);

    cmd.redo(&mut world);
    assert!(!world.entity_exists(new_entity));
}

#[test]
fn test_create_entity_command() {
    let mut world = World::new();
    let entity = world.create_entity();
    let mut cmd = CreateEntityCommand::new(entity);

    assert_eq!(world.entity_count(), 1);

    cmd.undo(&mut world);
    assert_eq!(world.entity_count(), 0);

    cmd.redo(&mut world);
    assert_eq!(world.entity_count(), 1);
    let new_entity = cmd.entity();
    assert!(world.entity_exists(new_entity));
}

#[test]
fn test_description() {
    let mut world = World::new();
    let entity = world.create_entity();
    let mut stack = UndoStack::new();
    assert!(stack.description().is_none());
    stack.push(Command::Create(CreateEntityCommand::new(entity)));
    assert!(stack.description().unwrap().contains("Create entity"));
    stack.push(Command::Move(MoveEntityCommand::new(entity, Some(pos(0.0, 0.0)), Some(pos(1.0, 1.0)))));
    assert!(stack.description().unwrap().contains("Move"));
}

#[test]
fn test_modify_component_type_id() {
    let entity = Entity::new(0, 0);
    let cmd = ModifyComponentCommand::new(entity, Health::new(100), Health { current: 50, max: 100 });
    assert_eq!(cmd.component_type_id(), TypeId::of::<Health>());
}

#[test]
fn test_noop_on_dead_entity() {
    let mut world = World::new();
    let entity = world.create_entity();
    world.add_component(entity, pos(5.0, 5.0));
    let mut move_cmd = MoveEntityCommand::new(entity, Some(pos(5.0, 5.0)), Some(pos(99.0, 99.0)));
    let mut modify_cmd = ModifyComponentCommand::new(entity, pos(5.0, 5.0), pos(99.0, 99.0));
    world.destroy_entity(entity);
    move_cmd.undo(&mut world);
    move_cmd.redo(&mut world);
    modify_cmd.undo(&mut world);
    modify_cmd.redo(&mut world);
    assert_eq!(world.entity_count(), 0);
}

#[test]
fn test_box_clone() {
    let cmd = Command::Move(MoveEntityCommand::new(Entity::new(0, 0), Some(pos(1.0, 2.0)), Some(pos(3.0, 4.0))));
    let cloned = cmd.clone();
    assert_eq!(cmd.describe(), cloned.describe());
}

#[test]
fn test_destroy_with_world_snapshot() {
    let mut world = World::new();
    let entity = world.create_entity();
    world.add_component(entity, pos(11.0, 22.0));
    world.add_component(entity, Velocity::new(bits(3.0), bits(4.0)));
    let mut cmd = DestroyEntityCommand::new(entity)
        .with_world_snapshot::<Position>(&world)
        .with_world_snapshot::<Velocity>(&world);
    assert_eq!(cmd.snapshot_count(), 2);
    world.destroy_entity(entity);
    cmd.undo(&mut world);
    let new_entity = cmd.entity();
    assert_eq!(f32::from_bits(world.get_component::<Position>(new_entity).unwrap().x), 11.0);
    assert_eq!(f32::from_bits(world.get_component::<Velocity>(new_entity).unwrap().x), 3.0);
}

// ── Descriptions and laws on concrete values ──

#[test]
fn move_description_formats_positions() {
    let cmd = MoveEntityCommand::new(Entity::new(3, 0), Some(pos(1.25, -2.0)), None);
    assert_eq!(cmd.describe(), format!("Move entity 3 from ({:.1}, {:.1}) to none", 1.25f32, -2.0f32));
}

#[test]
fn create_and_destroy_descriptions() {
    let c = CreateEntityCommand::new(Entity::new(4, 2));
    assert_eq!(c.describe(), "Create entity (index 4, gen 2)");
    let d = DestroyEntityCommand::new(Entity::new(1, 7)).with_snapshot(Health::new(5));
    assert_eq!(d.describe(), "Destroy entity (index 1, gen 7) with 1 component(s)");
    let m = ModifyComponentCommand::new(Entity::new(9, 0), Health::new(1), Health::new(2));
    assert_eq!(m.describe(), "Modify chronos_engine::component::Health on entity 9");
}

#[test]
fn trimming_drops_oldest_first() {
    let mut world = World::new();
    let mut stack = UndoStack::new().with_max_history(2);
    let mut handles = Vec::new();
    for _ in 0..3 {
        let e = world.create_entity();
        handles.push(e);
        stack.push(Command::Create(CreateEntityCommand::new(e)));
    }
    assert_eq!(stack.undo_count(), 2);
    let d = stack.description().unwrap();
    assert!(d.contains(&format!("index {}", handles[2].index())));
    stack.undo(&mut world).unwrap();
    let d = stack.description().unwrap();
    assert!(d.contains(&format!("index {}", handles[1].index())));
}

#[test]
fn undo_then_redo_restores_counts() {
    let (mut world, entity, p) = world_with_positioned_entity();
    let mut stack = UndoStack::new();
    stack.push(Command::Move(MoveEntityCommand::new(entity, Some(p), Some(pos(9.0, 9.0)))));
    stack.push(Command::Move(MoveEntityCommand::new(entity, Some(pos(9.0, 9.0)), Some(pos(8.0, 8.0)))));
    let (u, r) = (stack.undo_count(), stack.redo_count());
    stack.undo(&mut world).unwrap();
    assert_eq!(stack.undo_count() + stack.redo_count(), u + r);
    stack.redo(&mut world).unwrap();
    assert_eq!((stack.undo_count(), stack.redo_count()), (u, r));
    assert!(stack.undo(&mut World::new()).is_some());
}

#[test]
fn zero_max_history_keeps_one() {
    let mut world = World::new();
    let mut stack = UndoStack::new().with_max_history(0);
    for _ in 0..3 {
        let e = world.create_entity();
        stack.push(Command::Create(CreateEntityCommand::new(e)));
    }
    assert_eq!(stack.undo_count(), 1);
}

#[test]
fn modify_value_command_in_stack() {
    let mut world = World::new();
    let e = world.create_entity();
    world.add_component(e, Health { current: 10, max: 20 });
    let mut stack = UndoStack::new();
    stack.push(ModifyComponentCommand::new(e, Health { current: 20, max: 20 }, Health { current: 10, max: 20 }).into_command());
    stack.undo(&mut world).unwrap();
    assert_eq!(world.get_component::<Health>(e).unwrap().current, 20);
    stack.redo(&mut world).unwrap();
    assert_eq!(world.get_component::<Health>(e).unwrap().current, 10);
}
