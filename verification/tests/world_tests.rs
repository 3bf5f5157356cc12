use chronos_engine::component::{Damage, Dead, Health, RigidBody, Sprite};
use chronos_engine::entity::Entity;
use chronos_engine::world::World;

#[test]
fn entity_accessors() {
    let e = Entity::new(3, 1);
    assert_eq!(e.index(), 3);
    assert_eq!(e.generation(), 1);
    assert_eq!(e, Entity::new(3, 1));
    assert_ne!(e, Entity::new(3, 2));
}

#[test]
fn destroyed_handle_stays_dead_after_slot_reuse() {
    let mut world = World::new();
    let a = world.create_entity();
    world.destroy_entity(a);
    let b = world.create_entity();
    assert_eq!(b.index(), a.index());
    assert_eq!(b.generation(), a.generation() + 1);
    assert!(!world.entity_exists(a));
    assert!(world.entity_exists(b));
    assert_eq!(world.entity_count(), 1);
    assert_eq!(world.entity_capacity(), 1);
}

#[test]
fn components_are_dropped_with_their_entity() {
    let mut world = World::new();
    let a = world.create_entity();
    world.add_component(a, Health::new(5));
    world.add_component(a, Dead);
    assert!(world.has_component::<Health>(a));
    world.destroy_entity(a);
    let b = world.create_entity();
    assert!(!world.has_component::<Health>(b));
    assert!(!world.has_component::<Dead>(b));
    assert_eq!(world.get_component::<Health>(a), None);
}

#[test]
fn remove_component_returns_value() {
    let mut world = World::new();
    let a = world.create_entity();
    world.add_component(a, Damage(7));
    assert_eq!(world.remove_component::<Damage>(a), Some(Damage(7)));
    assert_eq!(world.remove_component::<Damage>(a), None);
    world.add_component(a, Sprite::new('@', 1, 2, 3));
    assert_eq!(world.get_component::<Sprite>(a).unwrap().color, (1, 2, 3));
}

#[test]
fn health_rules() {
    let mut h = Health::new(10);
    assert!(!h.is_dead());
    h.take_damage(4);
    assert_eq!(h.current, 6);
    h.take_damage(100);
    assert_eq!(h.current, 0);
    assert_eq!(h.max, 10);
    assert!(h.is_dead());
}

#[test]
fn rigid_body_static_matches_float_equality() {
    assert!(RigidBody::static_body().is_static());
    assert!(RigidBody::new((-0.0f32).to_bits(), 0, 0).is_static());
    assert!(!RigidBody::dynamic(1.0f32.to_bits()).is_static());
    let d = RigidBody::dynamic(2.0f32.to_bits());
    assert_eq!(f32::from_bits(d.damping), 0.99);
    assert_eq!(f32::from_bits(d.restitution), 0.5);
}

#[test]
fn entity_from_index_past_capacity() {
    let world = World::new();
    let e = world.entity_from_index(5);
    assert_eq!(e.index(), 5);
    assert_eq!(e.generation(), 0);
    assert!(!world.entity_exists(e));
}

#[test]
fn inspector_empty_entity_produces_empty_report() {
    let mut world = World::new();
    let entity = world.create_entity();

    let mut inspector = chronos_engine::editor::EntityInspector::new();
    inspector.inspect(&world, entity);

    let report = inspector.get_report().expect("report should exist");
    assert!(report.components.is_empty());
}

#[test]
fn all_entities_lists_live_ones_in_slot_order() {
    let mut world = World::new();
    let a = world.create_entity();
    let b = world.create_entity();
    let c = world.create_entity();
    world.destroy_entity(b);
    assert_eq!(world.all_entities(), vec![a, c]);
}
