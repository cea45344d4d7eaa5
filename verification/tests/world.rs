use isle_ecs::command::WorldCommand;
use isle_ecs::entity::Entity;
use isle_ecs::event::EventReader;
use isle_ecs::world::{Command, EntityEvent, World};

const KEY_U32: u64 = 1;
const KEY_U8: u64 = 2;

#[derive(Debug, PartialEq, Clone, Copy)]
enum Val {
    U32(u32),
    U8(u8),
}

#[test]
fn resource_storage_retrieval() {
    let mut world: World<Val> = World::new();
    let val = 47u32;

    world.store_resource(KEY_U32, Val::U32(val));

    let val = world.get_resource(KEY_U32).unwrap();

    assert_eq!(Val::U32(47u32), *val);
}

#[test]
fn resource_storage_retrieval_varied() {
    let mut world: World<Val> = World::new();
    let val1 = 47u32;
    let val2 = 64u8;

    world.store_resource(KEY_U32, Val::U32(val1));
    world.store_resource(KEY_U8, Val::U8(val2));

    let val1 = world.get_resource(KEY_U32).unwrap();
    let val2 = world.get_resource(KEY_U8).unwrap();

    assert_eq!(Val::U32(47u32), *val1);
    assert_eq!(Val::U8(64u8), *val2);
}

#[test]
fn resource_mutate() {
    let mut world: World<Val> = World::new();
    let val = 47u32;

    world.store_resource(KEY_U32, Val::U32(val));

    let val = world.get_resource_mut(KEY_U32).unwrap();
    *val = Val::U32(42u32);

    let val = world.get_resource(KEY_U32).unwrap();

    assert_eq!(Val::U32(42u32), *val);
}

#[test]
fn resource_mutate_varied() {
    let mut world: World<Val> = World::new();
    let val1 = 47u32;
    let val2 = 64u8;

    world.store_resource(KEY_U32, Val::U32(val1));
    world.store_resource(KEY_U8, Val::U8(val2));

    let val1 = world.get_resource_mut(KEY_U32).unwrap();
    *val1 = Val::U32(42u32);

    let val2 = world.get_resource_mut(KEY_U8).unwrap();
    *val2 = Val::U8(54u8);

    assert_eq!(Val::U32(42u32), *world.get_resource(KEY_U32).unwrap());
    assert_eq!(Val::U8(54u8), *world.get_resource(KEY_U8).unwrap());
}

#[test]
fn component_storage_retrieval() {
    let mut world: World<Val> = World::new();
    let val = 47u32;

    world.store_component(Entity(0, 0), KEY_U32, Val::U32(val));

    let val = world.get_component(&Entity(0, 0), KEY_U32).unwrap();

    assert_eq!(Val::U32(47u32), *val);
}

#[test]
fn component_storage_retrieval_varied() {
    let mut world: World<Val> = World::new();
    let val1 = 47u32;
    let val2 = 64u8;

    world.store_component(Entity(0, 0), KEY_U32, Val::U32(val1));
    world.store_component(Entity(0, 1), KEY_U8, Val::U8(val2));

    let val1 = world.get_component(&Entity(0, 0), KEY_U32).unwrap();
    let val2 = world.get_component(&Entity(0, 1), KEY_U8).unwrap();

    assert_eq!(Val::U32(47u32), *val1);
    assert_eq!(Val::U8(64u8), *val2);
}

#[test]
fn component_mutate() {
    let mut world: World<Val> = World::new();
    let val = 47u32;

    world.store_component(Entity(0, 0), KEY_U32, Val::U32(val));

    let val = world.get_component_mut(&Entity(0, 0), KEY_U32).unwrap();
    *val = Val::U32(42u32);

    let val = world.get_component(&Entity(0, 0), KEY_U32).unwrap();

    assert_eq!(Val::U32(42u32), *val);
}

#[test]
fn component_mutate_varied() {
    let mut world: World<Val> = World::new();
    let val1 = 47u32;
    let val2 = 64u8;

    world.store_component(Entity(0, 0), KEY_U32, Val::U32(val1));
    world.store_component(Entity(0, 1), KEY_U8, Val::U8(val2));

    let val1 = world.get_component_mut(&Entity(0, 0), KEY_U32).unwrap();
    *val1 = Val::U32(42u32);

    let val2 = world.get_component_mut(&Entity(0, 1), KEY_U8).unwrap();
    *val2 = Val::U8(54u8);

    let val1 = world.get_component(&Entity(0, 0), KEY_U32).unwrap();
    let val2 = world.get_component(&Entity(0, 1), KEY_U8).unwrap();

    assert_eq!(Val::U32(42u32), *val1);
    assert_eq!(Val::U8(54u8), *val2);
}

#[test]
fn component_isolation_same_type() {
    let mut world: World<Val> = World::new();

    world.store_component(Entity(0, 0), KEY_U32, Val::U32(47));
    world.store_component(Entity(0, 1), KEY_U32, Val::U32(64));

    assert_eq!(
        Val::U32(47),
        *world.get_component(&Entity(0, 0), KEY_U32).unwrap()
    );
    assert_eq!(
        Val::U32(64),
        *world.get_component(&Entity(0, 1), KEY_U32).unwrap()
    );
}

#[test]
fn missing_resource_is_reported_absent() {
    let world: World<Val> = World::new();
    assert!(world.get_resource(KEY_U32).is_none());
}

#[test]
fn missing_component_is_reported_absent() {
    let mut world: World<Val> = World::new();
    world.store_component(Entity(0, 0), KEY_U32, Val::U32(1));
    assert!(world.get_component(&Entity(0, 0), KEY_U8).is_none());
    assert!(world.get_component(&Entity(0, 1), KEY_U32).is_none());
}

#[test]
fn overwrite_replaces_resource() {
    let mut world: World<Val> = World::new();
    world.store_resource(KEY_U32, Val::U32(1));
    world.store_resource(KEY_U32, Val::U32(2));
    assert_eq!(Val::U32(2), *world.get_resource(KEY_U32).unwrap());
}

#[test]
fn entities_with_component_lists_each_once() {
    let mut world: World<Val> = World::new();
    world.store_component(Entity(0, 0), KEY_U32, Val::U32(1));
    world.store_component(Entity(0, 1), KEY_U32, Val::U32(2));
    world.store_component(Entity(0, 0), KEY_U32, Val::U32(3));

    let entities = world.get_entities_with_component(KEY_U32);
    assert_eq!(entities.len(), 2);
    assert!(entities.contains(&Entity(0, 0)));
    assert!(entities.contains(&Entity(0, 1)));
    assert!(world.get_entities_with_component(KEY_U8).is_empty());
}

#[test]
fn entity_components_tracks_stored_types() {
    let mut world: World<Val> = World::new();
    world.store_component(Entity(0, 0), KEY_U32, Val::U32(1));
    world.store_component(Entity(0, 0), KEY_U8, Val::U8(2));

    let types = world.get_entity_components(&Entity(0, 0));
    assert!(types.contains(KEY_U32));
    assert!(types.contains(KEY_U8));
    assert!(!types.contains(99));
}

#[test]
fn commands_apply_in_queue_order() {
    let mut world: World<Val> = World::new();
    world.queue_command(Command::StoreResource(KEY_U32, Val::U32(1)));
    world.queue_command(Command::StoreResource(KEY_U32, Val::U32(2)));
    world.queue_command(Command::StoreComponent(Entity(0, 3), KEY_U8, Val::U8(9)));

    assert!(world.get_resource(KEY_U32).is_none());

    world.apply_commands();

    assert_eq!(Val::U32(2), *world.get_resource(KEY_U32).unwrap());
    assert_eq!(
        Val::U8(9),
        *world.get_component(&Entity(0, 3), KEY_U8).unwrap()
    );

    world.apply_commands();
    assert_eq!(Val::U32(2), *world.get_resource(KEY_U32).unwrap());
}

#[test]
fn lifecycle_events_published_on_store() {
    let mut world: World<Val> = World::new();
    let mut reader = EventReader::from_writer(world.entity_events());

    world.store_component(Entity(0, 0), KEY_U32, Val::U32(1));
    world.store_component(Entity(0, 0), KEY_U8, Val::U8(2));

    match reader.read(world.entity_events()) {
        Some(EntityEvent::Created(e)) => assert_eq!(e, Entity(0, 0)),
        other => panic!("expected a creation event, got {:?}", other),
    }
    match reader.read(world.entity_events()) {
        Some(EntityEvent::ComponentAdded(e, t)) => {
            assert_eq!(e, Entity(0, 0));
            assert_eq!(t, KEY_U32);
        }
        other => panic!("expected an addition event, got {:?}", other),
    }
    match reader.read(world.entity_events()) {
        Some(EntityEvent::ComponentAdded(e, t)) => {
            assert_eq!(e, Entity(0, 0));
            assert_eq!(t, KEY_U8);
        }
        other => panic!("expected an addition event, got {:?}", other),
    }
    assert!(reader.read(world.entity_events()).is_none());
}

#[test]
fn deferred_handle_queues_without_mutating() {
    let mut world: World<Val> = World::new();

    {
        let mut handle = WorldCommand::new(&mut world);
        handle.add_resource(KEY_U32, Val::U32(5));
        handle.add_component(Entity(0, 4), KEY_U8, Val::U8(6));
        handle.send(Command::StoreResource(KEY_U8, Val::U8(7)));
    }

    // nothing is visible before the flush point
    assert!(world.get_resource(KEY_U32).is_none());
    assert!(world.get_resource(KEY_U8).is_none());
    assert!(world.get_component(&Entity(0, 4), KEY_U8).is_none());

    world.apply_commands();

    assert_eq!(Val::U32(5), *world.get_resource(KEY_U32).unwrap());
    assert_eq!(Val::U8(7), *world.get_resource(KEY_U8).unwrap());
    assert_eq!(
        Val::U8(6),
        *world.get_component(&Entity(0, 4), KEY_U8).unwrap()
    );
}
