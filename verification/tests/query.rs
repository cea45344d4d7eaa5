use isle_ecs::ecs::{BorrowSignature, RefType};
use isle_ecs::entity::Entity;
use isle_ecs::query::{Query, With, Without};
use isle_ecs::world::World;

const KEY_A: u64 = 1;
const KEY_B: u64 = 2;

#[derive(Debug, PartialEq, Clone, Copy)]
struct Marker(u32);

fn sample_world() -> World<Marker> {
    let mut world: World<Marker> = World::new();
    // E1 holds A and B; E2 holds A only.
    world.store_component(Entity(0, 1), KEY_A, Marker(11));
    world.store_component(Entity(0, 1), KEY_B, Marker(12));
    world.store_component(Entity(0, 2), KEY_A, Marker(21));
    world
}

#[test]
fn query_requiring_both_returns_only_the_full_holder() {
    let world = sample_world();
    let query = Query {
        fetch: vec![
            BorrowSignature(KEY_A, RefType::Immutable),
            BorrowSignature(KEY_B, RefType::Immutable),
        ],
        with: vec![],
        without: vec![],
    };

    let entities = query.fetch_entities(&world);
    assert_eq!(entities.len(), 1);
    assert!(entities.contains(&Entity(0, 1)));
}

#[test]
fn query_without_excludes_the_holder() {
    let world = sample_world();
    let query = Query {
        fetch: vec![BorrowSignature(KEY_A, RefType::Immutable)],
        with: vec![],
        without: vec![Without(KEY_B)],
    };

    let entities = query.fetch_entities(&world);
    assert_eq!(entities.len(), 1);
    assert!(entities.contains(&Entity(0, 2)));
}

#[test]
fn query_with_filter_narrows_like_a_required_fetch() {
    let world = sample_world();
    let query = Query {
        fetch: vec![BorrowSignature(KEY_A, RefType::Immutable)],
        with: vec![With(KEY_B)],
        without: vec![],
    };

    let entities = query.fetch_entities(&world);
    assert_eq!(entities.len(), 1);
    assert!(entities.contains(&Entity(0, 1)));
}

#[test]
fn optional_fetch_takes_no_part_in_the_superset_test() {
    let world = sample_world();
    let query = Query {
        fetch: vec![
            BorrowSignature(KEY_A, RefType::Immutable),
            BorrowSignature(KEY_B, RefType::OptionalImmutable),
        ],
        with: vec![],
        without: vec![],
    };

    let entities = query.fetch_entities(&world);
    assert_eq!(entities.len(), 2);
    assert!(entities.contains(&Entity(0, 1)));
    assert!(entities.contains(&Entity(0, 2)));
}

#[test]
fn query_with_no_required_fetch_matches_nothing() {
    let world = sample_world();
    let query = Query {
        fetch: vec![BorrowSignature(KEY_A, RefType::OptionalImmutable)],
        with: vec![With(KEY_B)],
        without: vec![],
    };

    assert!(query.fetch_entities(&world).is_empty());
}

#[test]
fn query_reflects_current_world_state() {
    let mut world = sample_world();
    let query = Query {
        fetch: vec![
            BorrowSignature(KEY_A, RefType::Immutable),
            BorrowSignature(KEY_B, RefType::Immutable),
        ],
        with: vec![],
        without: vec![],
    };

    assert_eq!(query.fetch_entities(&world).len(), 1);

    // the resolved set is recomputed, never cached
    world.store_component(Entity(0, 2), KEY_B, Marker(22));
    let entities = query.fetch_entities(&world);
    assert_eq!(entities.len(), 2);
    assert!(entities.contains(&Entity(0, 2)));
}

#[test]
fn matched_entities_yield_their_own_components() {
    let world = sample_world();
    let query = Query {
        fetch: vec![BorrowSignature(KEY_A, RefType::Immutable)],
        with: vec![],
        without: vec![],
    };

    for entity in query.fetch_entities(&world) {
        let value = world.get_component(&entity, KEY_A).unwrap();
        if entity == Entity(0, 1) {
            assert_eq!(*value, Marker(11));
        } else {
            assert_eq!(entity, Entity(0, 2));
            assert_eq!(*value, Marker(21));
        }
    }
}

#[test]
fn query_on_an_empty_world_matches_nothing() {
    let world: World<Marker> = World::new();
    let query = Query {
        fetch: vec![BorrowSignature(KEY_A, RefType::Immutable)],
        with: vec![],
        without: vec![],
    };
    assert!(query.fetch_entities(&world).is_empty());
}
