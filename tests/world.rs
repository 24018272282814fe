use skyless_core::attribute::{Attribute, AttributeBag, AttributeKind, Item, Player};
use skyless_core::position::Position;
use skyless_core::world::{Entity, Tile, World};

fn entity_with_item(id: u16) -> Entity {
    let mut e = Entity::new();
    e.attributes.set(Attribute::Item(Item(id)));
    e
}

fn tile_of(entities: Vec<Entity>) -> Tile {
    Tile { attributes: AttributeBag::new(), entities }
}

#[test]
fn entity_is_addressed_by_stack_index() {
    let mut world = World::new();
    world.insert(Position(10, 20, 7), tile_of(vec![entity_with_item(1), entity_with_item(2)]));
    let e1 = world.entity(&Position(10, 20, 7).stack_pos(Some(1))).expect("second entity");
    assert_eq!(e1.attributes.item(), Some(Item(2)));
    let e0 = world.entity(&Position(10, 20, 7).stack_pos(Some(0))).expect("first entity");
    assert_eq!(e0.attributes.item(), Some(Item(1)));
    assert!(world.entity(&Position(10, 20, 7).stack_pos(Some(2))).is_none());
}

#[test]
fn tile_address_has_no_entity() {
    let mut world = World::new();
    world.insert(Position(1, 1, 7), tile_of(vec![entity_with_item(1)]));
    assert!(world.entity(&Position(1, 1, 7)).is_none());
}

#[test]
fn tile_lookup_clears_stack_index() {
    let mut world = World::new();
    world.insert(Position(3, 4, 5), tile_of(vec![entity_with_item(9)]));
    assert!(world.tile(&Position(3, 4, 5).stack_pos(Some(7))).is_some());
    assert!(world.tile(&Position(3, 4, 6)).is_none());
}

#[test]
fn insert_under_entity_address_keys_the_tile_address() {
    let mut world = World::new();
    world.insert(Position(3, 4, 5).stack_pos(Some(2)), tile_of(vec![]));
    assert!(world.tile(&Position(3, 4, 5)).is_some());
}

#[test]
fn insert_replaces_tile() {
    let mut world = World::new();
    world.insert(Position(1, 2, 3), tile_of(vec![entity_with_item(1)]));
    world.insert(Position(1, 2, 3), tile_of(vec![entity_with_item(5), entity_with_item(6)]));
    assert_eq!(world.tile(&Position(1, 2, 3)).unwrap().entities.len(), 2);
}

#[test]
fn missing_tile_is_absent_not_error() {
    let world = World::new();
    assert!(world.tile(&Position(0, 0, 0)).is_none());
    assert!(world.entity(&Position(0, 0, 0).stack_pos(Some(0))).is_none());
}

#[test]
fn entity_mut_changes_entity_in_place() {
    let mut world = World::new();
    world.insert(Position(1, 1, 7), tile_of(vec![entity_with_item(1)]));
    let p = Position(1, 1, 7).stack_pos(Some(0));
    world.entity_mut(&p).unwrap().attributes.set(Attribute::Player(Player(4)));
    assert_eq!(world.entity(&p).unwrap().attributes.player(), Some(Player(4)));
    assert_eq!(world.entity(&p).unwrap().attributes.get(AttributeKind::Item), Some(&Attribute::Item(Item(1))));
}
