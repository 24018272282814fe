use skyless_core::attribute::{Attribute, AttributeBag, AttributeKind, Direction, Health, Item, LightInfo, Speed, Walking};
use skyless_core::definitions::{ClientOpcodes, Directions, InventorySlot, Items, PartyShields, ServerOpcodes, SkillType, Skulls};
use skyless_core::event::{Event, SystemsLoadedEvent, EventKind};
use skyless_core::position::Position;

#[test]
fn get_after_set_returns_value() {
    let mut bag = AttributeBag::new();
    let a = Attribute::Health(Health { value: 10, max: 20 });
    bag.set(a.clone());
    assert_eq!(bag.get(a.kind()), Some(&a));
    assert_eq!(bag.get(AttributeKind::Speed), None);
}

#[test]
fn second_set_replaces_first() {
    let mut bag = AttributeBag::new();
    bag.set(Attribute::Speed(Speed(100)));
    bag.set(Attribute::Speed(Speed(250)));
    assert_eq!(bag.speed(), Some(Speed(250)));
    assert_eq!(bag.get(AttributeKind::Speed), Some(&Attribute::Speed(Speed(250))));
}

#[test]
fn remove_drops_attribute() {
    let mut bag = AttributeBag::new();
    bag.set(Attribute::Item(Item(5)));
    assert!(bag.remove(AttributeKind::Item));
    assert!(!bag.remove(AttributeKind::Item));
    assert_eq!(bag.item(), None);
}

#[test]
fn typed_get_of_other_kind_is_absent() {
    let mut bag = AttributeBag::new();
    bag.set(Attribute::Walking(Walking { until_ms: 1500 }));
    assert_eq!(bag.walking(), Some(Walking { until_ms: 1500 }));
    assert_eq!(bag.item(), None);
    assert_eq!(bag.player(), None);
}

#[test]
fn names_are_snake_case_of_type() {
    assert_eq!(AttributeKind::LightInfo.name(), "light_info");
    assert_eq!(AttributeKind::PartyShield.name(), "party_shield");
    assert_eq!(Attribute::LightInfo(LightInfo { level: 1, color: 2 }).name(), "light_info");
    assert_eq!(EventKind::MovedEntity.name(), "moved_entity_event");
    assert_eq!(Event::SystemsLoaded(SystemsLoadedEvent).name(), "systems_loaded_event");
}

#[test]
fn position_builders_and_diff() {
    let p = Position(10, 20, 7).x(11).y(19).z(6).stack_pos(Some(3));
    assert_eq!(p, Position { x: 11, y: 19, z: 6, stack_pos: Some(3) });
    assert_eq!(Position(10, 20, 7).diff(Position(9, 22, 5)), (-1, 2, -2));
    assert_ne!(Position(1, 1, 7), Position(1, 1, 7).stack_pos(Some(0)));
}

#[test]
fn direction_steps() {
    let p = Position(10, 10, 7);
    assert_eq!(Direction(Directions::North).apply_to_position(p), Position(10, 9, 7));
    assert_eq!(Direction(Directions::SouthWest).apply_to_position(p), Position(9, 11, 7));
    assert_eq!(Direction(Directions::NorthEast).apply_to_position(p), Position(11, 9, 7));
    assert_eq!(Direction(Directions::Stay).apply_to_position(p), p);
}

#[test]
fn direction_between_neighbours() {
    let p = Position(10, 10, 7);
    assert_eq!(Direction::between_positions(p, Position(9, 9, 7)), Some(Direction(Directions::NorthWest)));
    assert_eq!(Direction::between_positions(p, Position(10, 11, 7)), Some(Direction(Directions::South)));
    assert_eq!(Direction::between_positions(p, p), Some(Direction(Directions::Stay)));
    assert_eq!(Direction::between_positions(p, Position(12, 10, 7)), None);
    assert_eq!(Direction::between_positions(p, Position(10, 11, 6)), None);
}

#[test]
fn step_then_between_gives_direction_back() {
    let p = Position(50, 50, 7);
    for d in [Directions::North, Directions::East, Directions::South, Directions::West,
              Directions::SouthWest, Directions::SouthEast, Directions::NorthWest, Directions::NorthEast] {
        let q = Direction(d).apply_to_position(p);
        assert_eq!(Direction::between_positions(p, q), Some(Direction(d)));
    }
}

#[test]
fn enum_codes() {
    assert_eq!(Items::LeverLeft.to_u16(), 2772);
    assert_eq!(Items::from_u16(430), Some(Items::StoneSwitchActivated));
    assert_eq!(Items::from_u16(1), None);
    assert_eq!(ClientOpcodes::from_u8(0x82), Some(ClientOpcodes::UseItem));
    assert_eq!(ClientOpcodes::from_u8(0x00), None);
    assert_eq!(ServerOpcodes::MovedEntity.to_u8(), 0x6D);
    assert_eq!(Directions::Stay.to_u8(), 8);
    assert_eq!(Skulls::Orange.to_u8(), 6);
    assert_eq!(PartyShields::Yellow.to_u8(), 4);
    assert_eq!(SkillType::Fishing.to_u8(), 6);
    assert_eq!(InventorySlot::Head.to_u8(), 1);
    assert_eq!(InventorySlot::Ammo.to_u8(), 10);
}
