use skyless_core::attribute::{Action, Attribute, AttributeBag, Item, Player};
use skyless_core::command::{
    AddEntityCommand, Command, EmitEventCommand, MoveEntityCommand, RemoveEntityAttributeCommand,
    SetEntityAttributeCommand, SetGameAttributeCommand, SetWorldCommand,
};
use skyless_core::attribute::AttributeKind;
use skyless_core::definitions::{Actions, Items};
use skyless_core::event::{
    Event, EventKind, MoveEvent, SystemsLoadedEvent, UseEvent, UseItemPayloadEvent,
};
use skyless_core::game::Game;
use skyless_core::position::Position;
use skyless_core::systems::Effect;
use skyless_core::world::{Entity, Tile, World};

fn entity_with(attributes: Vec<Attribute>) -> Entity {
    let mut e = Entity::new();
    for a in attributes {
        e.attributes.set(a);
    }
    e
}

fn tile_of(entities: Vec<Entity>) -> Tile {
    Tile { attributes: AttributeBag::new(), entities }
}

fn item_at(game: &Game, p: Position) -> Option<u16> {
    game.world.entity(&p).and_then(|e| e.attributes.item()).map(|i| i.0)
}

fn emit(game: &mut Game, event: Event) {
    let tasks = game.process(Command::EmitEvent(EmitEventCommand(event))).expect("settles");
    assert!(tasks.is_empty());
}

fn loaded_game() -> Game {
    let mut game = Game::new();
    game.register_systems();
    emit(&mut game, Event::SystemsLoaded(SystemsLoadedEvent));
    game
}

#[test]
fn move_entity_moves_to_top_of_target_tile() {
    let mut game = Game::new();
    let mut world = World::new();
    world.insert(Position(1, 1, 7), tile_of(vec![entity_with(vec![Attribute::Item(Item(42))])]));
    world.insert(Position(2, 1, 7), tile_of(vec![]));
    game.process(Command::SetWorld(SetWorldCommand(world))).unwrap();
    let from = Position(1, 1, 7).stack_pos(Some(0));
    let to = Position(2, 1, 7);
    let tasks = game.process(Command::MoveEntity(MoveEntityCommand { from, to })).unwrap();
    assert!(tasks.is_empty());
    assert_eq!(game.world.tile(&Position(1, 1, 7)).unwrap().entities.len(), 0);
    let to_tile = game.world.tile(&to).unwrap();
    assert_eq!(to_tile.entities.len(), 1);
    assert_eq!(to_tile.entities[0].attributes.item(), Some(Item(42)));
}

#[test]
fn move_entity_without_target_tile_keeps_entity() {
    let mut game = Game::new();
    let mut world = World::new();
    world.insert(Position(1, 1, 7), tile_of(vec![entity_with(vec![Attribute::Item(Item(42))])]));
    game.process(Command::SetWorld(SetWorldCommand(world))).unwrap();
    let from = Position(1, 1, 7).stack_pos(Some(0));
    game.process(Command::MoveEntity(MoveEntityCommand { from, to: Position(9, 9, 7) })).unwrap();
    assert_eq!(item_at(&game, from), Some(42));
}

#[test]
fn move_entity_shifts_entities_above_down() {
    let mut game = Game::new();
    let mut world = World::new();
    world.insert(
        Position(1, 1, 7),
        tile_of(vec![
            entity_with(vec![Attribute::Item(Item(1))]),
            entity_with(vec![Attribute::Item(Item(2))]),
            entity_with(vec![Attribute::Item(Item(3))]),
        ]),
    );
    world.insert(Position(2, 1, 7), tile_of(vec![entity_with(vec![Attribute::Item(Item(9))])]));
    game.process(Command::SetWorld(SetWorldCommand(world))).unwrap();
    let from = Position(1, 1, 7).stack_pos(Some(1));
    game.process(Command::MoveEntity(MoveEntityCommand { from, to: Position(2, 1, 7) })).unwrap();
    assert_eq!(item_at(&game, Position(1, 1, 7).stack_pos(Some(0))), Some(1));
    assert_eq!(item_at(&game, Position(1, 1, 7).stack_pos(Some(1))), Some(3));
    assert_eq!(item_at(&game, Position(1, 1, 7).stack_pos(Some(2))), None);
    assert_eq!(item_at(&game, Position(2, 1, 7).stack_pos(Some(1))), Some(2));
}

#[test]
fn set_entity_attribute_without_entity_changes_nothing() {
    let mut game = Game::new();
    game.register_systems();
    let mut world = World::new();
    world.insert(Position(1, 1, 7), tile_of(vec![entity_with(vec![Attribute::Item(Item(7))])]));
    game.process(Command::SetWorld(SetWorldCommand(world))).unwrap();
    for p in [Position(1, 1, 7), Position(1, 1, 7).stack_pos(Some(1)), Position(5, 5, 7).stack_pos(Some(0))] {
        let tasks = game
            .process(Command::SetEntityAttribute(SetEntityAttributeCommand {
                position: p,
                attribute: Attribute::Item(Item(8)),
            }))
            .unwrap();
        assert!(tasks.is_empty());
    }
    let tile = game.world.tile(&Position(1, 1, 7)).unwrap();
    assert_eq!(tile.entities.len(), 1);
    assert_eq!(tile.entities[0].attributes.item(), Some(Item(7)));
    assert!(game.world.tile(&Position(5, 5, 7)).is_none());
}

#[test]
fn set_and_remove_entity_attribute() {
    let mut game = Game::new();
    let mut world = World::new();
    world.insert(Position(1, 1, 7), tile_of(vec![entity_with(vec![Attribute::Item(Item(7))])]));
    game.process(Command::SetWorld(SetWorldCommand(world))).unwrap();
    let p = Position(1, 1, 7).stack_pos(Some(0));
    game.process(Command::SetEntityAttribute(SetEntityAttributeCommand { position: p, attribute: Attribute::Player(Player(3)) }))
        .unwrap();
    assert_eq!(game.world.entity(&p).unwrap().attributes.player(), Some(Player(3)));
    game.process(Command::RemoveEntityAttribute(RemoveEntityAttributeCommand { position: p, attribute_name: AttributeKind::Item }))
        .unwrap();
    assert_eq!(item_at(&game, p), None);
    assert_eq!(game.world.entity(&p).unwrap().attributes.player(), Some(Player(3)));
}

#[test]
fn add_entity_appends_to_tile_or_skips() {
    let mut game = Game::new();
    let mut world = World::new();
    world.insert(Position(1, 1, 7), tile_of(vec![entity_with(vec![Attribute::Item(Item(7))])]));
    game.process(Command::SetWorld(SetWorldCommand(world))).unwrap();
    game.process(Command::AddEntity(AddEntityCommand {
        position: Position(1, 1, 7),
        entity: entity_with(vec![Attribute::Item(Item(8))]),
    }))
    .unwrap();
    game.process(Command::AddEntity(AddEntityCommand {
        position: Position(4, 4, 7),
        entity: entity_with(vec![Attribute::Item(Item(9))]),
    }))
    .unwrap();
    assert_eq!(item_at(&game, Position(1, 1, 7).stack_pos(Some(1))), Some(8));
    assert!(game.world.tile(&Position(4, 4, 7)).is_none());
}

#[test]
fn game_attribute_is_replaced_by_name() {
    let mut game = Game::new();
    game.process(Command::SetGameAttribute(SetGameAttributeCommand(Attribute::Player(Player(1))))).unwrap();
    game.process(Command::SetGameAttribute(SetGameAttributeCommand(Attribute::Player(Player(2))))).unwrap();
    assert_eq!(game.attributes.attributes.player(), Some(Player(2)));
}

#[test]
fn systems_loaded_builds_starting_map() {
    let game = loaded_game();
    assert_eq!(item_at(&game, Position(128, 128, 7).stack_pos(Some(0))), Some(Items::Grass.to_u16()));
    assert_eq!(item_at(&game, Position(126, 126, 7).stack_pos(Some(0))), Some(431));
    assert_eq!(item_at(&game, Position(130, 126, 7).stack_pos(Some(1))), Some(2772));
    assert!(game.world.tile(&Position(125, 131, 7)).is_some());
    assert!(game.world.tile(&Position(124, 128, 7)).is_none());
    assert!(game.world.tile(&Position(128, 132, 7)).is_none());
    assert!(game.world.tile(&Position(128, 128, 6)).is_none());
}

#[test]
fn use_item_request_flips_lever_before_process_returns() {
    let mut game = loaded_game();
    let lever = Position(130, 126, 7).stack_pos(Some(1));
    emit(&mut game, Event::UseItemPayload(UseItemPayloadEvent { position: lever, item: Item(2772) }));
    assert_eq!(item_at(&game, lever), Some(2773));
    emit(&mut game, Event::UseItemPayload(UseItemPayloadEvent { position: lever, item: Item(2773) }));
    assert_eq!(item_at(&game, lever), Some(2772));
}

#[test]
fn use_item_request_for_other_item_does_nothing() {
    let mut game = loaded_game();
    let lever = Position(130, 126, 7).stack_pos(Some(1));
    emit(&mut game, Event::UseItemPayload(UseItemPayloadEvent { position: lever, item: Item(106) }));
    assert_eq!(item_at(&game, lever), Some(2772));
}

#[test]
fn later_effect_sees_what_earlier_effect_changed() {
    let mut game = loaded_game();
    let lever = Position(130, 126, 7).stack_pos(Some(1));
    game.register(EventKind::Use, Effect::HandleLeverUse);
    // The lever rule now runs twice per use: the second run sees the lever
    // the first one flipped and flips it back.
    emit(&mut game, Event::Use(UseEvent { source: None, target: lever }));
    assert_eq!(item_at(&game, lever), Some(2772));
    game.register(EventKind::Use, Effect::HandleLeverUse);
    emit(&mut game, Event::Use(UseEvent { source: None, target: lever }));
    assert_eq!(item_at(&game, lever), Some(2773));
}

#[test]
fn player_walking_onto_switch_activates_it() {
    let mut game = loaded_game();
    game.process(Command::AddEntity(AddEntityCommand {
        position: Position(127, 126, 7),
        entity: entity_with(vec![Attribute::Player(Player(1))]),
    }))
    .unwrap();
    emit(
        &mut game,
        Event::Move(MoveEvent { from: Position(127, 126, 7), to: Position(126, 126, 7), player: Some(Player(1)) }),
    );
    let switch = Position(126, 126, 7).stack_pos(Some(0));
    assert_eq!(item_at(&game, switch), Some(430));
    assert_eq!(game.world.entity(&Position(126, 126, 7).stack_pos(Some(1))).unwrap().attributes.player(), Some(Player(1)));
    assert_eq!(game.world.tile(&Position(127, 126, 7)).unwrap().entities.len(), 1);
    emit(
        &mut game,
        Event::Move(MoveEvent { from: Position(126, 126, 7), to: Position(127, 126, 7), player: Some(Player(1)) }),
    );
    assert_eq!(item_at(&game, switch), Some(431));
}

#[test]
fn move_request_for_absent_player_does_nothing() {
    let mut game = loaded_game();
    emit(
        &mut game,
        Event::Move(MoveEvent { from: Position(127, 126, 7), to: Position(126, 126, 7), player: Some(Player(5)) }),
    );
    assert_eq!(game.world.tile(&Position(126, 126, 7)).unwrap().entities.len(), 1);
    assert_eq!(game.world.tile(&Position(127, 126, 7)).unwrap().entities.len(), 1);
}

#[test]
fn non_player_on_switch_does_not_activate_it() {
    let mut game = loaded_game();
    game.process(Command::MoveEntity(MoveEntityCommand {
        from: Position(127, 126, 7).stack_pos(Some(0)),
        to: Position(126, 126, 7),
    }))
    .unwrap();
    assert_eq!(item_at(&game, Position(126, 126, 7).stack_pos(Some(0))), Some(431));
    assert_eq!(game.world.entity(&Position(126, 126, 7).stack_pos(Some(0))).unwrap().attributes.action(), Some(Action(Actions::Switch)));
}
