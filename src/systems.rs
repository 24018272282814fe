use crate::attribute::{
    action_of, item_of, player_of, Action, Attribute, AttributeBag, AttributeKind, Item, Player,
};
use crate::command::{
    views, Command, CommandView, EmitEventCommand, MoveEntityCommand, SetEntityAttributeCommand,
    SetWorldCommand,
};
use crate::definitions::{Actions, Items};
use crate::event::{CollisionEvent, Event, SeparationEvent, UseEvent};
use crate::position::{stack_index, to_stack_index, Position};
use crate::world::{entity_in, BagView, Entity, Tile, TileView, World};
use vstd::prelude::*;

verus! {

/// A producer that runs beside the game and feeds what it yields back as
/// commands: here, one that yields a single event.
#[derive(Clone, Copy, Debug, PartialEq, Eq, Structural)]
pub enum Task {
    Yield(Event),
}

/// The effects of the game's rules, each registered under an event kind.
#[derive(Clone, Copy, Debug, PartialEq, Eq, Structural)]
pub enum Effect {
    /// A request to use an item becomes a `UseEvent` when the item is there.
    HandleUseItemPayload,
    /// Using a lever flips it.
    HandleLeverUse,
    /// A player stepping onto a switch activates it.
    HandleSwitchCollision,
    /// A player leaving a switch deactivates it.
    HandleSwitchSeparation,
    /// A move request moves the player's entity.
    HandleMove,
    /// After a move, every entity left behind is separated from the mover and
    /// every entity under it collides with it.
    HandleMovedEntity,
    /// Once the systems are loaded, the fixed starting map replaces the world.
    LoadHardcodedMap,
}

/// What an effect returns: commands to apply now and tasks to start.
pub type Reaction = Option<(Seq<CommandView>, Seq<Task>)>;

pub open spec fn no_commands() -> Reaction {
    Some((Seq::<CommandView>::empty(), Seq::<Task>::empty()))
}

pub open spec fn one_command(c: CommandView) -> Reaction {
    Some((seq![c], Seq::<Task>::empty()))
}

/// The lever position that `id` flips to.
pub open spec fn flipped_lever(id: u16) -> Option<u16> {
    if id == Items::LeverLeft.id() {
        Some(Items::LeverRight.id())
    } else if id == Items::LeverRight.id() {
        Some(Items::LeverLeft.id())
    } else {
        None
    }
}

/// Index of the first bag in `entities` that holds `Player(id)`.
pub open spec fn first_player_index(entities: Seq<BagView>, id: u32) -> Option<int> {
    if exists|i: int| 0 <= i < entities.len() && player_of(entities[i]) == Some(Player(id)) {
        Some(
            choose|i: int|
                0 <= i < entities.len() && player_of(entities[i]) == Some(Player(id)) && forall|j: int|
                    0 <= j < i ==> player_of(entities[j]) != Some(Player(id)),
        )
    } else {
        None
    }
}

/// The switch reaction: when the entity at `first` is a switch and the one
/// at `second` a player, the switch becomes item `item`.
pub open spec fn switch_reaction(world: Map<Position, TileView>, first: Position, second: Position, item: u16) -> Reaction {
    match entity_in(world, first) {
        None => None,
        Some(switch) => match action_of(switch) {
            None => None,
            Some(Action(Actions::Switch)) => match entity_in(world, second) {
                None => None,
                Some(other) => if player_of(other) is Some {
                    one_command(CommandView::SetEntityAttribute(first, Attribute::Item(Item(item))))
                } else {
                    None
                },
            },
            Some(_) => no_commands(),
        },
    }
}

/// A separation of each of the first `n` entities of the tile `from` from
/// the entity at `mover`.
pub open spec fn separation_events(from: Position, mover: Position, n: nat) -> Seq<CommandView> {
    Seq::new(
        n,
        |i: int|
            CommandView::EmitEvent(
                Event::Separation(SeparationEvent { first: from.stack_pos(Some(stack_index(i))), second: mover }),
            ),
    )
}

/// A collision of each of the first `n` entities of the tile `to` with the
/// entity at `mover`.
pub open spec fn collision_events(to: Position, mover: Position, n: nat) -> Seq<CommandView> {
    Seq::new(
        n,
        |i: int|
            CommandView::EmitEvent(
                Event::Collision(CollisionEvent { first: to.stack_pos(Some(stack_index(i))), second: mover }),
            ),
    )
}

/// The events that a move from `from` to `to` causes, given the tiles'
/// entity counts after the move: the mover is the top entity of `to`.
pub open spec fn moved_entity_events(from: Position, to: Position, from_len: nat, to_len: nat) -> Seq<CommandView> {
    let mover = to.stack_pos(Some(stack_index(to_len - 1)));
    separation_events(from, mover, from_len) + collision_events(to, mover, (to_len - 1) as nat)
}

/// What `effect` returns for `event`, given the game's attributes and the
/// world.
pub open spec fn react(effect: Effect, event: Event, attributes: BagView, world: Map<Position, TileView>) -> Reaction {
    match (effect, event) {
        (Effect::HandleUseItemPayload, Event::UseItemPayload(e)) => match entity_in(world, e.position) {
            Some(bag) => match item_of(bag) {
                Some(it) => if it.0 == e.item.0 {
                    one_command(CommandView::EmitEvent(Event::Use(UseEvent { source: None, target: e.position })))
                } else {
                    no_commands()
                },
                None => no_commands(),
            },
            None => no_commands(),
        },
        (Effect::HandleLeverUse, Event::Use(e)) => match entity_in(world, e.target) {
            Some(bag) => match (action_of(bag), item_of(bag)) {
                (Some(Action(Actions::Lever)), Some(it)) => match flipped_lever(it.0) {
                    Some(new_id) => one_command(CommandView::SetEntityAttribute(e.target, Attribute::Item(Item(new_id)))),
                    None => no_commands(),
                },
                _ => no_commands(),
            },
            None => no_commands(),
        },
        (Effect::HandleSwitchCollision, Event::Collision(e)) => switch_reaction(
            world,
            e.first,
            e.second,
            Items::StoneSwitchActivated.id(),
        ),
        (Effect::HandleSwitchSeparation, Event::Separation(e)) => switch_reaction(
            world,
            e.first,
            e.second,
            Items::StoneSwitch.id(),
        ),
        (Effect::HandleMove, Event::Move(e)) => {
            let k = e.from.tile_address();
            if world.contains_key(k) && e.player is Some {
                match first_player_index(world[k].1, e.player->Some_0.0) {
                    Some(i) => one_command(CommandView::MoveEntity(e.from.stack_pos(Some(stack_index(i))), e.to)),
                    None => no_commands(),
                }
            } else {
                no_commands()
            }
        },
        (Effect::LoadHardcodedMap, Event::SystemsLoaded(_)) => one_command(CommandView::SetWorld(hardcoded_map())),
        (Effect::HandleMovedEntity, Event::MovedEntity(e)) => {
            let kf = e.from.tile_address();
            let kt = e.to.tile_address();
            if world.contains_key(kf) && world.contains_key(kt) && world[kt].1.len() > 0 {
                Some((moved_entity_events(e.from, e.to, world[kf].1.len(), world[kt].1.len()), Seq::<Task>::empty()))
            } else {
                None
            }
        },
        _ => None,
    }
}

/// Floor of the starting map.
pub const FLOOR: u8 = 7;

/// Lowest and highest `x` and `y` of the starting map: a square of seven
/// tiles around `(128, 128)`.
pub const MAP_LOW: u16 = 125;

pub const MAP_HIGH: u16 = 131;

/// The bag of an entity with the given item and, if any, action.
pub open spec fn item_bag(item: Items, action: Option<Actions>) -> BagView {
    let bag = BagView::empty().insert(AttributeKind::Item, Attribute::Item(Item(item.id())));
    match action {
        Some(a) => bag.insert(AttributeKind::Action, Attribute::Action(Action(a))),
        None => bag,
    }
}

/// The entities of the starting map's tile at `(x, y)`: grass everywhere,
/// a lever on the grass at `(130, 126)`, and a stone switch alone at
/// `(126, 126)`.
pub open spec fn hardcoded_entities(x: u16, y: u16) -> Seq<BagView> {
    if x == 126 && y == 126 {
        seq![item_bag(Items::StoneSwitch, Some(Actions::Switch))]
    } else if x == 130 && y == 126 {
        seq![item_bag(Items::Grass, None), item_bag(Items::LeverLeft, Some(Actions::Lever))]
    } else {
        seq![item_bag(Items::Grass, None)]
    }
}

pub open spec fn on_map(p: Position) -> bool {
    MAP_LOW <= p.x <= MAP_HIGH && MAP_LOW <= p.y <= MAP_HIGH && p.z == FLOOR && p.stack_pos is None
}

/// The starting map.
pub open spec fn hardcoded_map() -> Map<Position, TileView> {
    Map::new(|p: Position| on_map(p), |p: Position| (BagView::empty(), hardcoded_entities(p.x, p.y)))
}

/// The starting map's tiles before `(x, y)`, columns by `x` first.
spec fn map_before(x: int, y: int) -> Map<Position, TileView> {
    Map::new(
        |p: Position| on_map(p) && (p.x < x || (p.x == x && p.y < y)),
        |p: Position| (BagView::empty(), hardcoded_entities(p.x, p.y)),
    )
}

fn item_entity(item: Items, action: Option<Actions>) -> (r: Entity)
    ensures
        r@ == item_bag(item, action),
{
    let mut e = Entity::new();
    e.attributes.set(Attribute::Item(Item(item.to_u16())));
    match action {
        Some(a) => e.attributes.set(Attribute::Action(Action(a))),
        None => {},
    }
    e
}

fn hardcoded_tile(x: u16, y: u16) -> (r: Tile)
    ensures
        r@ == (BagView::empty(), hardcoded_entities(x, y)),
{
    let mut entities: Vec<Entity> = Vec::new();
    if x == 126 && y == 126 {
        entities.push(item_entity(Items::StoneSwitch, Some(Actions::Switch)));
    } else {
        entities.push(item_entity(Items::Grass, None));
        if x == 130 && y == 126 {
            entities.push(item_entity(Items::LeverLeft, Some(Actions::Lever)));
        }
    }
    let r = Tile { attributes: AttributeBag::new(), entities };
    proof {
        assert(r@.1 =~= hardcoded_entities(x, y));
    }
    r
}

/// Builds the starting map.
pub fn load_hardcoded_map() -> (r: World)
    ensures
        r.wf(),
        r@ == hardcoded_map(),
{
    let mut world = World::new();
    let mut x: u16 = MAP_LOW;
    proof {
        assert(world@ =~= map_before(x as int, MAP_LOW as int));
    }
    while x <= MAP_HIGH
        invariant
            world.wf(),
            MAP_LOW <= x <= MAP_HIGH + 1,
            world@ == map_before(x as int, MAP_LOW as int),
        decreases MAP_HIGH + 1 - x,
    {
        let mut y: u16 = MAP_LOW;
        while y <= MAP_HIGH
            invariant
                world.wf(),
                MAP_LOW <= x <= MAP_HIGH,
                MAP_LOW <= y <= MAP_HIGH + 1,
                world@ == map_before(x as int, y as int),
            decreases MAP_HIGH + 1 - y,
        {
            let p = Position(x, y, FLOOR);
            world.insert(p, hardcoded_tile(x, y));
            proof {
                assert(world@ =~= map_before(x as int, y + 1));
            }
            y = y + 1;
        }
        proof {
            assert(map_before(x as int, y as int) =~= map_before(x + 1, MAP_LOW as int));
        }
        x = x + 1;
    }
    proof {
        assert(world@ =~= hardcoded_map());
    }
    world
}

fn reply(commands: Vec<Command>) -> (r: Option<(Vec<Command>, Vec<Task>)>)
    ensures
        r matches Some((c, t)) && c@ == commands@ && t@.len() == 0,
{
    Some((commands, Vec::new()))
}

fn switch_effect(world: &World, first: &Position, second: &Position, item: u16) -> (r: Option<(Vec<Command>, Vec<Task>)>)
    requires
        world.wf(),
    ensures
        match r {
            None => switch_reaction(world@, *first, *second, item) is None,
            Some((c, t)) => switch_reaction(world@, *first, *second, item) == Some((views(c@), t@))
                && forall|i: int| 0 <= i < c@.len() ==> (#[trigger] c@[i]).wf(),
        },
{
    let switch = match world.entity(first) {
        Some(e) => e,
        None => return None,
    };
    match switch.attributes.action() {
        None => None,
        Some(Action(Actions::Switch)) => {
            let other = match world.entity(second) {
                Some(e) => e,
                None => return None,
            };
            if other.attributes.player().is_none() {
                return None;
            }
            let command = Command::SetEntityAttribute(
                SetEntityAttributeCommand { position: *first, attribute: Attribute::Item(Item(item)) },
            );
            let r = reply(vec![command]);
            proof {
                assert(views(r->Some_0.0@) =~= seq![command@]);
            }
            r
        },
        Some(_) => {
            let r = reply(Vec::new());
            proof {
                assert(views(r->Some_0.0@) =~= Seq::<CommandView>::empty());
            }
            r
        },
    }
}

/// Index of the first entity in `entities` that is the player `id`.
fn first_player(entities: &Vec<Entity>, id: u32) -> (r: Option<usize>)
    ensures
        match r {
            Some(i) => first_player_index(entities@.map_values(|e: Entity| e@), id) == Some(i as int),
            None => first_player_index(entities@.map_values(|e: Entity| e@), id) is None,
        },
{
    let ghost bags = entities@.map_values(|e: Entity| e@);
    let mut i: usize = 0;
    while i < entities.len()
        invariant
            i <= entities@.len(),
            bags == entities@.map_values(|e: Entity| e@),
            forall|j: int| 0 <= j < i ==> player_of(bags[j]) != Some(Player(id)),
        decreases entities@.len() - i,
    {
        let found = match entities[i].attributes.player() {
            Some(p) => p.0 == id,
            None => false,
        };
        if found {
            proof {
                let k = choose|k: int|
                    0 <= k < bags.len() && player_of(bags[k]) == Some(Player(id)) && forall|j: int|
                        0 <= j < k ==> player_of(bags[j]) != Some(Player(id));
                assert(player_of(bags[i as int]) == Some(Player(id)));
                if k < i {
                } else if k > i {
                    assert(player_of(bags[i as int]) != Some(Player(id)));
                }
            }
            return Some(i);
        }
        i = i + 1;
    }
    None
}

fn moved_entity_effect(world: &World, from: Position, to: Position) -> (r: Option<(Vec<Command>, Vec<Task>)>)
    requires
        world.wf(),
    ensures
        match r {
            None => react(Effect::HandleMovedEntity, Event::MovedEntity(crate::event::MovedEntityEvent { from, to }), BagView::empty(), world@) is None,
            Some((c, t)) => react(Effect::HandleMovedEntity, Event::MovedEntity(crate::event::MovedEntityEvent { from, to }), BagView::empty(), world@)
                == Some((views(c@), t@)) && forall|i: int| 0 <= i < c@.len() ==> (#[trigger] c@[i]).wf(),
        },
{
    let from_tile = match world.tile(&from) {
        Some(t) => t,
        None => return None,
    };
    let to_tile = match world.tile(&to) {
        Some(t) => t,
        None => return None,
    };
    if to_tile.entities.len() == 0 {
        return None;
    }
    let last = to_tile.entities.len() - 1;
    let mover = to.stack_pos(Some(to_stack_index(last)));
    let ghost from_len = from_tile.entities@.len();
    let ghost to_len = to_tile.entities@.len();
    let mut commands: Vec<Command> = Vec::new();
    let mut i: usize = 0;
    while i < from_tile.entities.len()
        invariant
            i <= from_tile.entities@.len(),
            views(commands@) == separation_events(from, mover, i as nat),
            forall|j: int| 0 <= j < commands@.len() ==> (#[trigger] commands@[j]).wf(),
        decreases from_tile.entities@.len() - i,
    {
        let event = SeparationEvent { first: from.stack_pos(Some(to_stack_index(i))), second: mover };
        let ghost before = commands@;
        commands.push(Command::EmitEvent(EmitEventCommand(Event::Separation(event))));
        proof {
            assert(views(before) == separation_events(from, mover, i as nat));
            assert(separation_events(from, mover, i as nat).len() == i);
            assert(views(before).len() == i);
            assert(before.len() == i);
            assert(commands@.len() == i + 1);
            assert(commands@[i as int]@ == separation_events(from, mover, (i + 1) as nat)[i as int]);
            assert forall|k: int| 0 <= k < i implies #[trigger] views(commands@)[k] == views(before)[k] by {
                assert(commands@[k] == before[k]);
            }
            assert(views(commands@) =~= separation_events(from, mover, (i + 1) as nat));
        }
        i = i + 1;
    }
    let mut j: usize = 0;
    while j < last
        invariant
            j <= last,
            views(commands@) == separation_events(from, mover, from_tile.entities@.len()) + collision_events(to, mover, j as nat),
            forall|k: int| 0 <= k < commands@.len() ==> (#[trigger] commands@[k]).wf(),
        decreases last - j,
    {
        let event = CollisionEvent { first: to.stack_pos(Some(to_stack_index(j))), second: mover };
        let ghost before = commands@;
        commands.push(Command::EmitEvent(EmitEventCommand(Event::Collision(event))));
        proof {
            let seps = separation_events(from, mover, from_tile.entities@.len());
            assert(views(before) == seps + collision_events(to, mover, j as nat));
            assert(views(before).len() == seps.len() + j);
            assert(commands@.len() == seps.len() + j + 1);
            assert forall|k: int| 0 <= k < before.len() implies #[trigger] views(commands@)[k] == views(before)[k] by {
                assert(commands@[k] == before[k]);
            }
            assert(views(commands@) =~= separation_events(from, mover, from_tile.entities@.len()) + collision_events(to, mover, (j + 1) as nat));
        }
        j = j + 1;
    }
    proof {
        assert(views(commands@) =~= moved_entity_events(from, to, from_len, to_len));
    }
    reply(commands)
}

fn move_effect(world: &World, e: &crate::event::MoveEvent) -> (r: Option<(Vec<Command>, Vec<Task>)>)
    requires
        world.wf(),
    ensures
        match r {
            None => react(Effect::HandleMove, Event::Move(*e), BagView::empty(), world@) is None,
            Some((c, t)) => react(Effect::HandleMove, Event::Move(*e), BagView::empty(), world@)
                == Some((views(c@), t@)) && forall|i: int| 0 <= i < c@.len() ==> (#[trigger] c@[i]).wf(),
        },
{
    let empty = reply(Vec::new());
    proof {
        assert(views(empty->Some_0.0@) =~= Seq::<CommandView>::empty());
    }
    let tile = match world.tile(&e.from) {
        Some(t) => t,
        None => return empty,
    };
    let id = match e.player {
        Some(p) => p.0,
        None => return empty,
    };
    match first_player(&tile.entities, id) {
        Some(i) => {
            let command = Command::MoveEntity(
                MoveEntityCommand { from: e.from.stack_pos(Some(to_stack_index(i))), to: e.to },
            );
            let r = reply(vec![command]);
            proof {
                assert(views(r->Some_0.0@) =~= seq![command@]);
            }
            r
        },
        None => empty,
    }
}

/// Runs `effect` on `event`.
pub fn run_effect(effect: Effect, event: &Event, attributes: &AttributeBag, world: &World) -> (r: Option<(Vec<Command>, Vec<Task>)>)
    requires
        world.wf(),
    ensures
        match r {
            None => react(effect, *event, attributes@, world@) is None,
            Some((c, t)) => react(effect, *event, attributes@, world@) == Some((views(c@), t@))
                && forall|i: int| 0 <= i < c@.len() ==> (#[trigger] c@[i]).wf(),
        },
{
    let empty = reply(Vec::new());
    proof {
        assert(views(empty->Some_0.0@) =~= Seq::<CommandView>::empty());
    }
    match (effect, event) {
        (Effect::HandleUseItemPayload, Event::UseItemPayload(e)) => {
            let bag = match world.entity(&e.position) {
                Some(entity) => entity,
                None => return empty,
            };
            match bag.attributes.item() {
                Some(it) => if it.0 == e.item.0 {
                    let command = Command::EmitEvent(
                        EmitEventCommand(Event::Use(UseEvent { source: None, target: e.position })),
                    );
                    let r = reply(vec![command]);
                    proof {
                        assert(views(r->Some_0.0@) =~= seq![command@]);
                    }
                    r
                } else {
                    empty
                },
                None => empty,
            }
        },
        (Effect::HandleLeverUse, Event::Use(e)) => {
            let bag = match world.entity(&e.target) {
                Some(entity) => entity,
                None => return empty,
            };
            match (bag.attributes.action(), bag.attributes.item()) {
                (Some(Action(Actions::Lever)), Some(it)) => {
                    let new_item = match Items::from_u16(it.0) {
                        Some(Items::LeverLeft) => Items::LeverRight,
                        Some(Items::LeverRight) => Items::LeverLeft,
                        _ => return empty,
                    };
                    let command = Command::SetEntityAttribute(
                        SetEntityAttributeCommand {
                            position: e.target,
                            attribute: Attribute::Item(Item(new_item.to_u16())),
                        },
                    );
                    let r = reply(vec![command]);
                    proof {
                        assert(views(r->Some_0.0@) =~= seq![command@]);
                    }
                    r
                },
                _ => empty,
            }
        },
        (Effect::HandleSwitchCollision, Event::Collision(e)) => switch_effect(
            world,
            &e.first,
            &e.second,
            Items::StoneSwitchActivated.to_u16(),
        ),
        (Effect::HandleSwitchSeparation, Event::Separation(e)) => switch_effect(
            world,
            &e.first,
            &e.second,
            Items::StoneSwitch.to_u16(),
        ),
        (Effect::HandleMove, Event::Move(e)) => move_effect(world, e),
        (Effect::HandleMovedEntity, Event::MovedEntity(e)) => moved_entity_effect(world, e.from, e.to),
        (Effect::LoadHardcodedMap, Event::SystemsLoaded(_)) => {
            let command = Command::SetWorld(SetWorldCommand(load_hardcoded_map()));
            let r = reply(vec![command]);
            proof {
                assert(views(r->Some_0.0@) =~= seq![command@]);
            }
            r
        },
        _ => None,
    }
}

} // verus!
