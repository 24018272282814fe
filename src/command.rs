use crate::attribute::{Attribute, AttributeKind};
use crate::event::Event;
use crate::position::Position;
use crate::world::{BagView, Entity, TileView, World};
use vstd::prelude::*;

verus! {

/// Dispatches the event; changes nothing by itself.
pub struct EmitEventCommand(pub Event);

/// Stores an attribute in the game's own bag.
pub struct SetGameAttributeCommand(pub Attribute);

/// Replaces the whole world.
pub struct SetWorldCommand(pub World);

/// Appends `entity` to the tile at `position`.
pub struct AddEntityCommand {
    pub position: Position,
    pub entity: Entity,
}

/// Stores `attribute` in the bag of the entity at `position`.
pub struct SetEntityAttributeCommand {
    pub position: Position,
    pub attribute: Attribute,
}

/// Drops the attribute named `attribute_name` from the entity at `position`.
pub struct RemoveEntityAttributeCommand {
    pub position: Position,
    pub attribute_name: AttributeKind,
}

/// Moves the entity at `from` to the top of the tile at `to`.
pub struct MoveEntityCommand {
    pub from: Position,
    pub to: Position,
}

/// A request to change the game state, applied by the game alone.
pub enum Command {
    EmitEvent(EmitEventCommand),
    SetGameAttribute(SetGameAttributeCommand),
    SetWorld(SetWorldCommand),
    AddEntity(AddEntityCommand),
    SetEntityAttribute(SetEntityAttributeCommand),
    RemoveEntityAttribute(RemoveEntityAttributeCommand),
    MoveEntity(MoveEntityCommand),
}

/// A command with the world and entity it carries seen as their views.
pub enum CommandView {
    EmitEvent(Event),
    SetGameAttribute(Attribute),
    SetWorld(Map<Position, TileView>),
    AddEntity(Position, BagView),
    SetEntityAttribute(Position, Attribute),
    RemoveEntityAttribute(Position, AttributeKind),
    MoveEntity(Position, Position),
}

impl Command {
    pub open spec fn view(&self) -> CommandView {
        match self {
            Command::EmitEvent(c) => CommandView::EmitEvent(c.0),
            Command::SetGameAttribute(c) => CommandView::SetGameAttribute(c.0),
            Command::SetWorld(c) => CommandView::SetWorld(c.0@),
            Command::AddEntity(c) => CommandView::AddEntity(c.position, c.entity@),
            Command::SetEntityAttribute(c) => CommandView::SetEntityAttribute(c.position, c.attribute),
            Command::RemoveEntityAttribute(c) => CommandView::RemoveEntityAttribute(c.position, c.attribute_name),
            Command::MoveEntity(c) => CommandView::MoveEntity(c.from, c.to),
        }
    }

    /// Whether the world and entities the command carries are well formed.
    pub open spec fn wf(&self) -> bool {
        match self {
            Command::SetWorld(c) => c.0.wf(),
            _ => true,
        }
    }
}

/// The views of a sequence of commands.
pub open spec fn views(commands: Seq<Command>) -> Seq<CommandView> {
    commands.map_values(|c: Command| c@)
}

} // verus!
