use crate::attribute::{AttributeKind, Direction, Item, Player};
use crate::position::Position;
use vstd::prelude::*;

verus! {

/// Sent once, when all startup registration is done.
#[derive(Clone, Copy, Debug, PartialEq, Eq, Structural)]
pub struct SystemsLoadedEvent;

/// An entity was moved from `from` (its old entity address) to the tile `to`.
#[derive(Clone, Copy, Debug, PartialEq, Eq, Structural)]
pub struct MovedEntityEvent {
    pub from: Position,
    pub to: Position,
}

/// The attribute named `attribute_name` of the entity at `position` was set.
#[derive(Clone, Copy, Debug, PartialEq, Eq, Structural)]
pub struct ChangedEntityEvent {
    pub position: Position,
    pub attribute_name: AttributeKind,
}

/// The attribute named `attribute_name` of the entity at `position` was
/// removed.
#[derive(Clone, Copy, Debug, PartialEq, Eq, Structural)]
pub struct RemovedEntityEvent {
    pub position: Position,
    pub attribute_name: AttributeKind,
}

/// A creature asks to move from `from` to `to`.
#[derive(Clone, Copy, Debug, PartialEq, Eq, Structural)]
pub struct MoveEvent {
    pub from: Position,
    pub to: Position,
    pub player: Option<Player>,
}

/// The entity at `second` came onto the tile of the entity at `first`.
#[derive(Clone, Copy, Debug, PartialEq, Eq, Structural)]
pub struct CollisionEvent {
    pub first: Position,
    pub second: Position,
}

/// The entity at `second` left the tile of the entity at `first`.
#[derive(Clone, Copy, Debug, PartialEq, Eq, Structural)]
pub struct SeparationEvent {
    pub first: Position,
    pub second: Position,
}

/// The entity at `target` is used.
#[derive(Clone, Copy, Debug, PartialEq, Eq, Structural)]
pub struct UseEvent {
    pub source: Option<Position>,
    pub target: Position,
}

#[derive(Clone, Copy, Debug, PartialEq, Eq, Structural)]
pub struct PingPayloadEvent;

#[derive(Clone, Copy, Debug, PartialEq, Eq, Structural)]
pub struct PingBackPayloadEvent;

/// A client asks to move its player one step.
#[derive(Clone, Copy, Debug, PartialEq, Eq, Structural)]
pub struct MovePayloadEvent {
    pub player: Player,
    pub direction: Direction,
}

/// A client asks to use the item `item` at `position`.
#[derive(Clone, Copy, Debug, PartialEq, Eq, Structural)]
pub struct UseItemPayloadEvent {
    pub position: Position,
    pub item: Item,
}

/// The tag of an event: the key under which effects are registered.
#[derive(Clone, Copy, Debug, PartialEq, Eq, Structural, Hash)]
pub enum EventKind {
    SystemsLoaded,
    MovedEntity,
    ChangedEntity,
    RemovedEntity,
    Move,
    Collision,
    Separation,
    Use,
    PingPayload,
    PingBackPayload,
    MovePayload,
    UseItemPayload,
}

impl EventKind {
    /// The derived name: the type's identifier in lower case, words joined by
    /// underscores.
    pub open spec fn derived_name(self) -> Seq<char> {
        match self {
            EventKind::SystemsLoaded => "systems_loaded_event"@,
            EventKind::MovedEntity => "moved_entity_event"@,
            EventKind::ChangedEntity => "changed_entity_event"@,
            EventKind::RemovedEntity => "removed_entity_event"@,
            EventKind::Move => "move_event"@,
            EventKind::Collision => "collision_event"@,
            EventKind::Separation => "separation_event"@,
            EventKind::Use => "use_event"@,
            EventKind::PingPayload => "ping_payload_event"@,
            EventKind::PingBackPayload => "ping_back_payload_event"@,
            EventKind::MovePayload => "move_payload_event"@,
            EventKind::UseItemPayload => "use_item_payload_event"@,
        }
    }

    pub fn name(self) -> (r: &'static str)
        ensures
            r@ == self.derived_name(),
    {
        match self {
            EventKind::SystemsLoaded => "systems_loaded_event",
            EventKind::MovedEntity => "moved_entity_event",
            EventKind::ChangedEntity => "changed_entity_event",
            EventKind::RemovedEntity => "removed_entity_event",
            EventKind::Move => "move_event",
            EventKind::Collision => "collision_event",
            EventKind::Separation => "separation_event",
            EventKind::Use => "use_event",
            EventKind::PingPayload => "ping_payload_event",
            EventKind::PingBackPayload => "ping_back_payload_event",
            EventKind::MovePayload => "move_payload_event",
            EventKind::UseItemPayload => "use_item_payload_event",
        }
    }
}

/// An immutable fact about something that happened.
#[derive(Clone, Copy, Debug, PartialEq, Eq, Structural)]
pub enum Event {
    SystemsLoaded(SystemsLoadedEvent),
    MovedEntity(MovedEntityEvent),
    ChangedEntity(ChangedEntityEvent),
    RemovedEntity(RemovedEntityEvent),
    Move(MoveEvent),
    Collision(CollisionEvent),
    Separation(SeparationEvent),
    Use(UseEvent),
    PingPayload(PingPayloadEvent),
    PingBackPayload(PingBackPayloadEvent),
    MovePayload(MovePayloadEvent),
    UseItemPayload(UseItemPayloadEvent),
}

impl Event {
    pub open spec fn kind_spec(&self) -> EventKind {
        match self {
            Event::SystemsLoaded(_) => EventKind::SystemsLoaded,
            Event::MovedEntity(_) => EventKind::MovedEntity,
            Event::ChangedEntity(_) => EventKind::ChangedEntity,
            Event::RemovedEntity(_) => EventKind::RemovedEntity,
            Event::Move(_) => EventKind::Move,
            Event::Collision(_) => EventKind::Collision,
            Event::Separation(_) => EventKind::Separation,
            Event::Use(_) => EventKind::Use,
            Event::PingPayload(_) => EventKind::PingPayload,
            Event::PingBackPayload(_) => EventKind::PingBackPayload,
            Event::MovePayload(_) => EventKind::MovePayload,
            Event::UseItemPayload(_) => EventKind::UseItemPayload,
        }
    }

    /// The kind of the event, under which its effects are registered.
    #[verifier::when_used_as_spec(kind_spec)]
    pub fn kind(&self) -> (r: EventKind)
        ensures
            r == self.kind_spec(),
    {
        match self {
            Event::SystemsLoaded(_) => EventKind::SystemsLoaded,
            Event::MovedEntity(_) => EventKind::MovedEntity,
            Event::ChangedEntity(_) => EventKind::ChangedEntity,
            Event::RemovedEntity(_) => EventKind::RemovedEntity,
            Event::Move(_) => EventKind::Move,
            Event::Collision(_) => EventKind::Collision,
            Event::Separation(_) => EventKind::Separation,
            Event::Use(_) => EventKind::Use,
            Event::PingPayload(_) => EventKind::PingPayload,
            Event::PingBackPayload(_) => EventKind::PingBackPayload,
            Event::MovePayload(_) => EventKind::MovePayload,
            Event::UseItemPayload(_) => EventKind::UseItemPayload,
        }
    }

    /// The derived name of the event's kind.
    pub fn name(&self) -> (r: &'static str)
        ensures
            r@ == self.kind().derived_name(),
    {
        self.kind().name()
    }
}

} // verus!
