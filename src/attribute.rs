use crate::definitions::{Actions, Directions, PartyShields, Skulls};
use crate::position::Position;
use vstd::prelude::*;

verus! {

/// What using an entity does.
#[derive(Clone, Copy, Debug, PartialEq, Eq, Structural)]
pub struct Action(pub Actions);

/// The item type of an entity (an item id).
#[derive(Clone, Copy, Debug, PartialEq, Eq, Structural)]
pub struct Item(pub u16);

#[derive(Clone, Debug, PartialEq, Eq)]
pub struct Name(pub String);

/// The player id of a player's entity.
#[derive(Clone, Copy, Debug, PartialEq, Eq, Structural, Hash)]
pub struct Player(pub u32);

#[derive(Clone, Copy, Debug, PartialEq, Eq, Structural)]
pub struct LightInfo {
    pub level: u8,
    pub color: u8,
}

#[derive(Clone, Copy, Debug, PartialEq, Eq, Structural)]
pub struct Health {
    pub value: u16,
    pub max: u16,
}

/// The direction a creature faces or moves in.
#[derive(Clone, Copy, Debug, PartialEq, Eq, Structural)]
pub struct Direction(pub Directions);

impl Directions {
    /// Step `(dx, dy)` taken by moving one tile in the direction; `y` grows
    /// southwards.
    pub open spec fn offset(self) -> (int, int) {
        match self {
            Directions::North => (0, -1),
            Directions::East => (1, 0),
            Directions::South => (0, 1),
            Directions::West => (-1, 0),
            Directions::SouthWest => (-1, 1),
            Directions::SouthEast => (1, 1),
            Directions::NorthWest => (-1, -1),
            Directions::NorthEast => (1, -1),
            Directions::Stay => (0, 0),
        }
    }
}

impl Direction {
    /// Whether the step from `position` stays on the map's coordinates.
    pub open spec fn fits(self, position: Position) -> bool {
        0 <= position.x + self.0.offset().0 <= u16::MAX && 0 <= position.y + self.0.offset().1
            <= u16::MAX
    }

    /// `position` moved one tile in this direction; `z` and `stack_pos` stay.
    pub fn apply_to_position(&self, position: Position) -> (r: Position)
        requires
            self.fits(position),
        ensures
            r.x == position.x + self.0.offset().0,
            r.y == position.y + self.0.offset().1,
            r.z == position.z,
            r.stack_pos == position.stack_pos,
    {
        match self.0 {
            Directions::North => position.y(position.y - 1),
            Directions::East => position.x(position.x + 1),
            Directions::South => position.y(position.y + 1),
            Directions::West => position.x(position.x - 1),
            Directions::SouthWest => position.y(position.y + 1).x(position.x - 1),
            Directions::SouthEast => position.y(position.y + 1).x(position.x + 1),
            Directions::NorthWest => position.y(position.y - 1).x(position.x - 1),
            Directions::NorthEast => position.y(position.y - 1).x(position.x + 1),
            Directions::Stay => position,
        }
    }

    /// The direction of a single step (or none) from `first` to `second` on
    /// one floor; `None` when they are not neighbours.
    pub fn between_positions(first: Position, second: Position) -> (r: Option<Direction>)
        ensures
            r matches Some(d) ==> d.0.offset() == (second.x - first.x, second.y - first.y),
            r is Some <==> (second.z == first.z && -1 <= second.x - first.x <= 1 && -1
                <= second.y - first.y <= 1),
    {
        let (dx, dy, dz) = first.diff(second);
        if dz != 0 {
            None
        } else if dx == -1 && dy == -1 {
            Some(Direction(Directions::NorthWest))
        } else if dx == 0 && dy == -1 {
            Some(Direction(Directions::North))
        } else if dx == 1 && dy == -1 {
            Some(Direction(Directions::NorthEast))
        } else if dx == -1 && dy == 0 {
            Some(Direction(Directions::West))
        } else if dx == 0 && dy == 0 {
            Some(Direction(Directions::Stay))
        } else if dx == 1 && dy == 0 {
            Some(Direction(Directions::East))
        } else if dx == -1 && dy == 1 {
            Some(Direction(Directions::SouthWest))
        } else if dx == 0 && dy == 1 {
            Some(Direction(Directions::South))
        } else if dx == 1 && dy == 1 {
            Some(Direction(Directions::SouthEast))
        } else {
            None
        }
    }
}

#[derive(Clone, Copy, Debug, PartialEq, Eq, Structural)]
pub struct Outfit {
    pub look_type: u16,
    pub head: u8,
    pub body: u8,
    pub legs: u8,
    pub feet: u8,
    pub addons: u8,
}

#[derive(Clone, Copy, Debug, PartialEq, Eq, Structural)]
pub struct Speed(pub u16);

#[derive(Clone, Copy, Debug, PartialEq, Eq, Structural)]
pub struct Skull(pub Skulls);

#[derive(Clone, Copy, Debug, PartialEq, Eq, Structural)]
pub struct PartyShield(pub PartyShields);

/// A creature is walking until the given instant, in milliseconds of the
/// game clock.
#[derive(Clone, Copy, Debug, PartialEq, Eq, Structural)]
pub struct Walking {
    pub until_ms: u64,
}

/// The tag of an attribute: the key under which a bag stores it.
#[derive(Clone, Copy, Debug, PartialEq, Eq, Structural, Hash)]
pub enum AttributeKind {
    Position,
    Action,
    Item,
    Name,
    Player,
    LightInfo,
    Health,
    Direction,
    Outfit,
    Speed,
    Skull,
    PartyShield,
    Walking,
}

/// Number of attribute kinds.
pub const KIND_COUNT: usize = 13;

impl AttributeKind {
    /// Slot of the kind in a bag.
    pub open spec fn index(self) -> int {
        match self {
            AttributeKind::Position => 0,
            AttributeKind::Action => 1,
            AttributeKind::Item => 2,
            AttributeKind::Name => 3,
            AttributeKind::Player => 4,
            AttributeKind::LightInfo => 5,
            AttributeKind::Health => 6,
            AttributeKind::Direction => 7,
            AttributeKind::Outfit => 8,
            AttributeKind::Speed => 9,
            AttributeKind::Skull => 10,
            AttributeKind::PartyShield => 11,
            AttributeKind::Walking => 12,
        }
    }

    fn slot(self) -> (r: usize)
        ensures
            r == self.index(),
            r < KIND_COUNT,
    {
        match self {
            AttributeKind::Position => 0,
            AttributeKind::Action => 1,
            AttributeKind::Item => 2,
            AttributeKind::Name => 3,
            AttributeKind::Player => 4,
            AttributeKind::LightInfo => 5,
            AttributeKind::Health => 6,
            AttributeKind::Direction => 7,
            AttributeKind::Outfit => 8,
            AttributeKind::Speed => 9,
            AttributeKind::Skull => 10,
            AttributeKind::PartyShield => 11,
            AttributeKind::Walking => 12,
        }
    }

    /// The derived name: the type's identifier in lower case, words joined by
    /// underscores.
    pub open spec fn derived_name(self) -> Seq<char> {
        match self {
            AttributeKind::Position => "position"@,
            AttributeKind::Action => "action"@,
            AttributeKind::Item => "item"@,
            AttributeKind::Name => "name"@,
            AttributeKind::Player => "player"@,
            AttributeKind::LightInfo => "light_info"@,
            AttributeKind::Health => "health"@,
            AttributeKind::Direction => "direction"@,
            AttributeKind::Outfit => "outfit"@,
            AttributeKind::Speed => "speed"@,
            AttributeKind::Skull => "skull"@,
            AttributeKind::PartyShield => "party_shield"@,
            AttributeKind::Walking => "walking"@,
        }
    }

    pub fn name(self) -> (r: &'static str)
        ensures
            r@ == self.derived_name(),
    {
        match self {
            AttributeKind::Position => "position",
            AttributeKind::Action => "action",
            AttributeKind::Item => "item",
            AttributeKind::Name => "name",
            AttributeKind::Player => "player",
            AttributeKind::LightInfo => "light_info",
            AttributeKind::Health => "health",
            AttributeKind::Direction => "direction",
            AttributeKind::Outfit => "outfit",
            AttributeKind::Speed => "speed",
            AttributeKind::Skull => "skull",
            AttributeKind::PartyShield => "party_shield",
            AttributeKind::Walking => "walking",
        }
    }
}

/// An attribute value of any kind.
#[derive(Clone, Debug, PartialEq, Eq)]
pub enum Attribute {
    Position(Position),
    Action(Action),
    Item(Item),
    Name(Name),
    Player(Player),
    LightInfo(LightInfo),
    Health(Health),
    Direction(Direction),
    Outfit(Outfit),
    Speed(Speed),
    Skull(Skull),
    PartyShield(PartyShield),
    Walking(Walking),
}

impl Attribute {
    pub open spec fn kind_spec(&self) -> AttributeKind {
        match self {
            Attribute::Position(_) => AttributeKind::Position,
            Attribute::Action(_) => AttributeKind::Action,
            Attribute::Item(_) => AttributeKind::Item,
            Attribute::Name(_) => AttributeKind::Name,
            Attribute::Player(_) => AttributeKind::Player,
            Attribute::LightInfo(_) => AttributeKind::LightInfo,
            Attribute::Health(_) => AttributeKind::Health,
            Attribute::Direction(_) => AttributeKind::Direction,
            Attribute::Outfit(_) => AttributeKind::Outfit,
            Attribute::Speed(_) => AttributeKind::Speed,
            Attribute::Skull(_) => AttributeKind::Skull,
            Attribute::PartyShield(_) => AttributeKind::PartyShield,
            Attribute::Walking(_) => AttributeKind::Walking,
        }
    }

    /// The kind of the value, which is its key in a bag.
    #[verifier::when_used_as_spec(kind_spec)]
    pub fn kind(&self) -> (r: AttributeKind)
        ensures
            r == self.kind_spec(),
    {
        match self {
            Attribute::Position(_) => AttributeKind::Position,
            Attribute::Action(_) => AttributeKind::Action,
            Attribute::Item(_) => AttributeKind::Item,
            Attribute::Name(_) => AttributeKind::Name,
            Attribute::Player(_) => AttributeKind::Player,
            Attribute::LightInfo(_) => AttributeKind::LightInfo,
            Attribute::Health(_) => AttributeKind::Health,
            Attribute::Direction(_) => AttributeKind::Direction,
            Attribute::Outfit(_) => AttributeKind::Outfit,
            Attribute::Speed(_) => AttributeKind::Speed,
            Attribute::Skull(_) => AttributeKind::Skull,
            Attribute::PartyShield(_) => AttributeKind::PartyShield,
            Attribute::Walking(_) => AttributeKind::Walking,
        }
    }

    /// The derived name of the value's kind.
    pub fn name(&self) -> (r: &'static str)
        ensures
            r@ == self.kind().derived_name(),
    {
        self.kind().name()
    }
}

/// The `Item` stored in `bag`, read through a checked downcast.
pub open spec fn item_of(bag: Map<AttributeKind, Attribute>) -> Option<Item> {
    if bag.contains_key(AttributeKind::Item) {
        if let Attribute::Item(v) = bag[AttributeKind::Item] { Some(v) } else { None }
    } else {
        None
    }
}

/// The `Action` stored in `bag`, read through a checked downcast.
pub open spec fn action_of(bag: Map<AttributeKind, Attribute>) -> Option<Action> {
    if bag.contains_key(AttributeKind::Action) {
        if let Attribute::Action(v) = bag[AttributeKind::Action] { Some(v) } else { None }
    } else {
        None
    }
}

/// The `Player` stored in `bag`, read through a checked downcast.
pub open spec fn player_of(bag: Map<AttributeKind, Attribute>) -> Option<Player> {
    if bag.contains_key(AttributeKind::Player) {
        if let Attribute::Player(v) = bag[AttributeKind::Player] { Some(v) } else { None }
    } else {
        None
    }
}

/// The `Speed` stored in `bag`, read through a checked downcast.
pub open spec fn speed_of(bag: Map<AttributeKind, Attribute>) -> Option<Speed> {
    if bag.contains_key(AttributeKind::Speed) {
        if let Attribute::Speed(v) = bag[AttributeKind::Speed] { Some(v) } else { None }
    } else {
        None
    }
}

/// The `Walking` stored in `bag`, read through a checked downcast.
pub open spec fn walking_of(bag: Map<AttributeKind, Attribute>) -> Option<Walking> {
    if bag.contains_key(AttributeKind::Walking) {
        if let Attribute::Walking(v) = bag[AttributeKind::Walking] { Some(v) } else { None }
    } else {
        None
    }
}

/// A name-keyed bag of attributes: at most one value of each kind.
pub struct AttributeBag {
    slots: [Option<Attribute>; 13],
}

impl AttributeBag {
    /// What the bag holds, keyed by kind.
    pub closed spec fn view(&self) -> Map<AttributeKind, Attribute> {
        Map::new(
            |k: AttributeKind| self.slots@[k.index()] is Some,
            |k: AttributeKind| self.slots@[k.index()]->Some_0,
        )
    }

    /// Every stored value sits under its own kind.
    pub open spec fn wf(&self) -> bool {
        forall|k: AttributeKind| #[trigger] self@.contains_key(k) ==> self@[k].kind() == k
    }

    pub fn new() -> (r: AttributeBag)
        ensures
            r@ == Map::<AttributeKind, Attribute>::empty(),
            r.wf(),
    {
        let r = AttributeBag {
            slots: [None, None, None, None, None, None, None, None, None, None, None, None, None],
        };
        assert(r@ =~= Map::<AttributeKind, Attribute>::empty());
        r
    }

    /// The value stored under `kind`, if any.
    pub fn get(&self, kind: AttributeKind) -> (r: Option<&Attribute>)
        ensures
            match r {
                Some(a) => self@.contains_key(kind) && self@[kind] == *a,
                None => !self@.contains_key(kind),
            },
    {
        self.slots[kind.slot()].as_ref()
    }

    /// Stores `attribute` under its kind, replacing what was there.
    pub fn set(&mut self, attribute: Attribute)
        ensures
            final(self)@ == old(self)@.insert(attribute.kind(), attribute),
            old(self).wf() ==> final(self).wf(),
    {
        let i = attribute.kind().slot();
        self.slots[i] = Some(attribute);
        assert(final(self)@ =~= old(self)@.insert(attribute.kind(), attribute));
    }

    /// Drops the value stored under `kind`; returns whether there was one.
    pub fn remove(&mut self, kind: AttributeKind) -> (r: bool)
        ensures
            final(self)@ == old(self)@.remove(kind),
            r == old(self)@.contains_key(kind),
            old(self).wf() ==> final(self).wf(),
    {
        let i = kind.slot();
        let had = self.slots[i].is_some();
        self.slots[i] = None;
        assert(final(self)@ =~= old(self)@.remove(kind));
        had
    }
    pub fn item(&self) -> (r: Option<Item>)
        ensures
            r == item_of(self@),
    {
        match self.get(AttributeKind::Item) {
            Some(Attribute::Item(v)) => Some(*v),
            _ => None,
        }
    }

    pub fn action(&self) -> (r: Option<Action>)
        ensures
            r == action_of(self@),
    {
        match self.get(AttributeKind::Action) {
            Some(Attribute::Action(v)) => Some(*v),
            _ => None,
        }
    }

    pub fn player(&self) -> (r: Option<Player>)
        ensures
            r == player_of(self@),
    {
        match self.get(AttributeKind::Player) {
            Some(Attribute::Player(v)) => Some(*v),
            _ => None,
        }
    }

    pub fn speed(&self) -> (r: Option<Speed>)
        ensures
            r == speed_of(self@),
    {
        match self.get(AttributeKind::Speed) {
            Some(Attribute::Speed(v)) => Some(*v),
            _ => None,
        }
    }

    pub fn walking(&self) -> (r: Option<Walking>)
        ensures
            r == walking_of(self@),
    {
        match self.get(AttributeKind::Walking) {
            Some(Attribute::Walking(v)) => Some(*v),
            _ => None,
        }
    }
}

/// Reading back what was set: after `set(a)` the bag holds `a` under `a`'s
/// name, and a second `set` of the same kind replaces the first completely.
pub proof fn lemma_set_then_get(bag: Map<AttributeKind, Attribute>, a: Attribute, b: Attribute)
    requires
        a.kind() == b.kind(),
    ensures
        bag.insert(a.kind(), a).contains_key(a.kind()),
        bag.insert(a.kind(), a)[a.kind()] == a,
        bag.insert(a.kind(), a).insert(b.kind(), b) == bag.insert(b.kind(), b),
        bag.insert(a.kind(), a).insert(b.kind(), b)[a.kind()] == b,
{
    assert(bag.insert(a.kind(), a).insert(b.kind(), b) =~= bag.insert(b.kind(), b));
}

/// Names are derived from kinds, so two different kinds never share a name.
pub proof fn lemma_names_distinct(k1: AttributeKind, k2: AttributeKind)
    requires
        k1 != k2,
    ensures
        k1.derived_name() != k2.derived_name(),
{
    reveal_strlit("position");
    reveal_strlit("action");
    reveal_strlit("item");
    reveal_strlit("name");
    reveal_strlit("player");
    reveal_strlit("light_info");
    reveal_strlit("health");
    reveal_strlit("direction");
    reveal_strlit("outfit");
    reveal_strlit("speed");
    reveal_strlit("skull");
    reveal_strlit("party_shield");
    reveal_strlit("walking");
    if k1.derived_name() == k2.derived_name() {
        assert(k1.derived_name()[0] == k2.derived_name()[0]);
        assert(k1.derived_name().len() == k2.derived_name().len());
        assert(k1.derived_name()[1] == k2.derived_name()[1]);
    }
}

} // verus!
