use vstd::prelude::*;

verus! {

/// The eight compass directions, and `Stay` for "no movement".
#[derive(Clone, Copy, Debug, PartialEq, Eq, Structural, Hash)]
pub enum Directions {
    North,
    East,
    South,
    West,
    SouthWest,
    SouthEast,
    NorthWest,
    NorthEast,
    Stay,
}

impl Directions {
    /// Wire code of the direction.
    pub open spec fn code(self) -> u8 {
        match self {
            Directions::North => 0,
            Directions::East => 1,
            Directions::South => 2,
            Directions::West => 3,
            Directions::SouthWest => 4,
            Directions::SouthEast => 5,
            Directions::NorthWest => 6,
            Directions::NorthEast => 7,
            Directions::Stay => 8,
        }
    }

    pub fn to_u8(self) -> (r: u8)
        ensures
            r == self.code(),
    {
        match self {
            Directions::North => 0,
            Directions::East => 1,
            Directions::South => 2,
            Directions::West => 3,
            Directions::SouthWest => 4,
            Directions::SouthEast => 5,
            Directions::NorthWest => 6,
            Directions::NorthEast => 7,
            Directions::Stay => 8,
        }
    }
}

#[derive(Clone, Copy, Debug, PartialEq, Eq, Structural, Hash)]
pub enum Skulls {
    NoSkull,
    Yellow,
    Green,
    White,
    Red,
    Black,
    Orange,
}

impl Skulls {
    pub open spec fn code(self) -> u8 {
        match self {
            Skulls::NoSkull => 0,
            Skulls::Yellow => 1,
            Skulls::Green => 2,
            Skulls::White => 3,
            Skulls::Red => 4,
            Skulls::Black => 5,
            Skulls::Orange => 6,
        }
    }

    pub fn to_u8(self) -> (r: u8)
        ensures
            r == self.code(),
    {
        match self {
            Skulls::NoSkull => 0,
            Skulls::Yellow => 1,
            Skulls::Green => 2,
            Skulls::White => 3,
            Skulls::Red => 4,
            Skulls::Black => 5,
            Skulls::Orange => 6,
        }
    }
}

#[derive(Clone, Copy, Debug, PartialEq, Eq, Structural, Hash)]
pub enum PartyShields {
    NoShield,
    WhiteYelow,
    WhiteBlue,
    Blue,
    Yellow,
}

impl PartyShields {
    pub open spec fn code(self) -> u8 {
        match self {
            PartyShields::NoShield => 0,
            PartyShields::WhiteYelow => 1,
            PartyShields::WhiteBlue => 2,
            PartyShields::Blue => 3,
            PartyShields::Yellow => 4,
        }
    }

    pub fn to_u8(self) -> (r: u8)
        ensures
            r == self.code(),
    {
        match self {
            PartyShields::NoShield => 0,
            PartyShields::WhiteYelow => 1,
            PartyShields::WhiteBlue => 2,
            PartyShields::Blue => 3,
            PartyShields::Yellow => 4,
        }
    }
}

#[derive(Clone, Copy, Debug, PartialEq, Eq, Structural, Hash)]
pub enum SkillType {
    Fist,
    Club,
    Sword,
    Axe,
    Distance,
    Shield,
    Fishing,
}

impl SkillType {
    pub open spec fn code(self) -> u8 {
        match self {
            SkillType::Fist => 0,
            SkillType::Club => 1,
            SkillType::Sword => 2,
            SkillType::Axe => 3,
            SkillType::Distance => 4,
            SkillType::Shield => 5,
            SkillType::Fishing => 6,
        }
    }

    pub fn to_u8(self) -> (r: u8)
        ensures
            r == self.code(),
    {
        match self {
            SkillType::Fist => 0,
            SkillType::Club => 1,
            SkillType::Sword => 2,
            SkillType::Axe => 3,
            SkillType::Distance => 4,
            SkillType::Shield => 5,
            SkillType::Fishing => 6,
        }
    }
}

#[derive(Clone, Copy, Debug, PartialEq, Eq, Structural, Hash)]
pub enum InventorySlot {
    Head,
    Necklace,
    Backpack,
    Armor,
    Right,
    Left,
    Legs,
    Feet,
    Ring,
    Ammo,
}

impl InventorySlot {
    /// Slot numbers start at one.
    pub open spec fn code(self) -> u8 {
        match self {
            InventorySlot::Head => 1,
            InventorySlot::Necklace => 2,
            InventorySlot::Backpack => 3,
            InventorySlot::Armor => 4,
            InventorySlot::Right => 5,
            InventorySlot::Left => 6,
            InventorySlot::Legs => 7,
            InventorySlot::Feet => 8,
            InventorySlot::Ring => 9,
            InventorySlot::Ammo => 10,
        }
    }

    pub fn to_u8(self) -> (r: u8)
        ensures
            r == self.code(),
    {
        match self {
            InventorySlot::Head => 1,
            InventorySlot::Necklace => 2,
            InventorySlot::Backpack => 3,
            InventorySlot::Armor => 4,
            InventorySlot::Right => 5,
            InventorySlot::Left => 6,
            InventorySlot::Legs => 7,
            InventorySlot::Feet => 8,
            InventorySlot::Ring => 9,
            InventorySlot::Ammo => 10,
        }
    }
}

/// What using an entity does.
#[derive(Clone, Copy, Debug, PartialEq, Eq, Structural, Hash)]
pub enum Actions {
    Lever,
    Switch,
}

/// Item types known to the game rules.
#[derive(Clone, Copy, Debug, PartialEq, Eq, Structural, Hash)]
pub enum Items {
    Grass,
    StoneSwitch,
    StoneSwitchActivated,
    LeverLeft,
    LeverRight,
}

impl Items {
    /// Item id of the type.
    pub open spec fn id(self) -> u16 {
        match self {
            Items::Grass => 106,
            Items::StoneSwitch => 431,
            Items::StoneSwitchActivated => 430,
            Items::LeverLeft => 2772,
            Items::LeverRight => 2773,
        }
    }

    pub fn to_u16(self) -> (r: u16)
        ensures
            r == self.id(),
    {
        match self {
            Items::Grass => 106,
            Items::StoneSwitch => 431,
            Items::StoneSwitchActivated => 430,
            Items::LeverLeft => 2772,
            Items::LeverRight => 2773,
        }
    }

    /// The item type with id `id`, if there is one.
    pub fn from_u16(id: u16) -> (r: Option<Items>)
        ensures
            r matches Some(item) ==> item.id() == id,
            r is None ==> forall|item: Items| item.id() != id,
    {
        if id == 106 {
            Some(Items::Grass)
        } else if id == 431 {
            Some(Items::StoneSwitch)
        } else if id == 430 {
            Some(Items::StoneSwitchActivated)
        } else if id == 2772 {
            Some(Items::LeverLeft)
        } else if id == 2773 {
            Some(Items::LeverRight)
        } else {
            None
        }
    }
}

/// Opcodes of the packets that a client sends.
#[derive(Clone, Copy, Debug, PartialEq, Eq, Structural, Hash)]
pub enum ClientOpcodes {
    Login,
    GameLogin,
    Ping,
    PingBack,
    MoveNorth,
    MoveEast,
    MoveSouth,
    MoveWest,
    UseItem,
}

impl ClientOpcodes {
    pub open spec fn code(self) -> u8 {
        match self {
            ClientOpcodes::Login => 0x01,
            ClientOpcodes::GameLogin => 0x0A,
            ClientOpcodes::Ping => 0x1E,
            ClientOpcodes::PingBack => 0x1D,
            ClientOpcodes::MoveNorth => 0x65,
            ClientOpcodes::MoveEast => 0x66,
            ClientOpcodes::MoveSouth => 0x67,
            ClientOpcodes::MoveWest => 0x68,
            ClientOpcodes::UseItem => 0x82,
        }
    }

    /// The opcode with code `code`, if there is one.
    pub fn from_u8(code: u8) -> (r: Option<ClientOpcodes>)
        ensures
            r matches Some(op) ==> op.code() == code,
            r is None ==> forall|op: ClientOpcodes| op.code() != code,
    {
        if code == 0x01 {
            Some(ClientOpcodes::Login)
        } else if code == 0x0A {
            Some(ClientOpcodes::GameLogin)
        } else if code == 0x1E {
            Some(ClientOpcodes::Ping)
        } else if code == 0x1D {
            Some(ClientOpcodes::PingBack)
        } else if code == 0x65 {
            Some(ClientOpcodes::MoveNorth)
        } else if code == 0x66 {
            Some(ClientOpcodes::MoveEast)
        } else if code == 0x67 {
            Some(ClientOpcodes::MoveSouth)
        } else if code == 0x68 {
            Some(ClientOpcodes::MoveWest)
        } else if code == 0x82 {
            Some(ClientOpcodes::UseItem)
        } else {
            None
        }
    }
}

/// Opcodes of the packets that the server sends.
#[derive(Clone, Copy, Debug, PartialEq, Eq, Structural, Hash)]
pub enum ServerOpcodes {
    CharacterList,
    GameLogin,
    Ping,
    MapFull,
    MapNorth,
    MapEast,
    MapSouth,
    MapWest,
    InventoryItem,
    InventoryEmpty,
    Stats,
    Skills,
    WorldLight,
    CreatureLight,
    Vip,
    Icons,
    AddCreatureUnknown,
    AddCreatureKnown,
    ChangedEntity,
    MovedEntity,
}

impl ServerOpcodes {
    pub open spec fn code(self) -> u8 {
        match self {
            ServerOpcodes::CharacterList => 0x14,
            ServerOpcodes::GameLogin => 0x0A,
            ServerOpcodes::Ping => 0x1E,
            ServerOpcodes::MapFull => 0x64,
            ServerOpcodes::MapNorth => 0x65,
            ServerOpcodes::MapEast => 0x66,
            ServerOpcodes::MapSouth => 0x67,
            ServerOpcodes::MapWest => 0x68,
            ServerOpcodes::InventoryItem => 0x78,
            ServerOpcodes::InventoryEmpty => 0x79,
            ServerOpcodes::Stats => 0xA0,
            ServerOpcodes::Skills => 0xA1,
            ServerOpcodes::WorldLight => 0x82,
            ServerOpcodes::CreatureLight => 0x8D,
            ServerOpcodes::Vip => 0xD2,
            ServerOpcodes::Icons => 0xA2,
            ServerOpcodes::AddCreatureUnknown => 0x61,
            ServerOpcodes::AddCreatureKnown => 0x62,
            ServerOpcodes::ChangedEntity => 0x6B,
            ServerOpcodes::MovedEntity => 0x6D,
        }
    }

    pub fn to_u8(self) -> (r: u8)
        ensures
            r == self.code(),
    {
        match self {
            ServerOpcodes::CharacterList => 0x14,
            ServerOpcodes::GameLogin => 0x0A,
            ServerOpcodes::Ping => 0x1E,
            ServerOpcodes::MapFull => 0x64,
            ServerOpcodes::MapNorth => 0x65,
            ServerOpcodes::MapEast => 0x66,
            ServerOpcodes::MapSouth => 0x67,
            ServerOpcodes::MapWest => 0x68,
            ServerOpcodes::InventoryItem => 0x78,
            ServerOpcodes::InventoryEmpty => 0x79,
            ServerOpcodes::Stats => 0xA0,
            ServerOpcodes::Skills => 0xA1,
            ServerOpcodes::WorldLight => 0x82,
            ServerOpcodes::CreatureLight => 0x8D,
            ServerOpcodes::Vip => 0xD2,
            ServerOpcodes::Icons => 0xA2,
            ServerOpcodes::AddCreatureUnknown => 0x61,
            ServerOpcodes::AddCreatureKnown => 0x62,
            ServerOpcodes::ChangedEntity => 0x6B,
            ServerOpcodes::MovedEntity => 0x6D,
        }
    }
}

/// A raw opcode byte.
#[derive(Clone, Copy, Debug, PartialEq, Eq, Structural)]
pub struct Opcode(pub u8);

/// How an account is named at login.
#[derive(Clone, Copy, Debug, PartialEq, Eq, Structural)]
pub enum AccountName {
    Old(u32),
}

#[derive(Clone, Debug, PartialEq, Eq)]
pub struct CharacterListEntry {
    pub name: String,
    pub world: String,
    pub ip: u32,
    pub port: u16,
}

#[derive(Clone, Copy, Debug, PartialEq, Eq, Structural)]
pub struct SkillEntry {
    pub kind: SkillType,
    pub level: u8,
    pub progress: u8,
}

} // verus!
