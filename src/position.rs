use vstd::prelude::*;

verus! {

/// A tile address (`stack_pos == None`) or an entity address (`stack_pos ==
/// Some(i)`: the entity at index `i` of the tile's entity list).
#[derive(Clone, Copy, Debug, PartialEq, Eq, Structural, Hash)]
pub struct Position {
    pub x: u16,
    pub y: u16,
    pub z: u8,
    pub stack_pos: Option<u16>,
}

/// Stack index `i` as a position holds it: indices wrap at 2^16.
pub open spec fn stack_index(i: int) -> u16 {
    (i % 65536) as u16
}

pub fn to_stack_index(i: usize) -> (r: u16)
    ensures
        r == stack_index(i as int),
{
    (i % 65536) as u16
}

/// Tile address of `(x, y, z)`.
#[allow(non_snake_case)]
pub fn Position(x: u16, y: u16, z: u8) -> (r: Position)
    ensures
        r == (Position { x, y, z, stack_pos: None }),
{
    Position { x, y, z, stack_pos: None }
}

impl Position {
    /// The same address with the stack index cleared: the tile it lies on.
    pub open spec fn tile_address(self) -> Position {
        Position { stack_pos: None, ..self }
    }

    pub fn x(self, x: u16) -> (r: Position)
        ensures
            r == (Position { x, ..self }),
    {
        let mut p = self;
        p.x = x;
        p
    }

    pub fn y(self, y: u16) -> (r: Position)
        ensures
            r == (Position { y, ..self }),
    {
        let mut p = self;
        p.y = y;
        p
    }

    pub fn z(self, z: u8) -> (r: Position)
        ensures
            r == (Position { z, ..self }),
    {
        let mut p = self;
        p.z = z;
        p
    }

    pub open spec fn with_stack_pos(self, stack_pos: Option<u16>) -> Position {
        Position { stack_pos, ..self }
    }

    #[verifier::when_used_as_spec(with_stack_pos)]
    pub fn stack_pos(self, stack_pos: Option<u16>) -> (r: Position)
        ensures
            r == self.with_stack_pos(stack_pos),
    {
        let mut p = self;
        p.stack_pos = stack_pos;
        p
    }

    /// Component-wise offset from `self` to `second`.
    pub fn diff(&self, second: Position) -> (r: (i32, i32, i32))
        ensures
            r.0 == second.x - self.x,
            r.1 == second.y - self.y,
            r.2 == second.z - self.z,
    {
        (
            (second.x as i32) - (self.x as i32),
            (second.y as i32) - (self.y as i32),
            (second.z as i32) - (self.z as i32),
        )
    }
}

} // verus!
