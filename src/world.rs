use crate::attribute::{Attribute, AttributeBag, AttributeKind};
use crate::position::Position;
use vstd::prelude::*;

verus! {

/// What a bag holds, keyed by kind.
pub type BagView = Map<AttributeKind, Attribute>;

/// A tile's attributes and its entities' attributes, in stack order.
pub type TileView = (BagView, Seq<BagView>);

/// The bag of the entity addressed by `p` in `world`: the entity at index
/// `p.stack_pos` of the tile at `p`'s tile address.
pub open spec fn entity_in(world: Map<Position, TileView>, p: Position) -> Option<BagView> {
    let k = p.tile_address();
    match p.stack_pos {
        Some(i) => if world.contains_key(k) && (i as int) < world[k].1.len() {
            Some(world[k].1[i as int])
        } else {
            None
        },
        None => None,
    }
}

/// A creature, player or item occupying a slot of a tile.
pub struct Entity {
    pub attributes: AttributeBag,
}

impl Entity {
    pub open spec fn view(&self) -> BagView {
        self.attributes@
    }

    pub fn new() -> (r: Entity)
        ensures
            r@ == BagView::empty(),
            r.attributes.wf(),
    {
        Entity { attributes: AttributeBag::new() }
    }
}

/// A tile: its own attributes and the entities on it, in stack order.
pub struct Tile {
    pub attributes: AttributeBag,
    pub entities: Vec<Entity>,
}

impl Tile {
    /// Replacing the entity at index `i` replaces its bag in the view.
    proof fn lemma_update_any(t: Tile, i: int)
        requires
            0 <= i < t.entities@.len(),
        ensures
            forall|t2: Tile|
                #![trigger t2@]
                t2.attributes == t.attributes && t2.entities@ == t.entities@.update(i, t2.entities@[i])
                    ==> t2@ == (t@.0, t@.1.update(i, t2.entities@[i]@)),
    {
        assert forall|t2: Tile|
            #![trigger t2@]
            t2.attributes == t.attributes && t2.entities@ == t.entities@.update(i, t2.entities@[i])
                implies t2@ == (t@.0, t@.1.update(i, t2.entities@[i]@)) by {
            assert(t2@.1 =~= t@.1.update(i, t2.entities@[i]@));
        }
    }

    pub open spec fn view(&self) -> TileView {
        (self.attributes@, self.entities@.map_values(|e: Entity| e@))
    }

    pub fn new() -> (r: Tile)
        ensures
            r@ == (BagView::empty(), Seq::<BagView>::empty()),
    {
        let r = Tile { attributes: AttributeBag::new(), entities: Vec::new() };
        assert(r@.1 =~= Seq::<BagView>::empty());
        r
    }
}

/// The map from tile addresses to tiles. A position absent from the map has
/// no tile.
pub struct World {
    keys: Vec<Position>,
    tiles: Vec<Tile>,
}

impl World {
    /// Index of the tile stored under `p`, if any.
    spec fn index_of(&self, p: Position) -> Option<int> {
        if exists|i: int| 0 <= i < self.keys@.len() && self.keys@[i] == p {
            Some(choose|i: int| 0 <= i < self.keys@.len() && self.keys@[i] == p)
        } else {
            None
        }
    }

    /// The tiles, keyed by tile address.
    pub closed spec fn view(&self) -> Map<Position, TileView> {
        Map::new(|p: Position| self.index_of(p) is Some, |p: Position| self.tiles@[self.index_of(p)->Some_0]@)
    }

    /// Keys are distinct tile addresses, one per tile.
    pub closed spec fn wf(&self) -> bool {
        &&& self.keys@.len() == self.tiles@.len()
        &&& forall|i: int, j: int|
            0 <= i < self.keys@.len() && 0 <= j < self.keys@.len() && i != j ==> self.keys@[i]
                != self.keys@[j]
        &&& forall|i: int| 0 <= i < self.keys@.len() ==> (#[trigger] self.keys@[i]).stack_pos is None
    }

    proof fn lemma_index(&self, i: int)
        requires
            self.wf(),
            0 <= i < self.keys@.len(),
        ensures
            self.index_of(self.keys@[i]) == Some(i),
            self@.contains_key(self.keys@[i]),
            self@[self.keys@[i]] == self.tiles@[i]@,
    {
        let p = self.keys@[i];
        assert(exists|j: int| 0 <= j < self.keys@.len() && self.keys@[j] == p);
    }

    /// Every key of the view is a tile address.
    pub proof fn lemma_keys_are_tile_addresses(&self, p: Position)
        requires
            self.wf(),
            self@.contains_key(p),
        ensures
            p.stack_pos is None,
    {
        let i = self.index_of(p)->Some_0;
        assert(self.keys@[i] == p);
    }

    pub fn new() -> (r: World)
        ensures
            r.wf(),
            r@ == Map::<Position, TileView>::empty(),
    {
        let r = World { keys: Vec::new(), tiles: Vec::new() };
        assert(r@ =~= Map::<Position, TileView>::empty());
        r
    }

    fn find(&self, p: Position) -> (r: Option<usize>)
        requires
            self.wf(),
        ensures
            match r {
                Some(i) => i < self.keys@.len() && self.keys@[i as int] == p && self.index_of(p)
                    == Some(i as int),
                None => self.index_of(p) is None,
            },
    {
        let mut i: usize = 0;
        while i < self.keys.len()
            invariant
                self.wf(),
                i <= self.keys@.len(),
                forall|j: int| 0 <= j < i ==> self.keys@[j] != p,
            decreases self.keys@.len() - i,
        {
            if self.keys[i] == p {
                proof {
                    self.lemma_index(i as int);
                }
                return Some(i);
            }
            i = i + 1;
        }
        None
    }

    /// Membership and lookup in the view, by index.
    proof fn lemma_view(&self, p: Position)
        requires
            self.wf(),
        ensures
            self@.contains_key(p) <==> exists|i: int| 0 <= i < self.keys@.len() && self.keys@[i] == p,
            forall|i: int| 0 <= i < self.keys@.len() && self.keys@[i] == p ==> self@[p] == self.tiles@[i]@,
    {
        assert forall|i: int| 0 <= i < self.keys@.len() && self.keys@[i] == p implies self@[p] == self.tiles@[i]@ by {
            self.lemma_index(i);
        }
    }

    /// Replacing the tile at index `i` replaces the view's entry for its key.
    proof fn lemma_update(before: World, after: World, i: int)
        requires
            before.wf(),
            0 <= i < before.keys@.len(),
            after.keys@ == before.keys@,
            after.tiles@.len() == before.tiles@.len(),
            forall|j: int| 0 <= j < before.tiles@.len() && j != i ==> after.tiles@[j] == before.tiles@[j],
        ensures
            after.wf(),
            after@ == before@.insert(before.keys@[i], after.tiles@[i]@),
    {
        let key = before.keys@[i];
        let tv = after.tiles@[i]@;
        assert forall|p: Position| #[trigger] after@.contains_key(p) == before@.insert(key, tv).contains_key(p)
            && (after@.contains_key(p) ==> after@[p] == before@.insert(key, tv)[p]) by {
            after.lemma_view(p);
            before.lemma_view(p);
            if p == key {
                after.lemma_index(i);
            } else if before@.contains_key(p) {
                let j = choose|j: int| 0 <= j < before.keys@.len() && before.keys@[j] == p;
                before.lemma_index(j);
                after.lemma_index(j);
            }
        }
        assert(after@ =~= before@.insert(key, tv));
    }

    proof fn lemma_update_any(before: World, i: int)
        requires
            before.wf(),
            0 <= i < before.keys@.len(),
        ensures
            forall|after: World|
                #![trigger after@]
                after.keys@ == before.keys@ && after.tiles@ == before.tiles@.update(i, after.tiles@[i])
                    ==> after.wf() && after@ == before@.insert(before.keys@[i], after.tiles@[i]@),
    {
        assert forall|after: World|
            #![trigger after@]
            after.keys@ == before.keys@ && after.tiles@ == before.tiles@.update(i, after.tiles@[i])
                implies after.wf() && after@ == before@.insert(before.keys@[i], after.tiles@[i]@) by {
            World::lemma_update(before, after, i);
        }
    }

    /// The tile at the tile address of `position`.
    pub fn tile(&self, position: &Position) -> (r: Option<&Tile>)
        requires
            self.wf(),
        ensures
            match r {
                Some(t) => self@.contains_key(position.tile_address()) && t@ == self@[position.tile_address()],
                None => !self@.contains_key(position.tile_address()),
            },
    {
        match self.find(position.stack_pos(None)) {
            Some(i) => {
                proof {
                    self.lemma_index(i as int);
                }
                Some(&self.tiles[i])
            },
            None => None,
        }
    }

    /// The tile at the tile address of `position`, for change in place.
    pub fn tile_mut(&mut self, position: &Position) -> (r: Option<&mut Tile>)
        requires
            old(self).wf(),
        ensures
            final(self).wf(),
            match r {
                Some(t) => old(self)@.contains_key(position.tile_address()) && t@ == old(self)@[position.tile_address()]
                    && final(self)@ == old(self)@.insert(position.tile_address(), final(t)@),
                None => !old(self)@.contains_key(position.tile_address()) && final(self)@ == old(self)@,
            },
    {
        match self.find(position.stack_pos(None)) {
            Some(i) => {
                proof {
                    self.lemma_index(i as int);
                }
                proof {
                    World::lemma_update_any(*self, i as int);
                }
                Some(&mut self.tiles[i])
            },
            None => None,
        }
    }

    /// The bag of the entity addressed by `p`.
    pub open spec fn entity_view(&self, p: Position) -> Option<BagView> {
        entity_in(self@, p)
    }

    /// The entity addressed by `position`.
    pub fn entity(&self, position: &Position) -> (r: Option<&Entity>)
        requires
            self.wf(),
        ensures
            match r {
                Some(e) => self.entity_view(*position) == Some(e@),
                None => self.entity_view(*position) is None,
            },
    {
        let tile = match self.tile(position) {
            Some(t) => t,
            None => return None,
        };
        match position.stack_pos {
            Some(i) => if (i as usize) < tile.entities.len() {
                Some(&tile.entities[i as usize])
            } else {
                None
            },
            None => None,
        }
    }

    /// The entity addressed by `position`, for change in place.
    pub fn entity_mut(&mut self, position: &Position) -> (r: Option<&mut Entity>)
        requires
            old(self).wf(),
        ensures
            final(self).wf(),
            match r {
                Some(e) => old(self).entity_view(*position) == Some(e@) && final(self)@ == old(self)@.insert(
                    position.tile_address(),
                    (
                        old(self)@[position.tile_address()].0,
                        old(self)@[position.tile_address()].1.update(
                            position.stack_pos->Some_0 as int,
                            final(e)@,
                        ),
                    ),
                ),
                None => old(self).entity_view(*position) is None && final(self)@ == old(self)@,
            },
    {
        let i = match position.stack_pos {
            Some(i) => i as usize,
            None => return None,
        };
        match self.tile(position) {
            Some(t) => if i >= t.entities.len() {
                return None;
            },
            None => return None,
        }
        match self.tile_mut(position) {
            Some(t) => {
                proof {
                    Tile::lemma_update_any(*t, i as int);
                }
                Some(&mut t.entities[i])
            },
            None => None,
        }
    }

    /// Stores `tile` at the tile address of `position`, replacing any tile
    /// there.
    pub fn insert(&mut self, position: Position, tile: Tile)
        requires
            old(self).wf(),
        ensures
            final(self).wf(),
            final(self)@ == old(self)@.insert(position.tile_address(), tile@),
    {
        let key = position.stack_pos(None);
        match self.find(key) {
            Some(i) => {
                let ghost before = *self;
                self.tiles.set(i, tile);
                proof {
                    World::lemma_update(before, *self, i as int);
                }
            },
            None => {
                self.keys.push(key);
                self.tiles.push(tile);
                proof {
                    assert forall|j: int| 0 <= j < old(self).keys@.len() implies old(self).keys@[j] != key by {
                        if old(self).keys@[j] == key {
                            assert(exists|i: int| 0 <= i < old(self).keys@.len() && old(self).keys@[i] == key);
                        }
                    }
                    assert(self.wf());
                    assert forall|p: Position| #[trigger] self@.contains_key(p) == old(self)@.insert(key, tile@).contains_key(p)
                        && (self@.contains_key(p) ==> self@[p] == old(self)@.insert(key, tile@)[p]) by {
                        self.lemma_view(p);
                        old(self).lemma_view(p);
                        if p == key {
                            self.lemma_index(old(self).keys@.len() as int);
                        } else if old(self)@.contains_key(p) {
                            let j = choose|j: int| 0 <= j < old(self).keys@.len() && old(self).keys@[j] == p;
                            old(self).lemma_index(j);
                            self.lemma_index(j);
                        } else if self@.contains_key(p) {
                            let j = choose|j: int| 0 <= j < self.keys@.len() && self.keys@[j] == p;
                            assert(old(self).keys@[j] == p);
                        }
                    }
                    assert(self@ =~= old(self)@.insert(key, tile@));
                }
            },
        }
    }
}

} // verus!
