use crate::attribute::{Attribute, AttributeBag};
use crate::command::{views, Command, CommandView};
use crate::event::{ChangedEntityEvent, Event, EventKind, MovedEntityEvent, RemovedEntityEvent};
use crate::position::Position;
use crate::systems::{react, run_effect, Effect, Task};
use crate::world::{entity_in, BagView, Tile, TileView, World};
use vstd::prelude::*;

verus! {

/// Deepest nesting of commands that one submitted command may cause; a
/// deeper effect graph fails instead of recursing without bound.
pub const MAX_DEPTH: usize = 64;

/// The game's own attribute bag.
pub struct GameAttributes {
    pub attributes: AttributeBag,
}

impl GameAttributes {
    pub fn new() -> (r: GameAttributes)
        ensures
            r.attributes@ == BagView::empty(),
            r.attributes.wf(),
    {
        GameAttributes { attributes: AttributeBag::new() }
    }
}

/// Why a command could not be settled.
#[derive(Clone, Copy, Debug, PartialEq, Eq, Structural)]
pub enum DispatchError {
    /// The commands caused by one command nested deeper than `MAX_DEPTH`.
    DepthExceeded,
}

/// The game state: the game's attributes and the world.
pub type StateView = (BagView, Map<Position, TileView>);

/// The outcome of settling: the state reached, the tasks handed out in
/// order, the events dispatched in order, and whether it succeeded.
pub type Settled = (StateView, Seq<Task>, Seq<Event>, bool);

/// `d` preceded by the dispatch of `e` itself.
pub open spec fn logged(e: Event, d: Settled) -> Settled {
    (d.0, d.1, seq![e] + d.2, d.3)
}

/// Registered effects, in registration order, with the event kind each
/// listens to.
pub type Listeners = Seq<(EventKind, Effect)>;

/// `world` with `entity` appended to the tile at `p`'s tile address.
pub open spec fn push_entity(world: Map<Position, TileView>, p: Position, entity: BagView) -> Map<Position, TileView> {
    let k = p.tile_address();
    world.insert(k, (world[k].0, world[k].1.push(entity)))
}

/// `world` with the entity addressed by `p` replaced by `entity`.
pub open spec fn set_entity(world: Map<Position, TileView>, p: Position, entity: BagView) -> Map<Position, TileView> {
    let k = p.tile_address();
    world.insert(k, (world[k].0, world[k].1.update(p.stack_pos->Some_0 as int, entity)))
}

/// `world` without the entity addressed by `p`; those above it move down.
pub open spec fn remove_entity(world: Map<Position, TileView>, p: Position) -> Map<Position, TileView> {
    let k = p.tile_address();
    world.insert(k, (world[k].0, world[k].1.remove(p.stack_pos->Some_0 as int)))
}

/// Settling command `c` at nesting `depth`: its change to the state, then
/// the dispatch of the event it causes, if any. A command whose
/// precondition fails changes nothing and causes nothing.
pub open spec fn apply_spec(l: Listeners, s: StateView, c: CommandView, depth: nat) -> Settled
    decreases MAX_DEPTH - depth, 2nat, 0nat,
{
    let done = (s, Seq::<Task>::empty(), Seq::<Event>::empty(), true);
    if depth >= MAX_DEPTH {
        (s, Seq::<Task>::empty(), Seq::<Event>::empty(), false)
    } else {
        match c {
            CommandView::EmitEvent(e) => logged(e, dispatch_spec(l, s, e, depth, 0)),
            CommandView::SetGameAttribute(a) => ((s.0.insert(a.kind(), a), s.1), Seq::<Task>::empty(), Seq::<Event>::empty(), true),
            CommandView::SetWorld(w) => ((s.0, w), Seq::<Task>::empty(), Seq::<Event>::empty(), true),
            CommandView::AddEntity(p, e) => if s.1.contains_key(p.tile_address()) {
                ((s.0, push_entity(s.1, p, e)), Seq::<Task>::empty(), Seq::<Event>::empty(), true)
            } else {
                done
            },
            CommandView::SetEntityAttribute(p, a) => match entity_in(s.1, p) {
                Some(bag) => {
                    let e = Event::ChangedEntity(ChangedEntityEvent { position: p, attribute_name: a.kind() });
                    logged(e, dispatch_spec(l, (s.0, set_entity(s.1, p, bag.insert(a.kind(), a))), e, depth, 0))
                },
                None => done,
            },
            CommandView::RemoveEntityAttribute(p, k) => match entity_in(s.1, p) {
                Some(bag) => {
                    let e = Event::RemovedEntity(RemovedEntityEvent { position: p, attribute_name: k });
                    logged(e, dispatch_spec(l, (s.0, set_entity(s.1, p, bag.remove(k))), e, depth, 0))
                },
                None => done,
            },
            CommandView::MoveEntity(from, to) => match entity_in(s.1, from) {
                Some(bag) => if s.1.contains_key(to.tile_address()) {
                    let e = Event::MovedEntity(MovedEntityEvent { from, to });
                    logged(e, dispatch_spec(l, (s.0, push_entity(remove_entity(s.1, from), to, bag)), e, depth, 0))
                } else {
                    done
                },
                None => done,
            },
        }
    }
}

/// Dispatching `e` to the listeners from index `i` on: each effect
/// registered for `e`'s kind runs in registration order, and the commands
/// it returns settle before the next effect runs.
pub open spec fn dispatch_spec(l: Listeners, s: StateView, e: Event, depth: nat, i: nat) -> Settled
    decreases MAX_DEPTH - depth, 1nat, l.len() - i,
{
    if depth >= MAX_DEPTH {
        (s, Seq::<Task>::empty(), Seq::<Event>::empty(), false)
    } else if i >= l.len() {
        (s, Seq::<Task>::empty(), Seq::<Event>::empty(), true)
    } else if l[i as int].0 != e.kind() {
        dispatch_spec(l, s, e, depth, i + 1)
    } else {
        match react(l[i as int].1, e, s.0, s.1) {
            None => dispatch_spec(l, s, e, depth, i + 1),
            Some((cmds, tasks)) => {
                let r = commands_spec(l, s, cmds, depth);
                if !r.3 {
                    (r.0, r.1, r.2, false)
                } else {
                    let rest = dispatch_spec(l, r.0, e, depth, i + 1);
                    (rest.0, r.1 + tasks + rest.1, r.2 + rest.2, rest.3)
                }
            },
        }
    }
}

/// Settling, in order, the commands that an effect at nesting `depth`
/// returned; each is one level deeper.
pub open spec fn commands_spec(l: Listeners, s: StateView, cmds: Seq<CommandView>, depth: nat) -> Settled
    decreases MAX_DEPTH - depth, 0nat, cmds.len(),
{
    if depth >= MAX_DEPTH {
        (s, Seq::<Task>::empty(), Seq::<Event>::empty(), false)
    } else if cmds.len() == 0 {
        (s, Seq::<Task>::empty(), Seq::<Event>::empty(), true)
    } else {
        let a = apply_spec(l, s, cmds[0], depth + 1);
        if !a.3 {
            (a.0, a.1, a.2, false)
        } else {
            let rest = commands_spec(l, a.0, cmds.drop_first(), depth);
            (rest.0, a.1 + rest.1, a.2 + rest.2, rest.3)
        }
    }
}

/// Dispatching an event that no listener from index `i` on is registered
/// for changes nothing and hands out nothing.
pub proof fn lemma_dispatch_unheard(l: Listeners, s: StateView, e: Event, depth: nat, i: nat)
    requires
        depth < MAX_DEPTH,
        forall|j: int| i <= j < l.len() ==> (#[trigger] l[j]).0 != e.kind(),
    ensures
        dispatch_spec(l, s, e, depth, i) == (s, Seq::<Task>::empty(), Seq::<Event>::empty(), true),
    decreases l.len() - i,
{
    if i < l.len() {
        lemma_dispatch_unheard(l, s, e, depth, i + 1);
    }
}

/// A command whose target is missing is skipped: it changes nothing and
/// dispatches no event. This holds of `AddEntity` without a tile, of
/// `SetEntityAttribute` and `RemoveEntityAttribute` without an entity, and of
/// `MoveEntity` without an entity at `from` or a tile at `to`.
pub proof fn lemma_missing_target_is_noop(l: Listeners, s: StateView, c: CommandView, depth: nat)
    requires
        depth < MAX_DEPTH,
        match c {
            CommandView::AddEntity(p, _) => !s.1.contains_key(p.tile_address()),
            CommandView::SetEntityAttribute(p, _) => entity_in(s.1, p) is None,
            CommandView::RemoveEntityAttribute(p, _) => entity_in(s.1, p) is None,
            CommandView::MoveEntity(from, to) => entity_in(s.1, from) is None || !s.1.contains_key(to.tile_address()),
            _ => false,
        },
    ensures
        apply_spec(l, s, c, depth) == (s, Seq::<Task>::empty(), Seq::<Event>::empty(), true),
{
}

/// Moving the entity at `from` onto the tile at `to`, with no effect
/// listening for moved entities: the entity leaves its tile (those above it
/// move down), lands on top of the tile at `to`, and exactly one
/// `MovedEntity { from, to }` event is dispatched.
pub proof fn lemma_move_entity(l: Listeners, s: StateView, from: Position, to: Position, depth: nat)
    requires
        depth < MAX_DEPTH,
        entity_in(s.1, from) is Some,
        s.1.contains_key(to.tile_address()),
        forall|j: int| 0 <= j < l.len() ==> (#[trigger] l[j]).0 != EventKind::MovedEntity,
    ensures
        apply_spec(l, s, CommandView::MoveEntity(from, to), depth) == (
            (s.0, push_entity(remove_entity(s.1, from), to, entity_in(s.1, from)->Some_0)),
            Seq::<Task>::empty(),
            seq![Event::MovedEntity(MovedEntityEvent { from, to })],
            true,
        ),
{
    let e = Event::MovedEntity(MovedEntityEvent { from, to });
    let s2 = (s.0, push_entity(remove_entity(s.1, from), to, entity_in(s.1, from)->Some_0));
    lemma_dispatch_unheard(l, s2, e, depth, 0);
    assert(seq![e] + Seq::<Event>::empty() =~= seq![e]);
}

/// Effects run in registration order: with `f1` then `f2` registered for
/// `e`'s kind, `f1` runs first and its commands settle, and `f2` then runs
/// on the state they left.
pub proof fn lemma_dispatch_order(s: StateView, e: Event, f1: Effect, f2: Effect, depth: nat)
    requires
        depth < MAX_DEPTH,
        react(f1, e, s.0, s.1) is Some,
    ensures
        ({
            let l = seq![(e.kind(), f1), (e.kind(), f2)];
            let (c1, t1) = react(f1, e, s.0, s.1)->Some_0;
            let r1 = commands_spec(l, s, c1, depth);
            let s1 = r1.0;
            dispatch_spec(l, s, e, depth, 0) == if !r1.3 {
                (s1, r1.1, r1.2, false)
            } else {
                match react(f2, e, s1.0, s1.1) {
                    None => (s1, r1.1 + t1, r1.2, true),
                    Some((c2, t2)) => {
                        let r2 = commands_spec(l, s1, c2, depth);
                        if !r2.3 {
                            (r2.0, r1.1 + t1 + r2.1, r1.2 + r2.2, false)
                        } else {
                            (r2.0, r1.1 + t1 + (r2.1 + t2), r1.2 + r2.2, true)
                        }
                    },
                }
            }
        }),
{
    let l = seq![(e.kind(), f1), (e.kind(), f2)];
    let (c1, t1) = react(f1, e, s.0, s.1)->Some_0;
    let r1 = commands_spec(l, s, c1, depth);
    let s1 = r1.0;
    if r1.3 {
        assert(dispatch_spec(l, s1, e, depth, 2) == (s1, Seq::<Task>::empty(), Seq::<Event>::empty(), true));
        match react(f2, e, s1.0, s1.1) {
            None => {
                assert(dispatch_spec(l, s1, e, depth, 1) == (s1, Seq::<Task>::empty(), Seq::<Event>::empty(), true));
                assert(r1.1 + t1 + Seq::<Task>::empty() =~= r1.1 + t1);
                assert(r1.2 + Seq::<Event>::empty() =~= r1.2);
            },
            Some((c2, t2)) => {
                let r2 = commands_spec(l, s1, c2, depth);
                if r2.3 {
                    assert(dispatch_spec(l, r2.0, e, depth, 2) == (r2.0, Seq::<Task>::empty(), Seq::<Event>::empty(), true));
                    assert(r2.1 + t2 + Seq::<Task>::empty() =~= r2.1 + t2);
                    assert(r2.2 + Seq::<Event>::empty() =~= r2.2);
                    assert(dispatch_spec(l, s1, e, depth, 1) == (r2.0, r2.1 + t2, r2.2, true));
                } else {
                    assert(dispatch_spec(l, s1, e, depth, 1) == (r2.0, r2.1, r2.2, false));
                }
            },
        }
    }
}

/// Settlement is depth first: when the effect for `a` emits `b` and the
/// effect for `b` returns the command `c`, then by the time the command that
/// emitted `a` has settled, `c` has been applied in full.
#[verifier::rlimit(60)]
pub proof fn lemma_recursive_settlement(
    s: StateView,
    a: Event,
    b: Event,
    fa: Effect,
    fb: Effect,
    c: CommandView,
    depth: nat,
)
    requires
        depth + 2 < MAX_DEPTH,
        a.kind() != b.kind(),
        react(fa, a, s.0, s.1) == Some((seq![CommandView::EmitEvent(b)], Seq::<Task>::empty())),
        react(fb, b, s.0, s.1) == Some((seq![c], Seq::<Task>::empty())),
    ensures
        ({
            let l = seq![(a.kind(), fa), (b.kind(), fb)];
            let inner = apply_spec(l, s, c, depth + 2);
            inner.3 ==> apply_spec(l, s, CommandView::EmitEvent(a), depth) == (
                inner.0,
                inner.1,
                seq![a, b] + inner.2,
                true,
            )
        }),
{
    let l = seq![(a.kind(), fa), (b.kind(), fb)];
    let inner = apply_spec(l, s, c, depth + 2);
    if inner.3 {
        let empty_t = Seq::<Task>::empty();
        let empty_e = Seq::<Event>::empty();
        let s2 = inner.0;
        // `b`'s dispatch: listener 0 skips, listener 1 settles `c`.
        assert(seq![c].drop_first() =~= Seq::<CommandView>::empty());
        assert(commands_spec(l, s2, Seq::<CommandView>::empty(), depth + 1) == (s2, empty_t, empty_e, true));
        let rc = commands_spec(l, s, seq![c], depth + 1);
        assert(inner.1 + empty_t =~= inner.1);
        assert(inner.2 + empty_e =~= inner.2);
        assert(rc == (s2, inner.1, inner.2, true));
        assert(dispatch_spec(l, s2, b, depth + 1, 2) == (s2, empty_t, empty_e, true));
        assert(dispatch_spec(l, s, b, depth + 1, 1) == (s2, inner.1 + empty_t + empty_t, inner.2 + empty_e, true));
        assert(inner.1 + empty_t + empty_t =~= inner.1);
        assert(dispatch_spec(l, s, b, depth + 1, 0) == (s2, inner.1, inner.2, true));
        let rb = apply_spec(l, s, CommandView::EmitEvent(b), depth + 1);
        assert(rb == (s2, inner.1, seq![b] + inner.2, true));
        // `a`'s dispatch: listener 0 settles the emission of `b`, listener 1 skips.
        assert(seq![CommandView::EmitEvent(b)].drop_first() =~= Seq::<CommandView>::empty());
        assert(commands_spec(l, s2, Seq::<CommandView>::empty(), depth) == (s2, empty_t, empty_e, true));
        assert(rb.1 + empty_t =~= rb.1);
        assert(rb.2 + empty_e =~= rb.2);
        assert(commands_spec(l, s, seq![CommandView::EmitEvent(b)], depth) == rb);
        assert(dispatch_spec(l, s2, a, depth, 2) == (s2, empty_t, empty_e, true));
        assert(dispatch_spec(l, s2, a, depth, 1) == (s2, empty_t, empty_e, true));
        assert(rb.1 + empty_t + empty_t =~= inner.1);
        assert(rb.2 + empty_e =~= rb.2);
        assert(dispatch_spec(l, s, a, depth, 0) == (s2, inner.1, seq![b] + inner.2, true));
        assert(seq![a] + (seq![b] + inner.2) =~= seq![a, b] + inner.2);
    }
}

/// The game's rules with the event kinds they listen to, in the order
/// their systems load.
pub open spec fn game_rules() -> Listeners {
    seq![
        (EventKind::SystemsLoaded, Effect::LoadHardcodedMap),
        (EventKind::Move, Effect::HandleMove),
        (EventKind::MovedEntity, Effect::HandleMovedEntity),
        (EventKind::UseItemPayload, Effect::HandleUseItemPayload),
        (EventKind::Use, Effect::HandleLeverUse),
        (EventKind::Collision, Effect::HandleSwitchCollision),
        (EventKind::Separation, Effect::HandleSwitchSeparation),
    ]
}

/// The game: its attributes, the world, and the effects registered on
/// events. Every change goes through `process`, one command at a time.
pub struct Game {
    pub attributes: GameAttributes,
    pub world: World,
    pub listeners: Vec<(EventKind, Effect)>,
}

impl Game {
    pub open spec fn state(&self) -> StateView {
        (self.attributes.attributes@, self.world@)
    }

    pub open spec fn listeners(&self) -> Listeners {
        self.listeners@
    }

    pub open spec fn wf(&self) -> bool {
        self.world.wf()
    }

    pub fn new() -> (r: Game)
        ensures
            r.wf(),
            r.state() == (BagView::empty(), Map::<Position, TileView>::empty()),
            r.listeners() == Listeners::empty(),
    {
        Game { attributes: GameAttributes::new(), world: World::new(), listeners: Vec::new() }
    }

    /// Registers `effect` for events of kind `kind`, after all effects
    /// registered before.
    pub fn register(&mut self, kind: EventKind, effect: Effect)
        ensures
            final(self).listeners() == old(self).listeners().push((kind, effect)),
            final(self).state() == old(self).state(),
            final(self).wf() == old(self).wf(),
    {
        self.listeners.push((kind, effect));
    }

    /// Registers the game's rules, in the order their systems load.
    pub fn register_systems(&mut self)
        ensures
            final(self).listeners() == old(self).listeners() + game_rules(),
            final(self).state() == old(self).state(),
            final(self).wf() == old(self).wf(),
    {
        self.register(EventKind::SystemsLoaded, Effect::LoadHardcodedMap);
        self.register(EventKind::Move, Effect::HandleMove);
        self.register(EventKind::MovedEntity, Effect::HandleMovedEntity);
        self.register(EventKind::UseItemPayload, Effect::HandleUseItemPayload);
        self.register(EventKind::Use, Effect::HandleLeverUse);
        self.register(EventKind::Collision, Effect::HandleSwitchCollision);
        self.register(EventKind::Separation, Effect::HandleSwitchSeparation);
        proof {
            assert(self.listeners() =~= old(self).listeners() + game_rules());
        }
    }

    /// Settles `command` completely: its change, the events it causes, the
    /// effects those run and the commands they return, depth first. Returns
    /// the tasks the effects handed out, in order.
    pub fn process(&mut self, command: Command) -> (r: Result<Vec<Task>, DispatchError>)
        requires
            old(self).wf(),
            command.wf(),
        ensures
            final(self).wf(),
            final(self).listeners() == old(self).listeners(),
            final(self).state() == apply_spec(old(self).listeners(), old(self).state(), command@, 0).0,
            r is Ok <==> apply_spec(old(self).listeners(), old(self).state(), command@, 0).3,
            r matches Ok(t) ==> t@ == apply_spec(old(self).listeners(), old(self).state(), command@, 0).1,
    {
        self.apply(command, 0)
    }

    fn apply(&mut self, command: Command, depth: usize) -> (r: Result<Vec<Task>, DispatchError>)
        requires
            old(self).wf(),
            command.wf(),
        ensures
            final(self).wf(),
            final(self).listeners() == old(self).listeners(),
            final(self).state() == apply_spec(old(self).listeners(), old(self).state(), command@, depth as nat).0,
            r is Ok <==> apply_spec(old(self).listeners(), old(self).state(), command@, depth as nat).3,
            r matches Ok(t) ==> t@ == apply_spec(old(self).listeners(), old(self).state(), command@, depth as nat).1,
        decreases MAX_DEPTH - depth, 2nat, 0nat,
    {
        if depth >= MAX_DEPTH {
            return Err(DispatchError::DepthExceeded);
        }
        match command {
            Command::EmitEvent(c) => self.dispatch(c.0, depth),
            Command::SetGameAttribute(c) => {
                self.attributes.attributes.set(c.0);
                Ok(Vec::new())
            },
            Command::SetWorld(c) => {
                self.world = c.0;
                Ok(Vec::new())
            },
            Command::AddEntity(c) => {
                let ghost e = c.entity@;
                match self.world.tile_mut(&c.position) {
                    Some(t) => {
                        let ghost before = t@;
                        t.entities.push(c.entity);
                        proof {
                            assert(t@.1 =~= before.1.push(e));
                        }
                    },
                    None => {},
                }
                Ok(Vec::new())
            },
            Command::SetEntityAttribute(c) => {
                let kind = c.attribute.kind();
                match self.world.entity_mut(&c.position) {
                    Some(e) => {
                        e.attributes.set(c.attribute);
                    },
                    None => {
                        return Ok(Vec::new());
                    },
                }
                self.dispatch(Event::ChangedEntity(ChangedEntityEvent { position: c.position, attribute_name: kind }), depth)
            },
            Command::RemoveEntityAttribute(c) => {
                match self.world.entity_mut(&c.position) {
                    Some(e) => {
                        e.attributes.remove(c.attribute_name);
                    },
                    None => {
                        return Ok(Vec::new());
                    },
                }
                self.dispatch(
                    Event::RemovedEntity(RemovedEntityEvent { position: c.position, attribute_name: c.attribute_name }),
                    depth,
                )
            },
            Command::MoveEntity(c) => {
                let from = c.from;
                let to = c.to;
                if self.world.entity(&from).is_none() || self.world.tile(&to).is_none() {
                    return Ok(Vec::new());
                }
                let i = match from.stack_pos {
                    Some(i) => i as usize,
                    None => return Ok(Vec::new()),
                };
                let ghost w0 = self.world@;
                let entity = match self.world.tile_mut(&from) {
                    Some(t) => {
                        let ghost before = t@;
                        let entity = t.entities.remove(i);
                        proof {
                            assert(t@.1 =~= before.1.remove(i as int));
                        }
                        entity
                    },
                    None => return Ok(Vec::new()),
                };
                let ghost moved = entity@;
                assert(self.world@ == remove_entity(w0, from));
                match self.world.tile_mut(&to) {
                    Some(t) => {
                        let ghost before = t@;
                        t.entities.push(entity);
                        proof {
                            assert(t@.1 =~= before.1.push(moved));
                        }
                    },
                    None => {},
                }
                self.dispatch(Event::MovedEntity(MovedEntityEvent { from, to }), depth)
            },
        }
    }

    fn dispatch(&mut self, event: Event, depth: usize) -> (r: Result<Vec<Task>, DispatchError>)
        requires
            old(self).wf(),
            depth < MAX_DEPTH,
        ensures
            final(self).wf(),
            final(self).listeners() == old(self).listeners(),
            final(self).state() == dispatch_spec(old(self).listeners(), old(self).state(), event, depth as nat, 0).0,
            r is Ok <==> dispatch_spec(old(self).listeners(), old(self).state(), event, depth as nat, 0).3,
            r matches Ok(t) ==> t@ == dispatch_spec(old(self).listeners(), old(self).state(), event, depth as nat, 0).1,
        decreases MAX_DEPTH - depth, 1nat, 0nat,
    {
        let ghost l = self.listeners@;
        let ghost full = dispatch_spec(l, self.state(), event, depth as nat, 0);
        let mut tasks: Vec<Task> = Vec::new();
        let mut i: usize = 0;
        while i < self.listeners.len()
            invariant
                self.wf(),
                self.listeners@ == l,
                l == old(self).listeners@,
                full == dispatch_spec(l, old(self).state(), event, depth as nat, 0),
                i <= l.len(),
                depth < MAX_DEPTH,
                full.0 == dispatch_spec(l, self.state(), event, depth as nat, i as nat).0,
                full.1 == tasks@ + dispatch_spec(l, self.state(), event, depth as nat, i as nat).1,
                full.3 == dispatch_spec(l, self.state(), event, depth as nat, i as nat).3,
            decreases l.len() - i,
        {
            let (kind, effect) = self.listeners[i];
            if kind == event.kind() {
                match run_effect(effect, &event, &self.attributes.attributes, &self.world) {
                    Some((commands, new_tasks)) => {
                        let ghost s = self.state();
                        let ghost t0 = tasks@;
                        match self.run_commands(commands, depth) {
                            Ok(nested) => {
                                let mut nested = nested;
                                let mut new_tasks = new_tasks;
                                let ghost nt = nested@;
                                let ghost ft = new_tasks@;
                                tasks.append(&mut nested);
                                tasks.append(&mut new_tasks);
                                proof {
                                    let rest = dispatch_spec(l, self.state(), event, depth as nat, (i + 1) as nat);
                                    assert(t0 + (nt + ft + rest.1) =~= tasks@ + rest.1);
                                }
                            },
                            Err(err) => {
                                return Err(err);
                            },
                        }
                    },
                    None => {},
                }
            }
            i = i + 1;
        }
        proof {
            assert(tasks@ + Seq::<Task>::empty() =~= tasks@);
        }
        Ok(tasks)
    }

    fn run_commands(&mut self, commands: Vec<Command>, depth: usize) -> (r: Result<Vec<Task>, DispatchError>)
        requires
            old(self).wf(),
            depth < MAX_DEPTH,
            forall|i: int| 0 <= i < commands@.len() ==> (#[trigger] commands@[i]).wf(),
        ensures
            final(self).wf(),
            final(self).listeners() == old(self).listeners(),
            final(self).state() == commands_spec(old(self).listeners(), old(self).state(), views(commands@), depth as nat).0,
            r is Ok <==> commands_spec(old(self).listeners(), old(self).state(), views(commands@), depth as nat).3,
            r matches Ok(t) ==> t@ == commands_spec(old(self).listeners(), old(self).state(), views(commands@), depth as nat).1,
        decreases MAX_DEPTH - depth, 0nat, commands@.len(),
    {
        let ghost l = self.listeners@;
        let ghost full = commands_spec(l, self.state(), views(commands@), depth as nat);
        let mut remaining = commands;
        let mut tasks: Vec<Task> = Vec::new();
        while remaining.len() > 0
            invariant
                self.wf(),
                self.listeners@ == l,
                l == old(self).listeners@,
                full == commands_spec(l, old(self).state(), views(commands@), depth as nat),
                depth < MAX_DEPTH,
                forall|i: int| 0 <= i < remaining@.len() ==> (#[trigger] remaining@[i]).wf(),
                full.0 == commands_spec(l, self.state(), views(remaining@), depth as nat).0,
                full.1 == tasks@ + commands_spec(l, self.state(), views(remaining@), depth as nat).1,
                full.3 == commands_spec(l, self.state(), views(remaining@), depth as nat).3,
            decreases remaining@.len(),
        {
            let ghost before = remaining@;
            let command = remaining.remove(0);
            proof {
                assert(views(remaining@) =~= views(before).drop_first());
                assert(before[0] == command);
            }
            let ghost t0 = tasks@;
            match self.apply(command, depth + 1) {
                Ok(nested) => {
                    let mut nested = nested;
                    let ghost nt = nested@;
                    tasks.append(&mut nested);
                    proof {
                        let rest = commands_spec(l, self.state(), views(remaining@), depth as nat);
                        assert(t0 + (nt + rest.1) =~= tasks@ + rest.1);
                    }
                },
                Err(err) => {
                    return Err(err);
                },
            }
        }
        proof {
            assert(tasks@ + Seq::<Task>::empty() =~= tasks@);
        }
        Ok(tasks)
    }
}

} // verus!
