//! The entity-component-system core: entity identities with generation
//! recycling, per-kind component storages indexed by entity identity,
//! frame-singleton resources (clock and input batch), deferred structural
//! changes applied at an explicit maintenance point, and the two per-frame
//! logic systems (movement and control) over the stores.

use vstd::prelude::*;
use crate::time::GameTime;
use crate::input::{InputEvent, InputEvents};
use crate::fixed::{sat_add, scale_rate};
use crate::controller::{steered, frame_delta};
use crate::ecs::component::pos::{Position, Movable, Vector2, moved_component};
use crate::ecs::component::controller::Control;
use crate::ecs::component::render::Render;
use crate::render::RenderGraphic;

pub mod component;

verus! {

/// An entity identity: a storage slot index plus the generation of that
/// slot, so a recycled slot does not resurrect stale handles.
#[derive(Clone, Copy, Debug, PartialEq, Eq, Hash, Structural)]
pub struct Entity {
    pub index: usize,
    pub generation: u64,
}

/// The component values an entity is created with: any subset of the four
/// component kinds.
#[derive(Clone, Copy, Debug)]
pub struct EntityBuilder {
    pub pos: Option<Position>,
    pub vel: Option<Movable>,
    pub control: Option<Control>,
    pub render: Option<Render>,
}

impl EntityBuilder {
    pub fn new() -> (b: EntityBuilder)
        ensures
            b == (EntityBuilder {
                pos: None::<Position>,
                vel: None::<Movable>,
                control: None::<Control>,
                render: None::<Render>,
            }),
    {
        EntityBuilder { pos: None, vel: None, control: None, render: None }
    }

    pub fn with_position(self, p: Position) -> (b: EntityBuilder)
        ensures
            b == (EntityBuilder { pos: Some(p), ..self }),
    {
        EntityBuilder { pos: Some(p), ..self }
    }

    pub fn with_movable(self, v: Movable) -> (b: EntityBuilder)
        ensures
            b == (EntityBuilder { vel: Some(v), ..self }),
    {
        EntityBuilder { vel: Some(v), ..self }
    }

    pub fn with_control(self, c: Control) -> (b: EntityBuilder)
        ensures
            b == (EntityBuilder { control: Some(c), ..self }),
    {
        EntityBuilder { control: Some(c), ..self }
    }

    pub fn with_render(self, r: Render) -> (b: EntityBuilder)
        ensures
            b == (EntityBuilder { render: Some(r), ..self }),
    {
        EntityBuilder { render: Some(r), ..self }
    }
}

/// A per-component-kind container: one optional value per entity slot.
pub struct Storage<T> {
    slots: Vec<Option<T>>,
}

impl<T: Copy> Storage<T> {
    /// The stored values, one per slot.
    pub closed spec fn slots(self) -> Seq<Option<T>> {
        self.slots@
    }

    fn new() -> (s: Storage<T>)
        ensures
            s.slots() == Seq::<Option<T>>::empty(),
    {
        let s = Storage { slots: Vec::new() };
        proof {
            assert(s.slots() =~= Seq::<Option<T>>::empty());
        }
        s
    }

    fn push_empty(&mut self)
        ensures
            final(self).slots() == old(self).slots().push(None::<T>),
    {
        self.slots.push(None);
    }

    fn get(&self, i: usize) -> (r: Option<T>)
        requires
            i < self.slots().len(),
        ensures
            r == self.slots()[i as int],
    {
        self.slots[i]
    }

    fn set(&mut self, i: usize, v: T)
        requires
            i < old(self).slots().len(),
        ensures
            final(self).slots() == old(self).slots().update(i as int, Some(v)),
    {
        self.slots[i] = Some(v);
    }

    fn clear_at(&mut self, i: usize)
        requires
            i < old(self).slots().len(),
        ensures
            final(self).slots() == old(self).slots().update(i as int, None::<T>),
    {
        self.slots[i] = None;
    }
}

/// The entity set: registry, component storages and frame resources.
pub struct EntitySet {
    generations: Vec<u64>,
    alive: Vec<bool>,
    free: Vec<usize>,
    pending_create: Vec<(Entity, EntityBuilder)>,
    pending_destroy: Vec<Entity>,
    positions: Storage<Position>,
    movables: Storage<Movable>,
    controls: Storage<Control>,
    renders: Storage<Render>,
    time: Option<GameTime>,
    input: Option<InputEvents>,
}

impl EntitySet {
    /// Number of entity slots ever allocated (live, dead or recyclable).
    pub closed spec fn slot_count(self) -> nat {
        self.generations@.len()
    }

    /// Whether `e` denotes a currently live entity: its slot is active and
    /// still on the generation `e` was created with.
    pub closed spec fn live(self, e: Entity) -> bool {
        &&& e.index < self.generations@.len()
        &&& self.alive@[e.index as int]
        &&& self.generations@[e.index as int] == e.generation
    }

    /// The `Position` attached to `e`, if `e` is live and has one.
    pub closed spec fn pos_of(self, e: Entity) -> Option<Position> {
        if self.live(e) {
            self.positions.slots()[e.index as int]
        } else {
            None
        }
    }

    /// The `Movable` attached to `e`, if `e` is live and has one.
    pub closed spec fn vel_of(self, e: Entity) -> Option<Movable> {
        if self.live(e) {
            self.movables.slots()[e.index as int]
        } else {
            None
        }
    }

    /// The `Control` attached to `e`, if `e` is live and has one.
    pub closed spec fn control_of(self, e: Entity) -> Option<Control> {
        if self.live(e) {
            self.controls.slots()[e.index as int]
        } else {
            None
        }
    }

    /// The `Render` attached to `e`, if `e` is live and has one.
    pub closed spec fn render_of(self, e: Entity) -> Option<Render> {
        if self.live(e) {
            self.renders.slots()[e.index as int]
        } else {
            None
        }
    }

    /// The queued entity creations, in request order.
    pub closed spec fn creates(self) -> Seq<(Entity, EntityBuilder)> {
        self.pending_create@
    }

    /// The queued entity destructions, in request order.
    pub closed spec fn destroys(self) -> Seq<Entity> {
        self.pending_destroy@
    }

    /// Whether a creation of `e` is queued.
    pub open spec fn created_pending(self, e: Entity) -> bool {
        exists|i: int| 0 <= i < self.creates().len() && (#[trigger] self.creates()[i]).0 == e
    }

    /// Whether a creation of `e` with component set `b` is queued.
    pub open spec fn pending_builder_is(self, e: Entity, b: EntityBuilder) -> bool {
        self.creates().contains((e, b))
    }

    /// Whether the frame clock resource has been published.
    pub closed spec fn has_time(self) -> bool {
        self.time is Some
    }

    /// The published frame clock.
    pub closed spec fn time_of(self) -> GameTime {
        self.time->Some_0
    }

    /// Whether the frame input-batch resource has been published.
    pub closed spec fn has_input(self) -> bool {
        self.input is Some
    }

    /// The published input batch.
    pub closed spec fn input_of(self) -> Seq<InputEvent> {
        self.input->Some_0@
    }

    /// Inner join over `Position` and `Movable`.
    pub open spec fn movement_join(self, e: Entity) -> bool {
        self.live(e) && self.pos_of(e) is Some && self.vel_of(e) is Some
    }

    /// Inner join over `Position`, `Movable` and `Control`.
    pub open spec fn control_join(self, e: Entity) -> bool {
        self.live(e) && self.pos_of(e) is Some && self.vel_of(e) is Some && self.control_of(e)
            is Some
    }

    /// Inner join over `Position` and `Render`.
    pub open spec fn render_join(self, e: Entity) -> bool {
        self.live(e) && self.pos_of(e) is Some && self.render_of(e) is Some
    }

    /// A queued creation's slot is allocated but not yet active.
    spec fn pending_entry_ok(self, e: Entity) -> bool {
        &&& e.index < self.generations@.len()
        &&& !self.alive@[e.index as int]
        &&& self.generations@[e.index as int] == e.generation
    }

    /// Internal consistency: all per-slot vectors agree on length, the free
    /// list holds distinct inactive slots, queued creations hold distinct
    /// allocated-but-inactive slots outside the free list, and only active
    /// slots hold components.
    pub closed spec fn wf(self) -> bool {
        let n = self.generations@.len();
        &&& self.alive@.len() == n
        &&& self.positions.slots().len() == n
        &&& self.movables.slots().len() == n
        &&& self.controls.slots().len() == n
        &&& self.renders.slots().len() == n
        &&& (forall|i: int|
            0 <= i < self.free@.len() ==> (#[trigger] self.free@[i]) < n
                && !self.alive@[self.free@[i] as int])
        &&& (forall|i: int, j: int|
            0 <= i < j < self.free@.len() ==> (#[trigger] self.free@[i]) != (
            #[trigger] self.free@[j]))
        &&& (forall|i: int|
            0 <= i < self.pending_create@.len() ==> self.pending_entry_ok(
                (#[trigger] self.pending_create@[i]).0,
            ))
        &&& (forall|i: int, j: int|
            0 <= i < j < self.pending_create@.len() ==> (#[trigger] self.pending_create@[i]).0.index
                != (#[trigger] self.pending_create@[j]).0.index)
        &&& (forall|i: int, j: int|
            0 <= i < self.pending_create@.len() && 0 <= j < self.free@.len() ==> (
            #[trigger] self.pending_create@[i]).0.index != (#[trigger] self.free@[j]))
        &&& (forall|i: int|
            0 <= i < n ==> ((#[trigger] self.positions.slots()[i]) is Some ==> self.alive@[i]))
        &&& (forall|i: int|
            0 <= i < n ==> ((#[trigger] self.movables.slots()[i]) is Some ==> self.alive@[i]))
        &&& (forall|i: int|
            0 <= i < n ==> ((#[trigger] self.controls.slots()[i]) is Some ==> self.alive@[i]))
        &&& (forall|i: int|
            0 <= i < n ==> ((#[trigger] self.renders.slots()[i]) is Some ==> self.alive@[i]))
    }

    /// A fresh, empty entity set: no slots, no queued changes, no resources.
    pub fn new() -> (w: EntitySet)
        ensures
            w.wf(),
            w.slot_count() == 0,
            forall|e: Entity| !(#[trigger] w.live(e)),
            forall|e: Entity| (#[trigger] w.pos_of(e)) is None,
            forall|e: Entity| (#[trigger] w.vel_of(e)) is None,
            forall|e: Entity| (#[trigger] w.control_of(e)) is None,
            forall|e: Entity| (#[trigger] w.render_of(e)) is None,
            w.creates() == Seq::<(Entity, EntityBuilder)>::empty(),
            w.destroys() == Seq::<Entity>::empty(),
            !w.has_time(),
            !w.has_input(),
    {
        let w = EntitySet {
            generations: Vec::new(),
            alive: Vec::new(),
            free: Vec::new(),
            pending_create: Vec::new(),
            pending_destroy: Vec::new(),
            positions: Storage::new(),
            movables: Storage::new(),
            controls: Storage::new(),
            renders: Storage::new(),
            time: None,
            input: None,
        };
        proof {
            assert(w.creates() =~= Seq::<(Entity, EntityBuilder)>::empty());
            assert(w.destroys() =~= Seq::<Entity>::empty());
        }
        w
    }

    /// Publishes the frame clock, replacing any previous value.
    pub fn publish_time(&mut self, t: GameTime)
        requires
            old(self).wf(),
        ensures
            final(self).wf(),
            final(self).has_time(),
            final(self).time_of() == t,
            final(self).has_input() == old(self).has_input(),
            old(self).has_input() ==> final(self).input_of() == old(self).input_of(),
            unchanged_entities(*old(self), *final(self)),
            same_pending(*old(self), *final(self)),
    {
        self.time = Some(t);
    }

    /// Publishes the frame's input batch, replacing any previous value.
    pub fn publish_input(&mut self, events: InputEvents)
        requires
            old(self).wf(),
        ensures
            final(self).wf(),
            final(self).has_input(),
            final(self).input_of() == events@,
            final(self).has_time() == old(self).has_time(),
            old(self).has_time() ==> final(self).time_of() == old(self).time_of(),
            unchanged_entities(*old(self), *final(self)),
            same_pending(*old(self), *final(self)),
    {
        self.input = Some(events);
    }

    /// Reads the published frame clock. Publishing it first is part of the
    /// driver's contract: reading an unpublished resource is a wiring bug.
    pub fn read_time(&self) -> (r: &GameTime)
        requires
            self.has_time(),
        ensures
            *r == self.time_of(),
    {
        match &self.time {
            Some(t) => t,
            None => unreached(),
        }
    }

    /// Reads the published input batch. Publishing it first is part of the
    /// driver's contract: reading an unpublished resource is a wiring bug.
    pub fn read_input(&self) -> (r: &InputEvents)
        requires
            self.has_input(),
        ensures
            r@ == self.input_of(),
    {
        match &self.input {
            Some(ev) => ev,
            None => unreached(),
        }
    }

    /// Allocates an entity identity (recycling a freed slot if one exists)
    /// and queues its activation with the builder's components. The entity
    /// becomes live, with its components, only at the next `maintain`.
    pub fn create_entity(&mut self, b: EntityBuilder) -> (e: Entity)
        requires
            old(self).wf(),
        ensures
            final(self).wf(),
            final(self).creates() == old(self).creates().push((e, b)),
            final(self).destroys() == old(self).destroys(),
            !old(self).live(e),
            !old(self).created_pending(e),
            same_live(*old(self), *final(self)),
            same_components(*old(self), *final(self)),
            same_resources(*old(self), *final(self)),
    {
        let idx: usize;
        match self.free.pop() {
            Some(i) => {
                idx = i;
            },
            None => {
                idx = self.generations.len();
                self.generations.push(0);
                self.alive.push(false);
                self.positions.push_empty();
                self.movables.push_empty();
                self.controls.push_empty();
                self.renders.push_empty();
            },
        }
        let e = Entity { index: idx, generation: self.generations[idx] };
        self.pending_create.push((e, b));
        proof {
            assert forall|e2: Entity| #[trigger] final(self).live(e2) == old(self).live(e2) by {
                if e2.index < old(self).generations@.len() {
                } else {
                }
            }
            assert(final(self).creates() =~= old(self).creates().push((e, b)));
        }
        e
    }

    /// Queues `e` for destruction at the next `maintain`. Destroying an
    /// entity that is not live by then is a no-op.
    pub fn destroy_entity(&mut self, e: Entity)
        requires
            old(self).wf(),
        ensures
            final(self).wf(),
            final(self).destroys() == old(self).destroys().push(e),
            final(self).creates() == old(self).creates(),
            same_live(*old(self), *final(self)),
            same_components(*old(self), *final(self)),
            same_resources(*old(self), *final(self)),
    {
        self.pending_destroy.push(e);
    }
}

impl EntitySet {
    /// Applies all queued structural changes at once: queued creations are
    /// activated (with their components), then queued destructions are
    /// applied (removing every component of each destroyed entity and
    /// recycling its slot under a new generation). No iteration observes a
    /// partially applied change: everything becomes visible here.
    pub fn maintain(&mut self)
        requires
            old(self).wf(),
        ensures
            maintain_rel(*old(self), *final(self)),
    {
        let ghost pre = *old(self);
        let n = self.alive.len();

        // Activation phase: queued creations become live with their
        // components.
        let mut t: usize = 0;
        while t < self.pending_create.len()
            invariant
                0 <= t <= self.pending_create@.len(),
                self.pending_create@ == pre.pending_create@,
                self.pending_destroy@ == pre.pending_destroy@,
                self.generations@ == pre.generations@,
                self.free@ == pre.free@,
                self.time == pre.time,
                self.input == pre.input,
                n == pre.generations@.len(),
                self.alive@.len() == n,
                self.positions.slots().len() == n,
                self.movables.slots().len() == n,
                self.controls.slots().len() == n,
                self.renders.slots().len() == n,
                pre.wf(),
                forall|q: int|
                    0 <= q < t ==> {
                        let ent = (#[trigger] pre.pending_create@[q]).0;
                        let bld = pre.pending_create@[q].1;
                        &&& self.alive@[ent.index as int]
                        &&& self.positions.slots()[ent.index as int] == bld.pos
                        &&& self.movables.slots()[ent.index as int] == bld.vel
                        &&& self.controls.slots()[ent.index as int] == bld.control
                        &&& self.renders.slots()[ent.index as int] == bld.render
                    },
                forall|k: int|
                    0 <= k < n && !created_index_in(pre.pending_create@.take(t as int), k) ==> {
                        &&& (#[trigger] self.alive@[k]) == pre.alive@[k]
                        &&& self.positions.slots()[k] == pre.positions.slots()[k]
                        &&& self.movables.slots()[k] == pre.movables.slots()[k]
                        &&& self.controls.slots()[k] == pre.controls.slots()[k]
                        &&& self.renders.slots()[k] == pre.renders.slots()[k]
                    },
                forall|k: int|
                    0 <= k < n ==> ((#[trigger] self.positions.slots()[k]) is Some
                        ==> self.alive@[k]),
                forall|k: int|
                    0 <= k < n ==> ((#[trigger] self.movables.slots()[k]) is Some
                        ==> self.alive@[k]),
                forall|k: int|
                    0 <= k < n ==> ((#[trigger] self.controls.slots()[k]) is Some
                        ==> self.alive@[k]),
                forall|k: int|
                    0 <= k < n ==> ((#[trigger] self.renders.slots()[k]) is Some
                        ==> self.alive@[k]),
            decreases self.pending_create@.len() - t,
        {
            let entry = self.pending_create[t];
            let e = entry.0;
            let b = entry.1;
            proof {
                assert(pre.pending_entry_ok(pre.pending_create@[t as int].0));
                assert(pre.pending_create@.take(t + 1).last() == pre.pending_create@[t as int]);
                assert(pre.pending_create@.take(t + 1).drop_last() =~= pre.pending_create@.take(
                    t as int,
                ));
            }
            self.alive[e.index] = true;
            match b.pos {
                Some(p) => self.positions.set(e.index, p),
                None => self.positions.clear_at(e.index),
            }
            match b.vel {
                Some(v) => self.movables.set(e.index, v),
                None => self.movables.clear_at(e.index),
            }
            match b.control {
                Some(c) => self.controls.set(e.index, c),
                None => self.controls.clear_at(e.index),
            }
            match b.render {
                Some(r) => self.renders.set(e.index, r),
                None => self.renders.clear_at(e.index),
            }
            proof {
                assert forall|q: int| 0 <= q < t + 1 implies {
                    let ent = (#[trigger] pre.pending_create@[q]).0;
                    let bld = pre.pending_create@[q].1;
                    &&& self.alive@[ent.index as int]
                    &&& self.positions.slots()[ent.index as int] == bld.pos
                    &&& self.movables.slots()[ent.index as int] == bld.vel
                    &&& self.controls.slots()[ent.index as int] == bld.control
                    &&& self.renders.slots()[ent.index as int] == bld.render
                } by {
                    if q < t {
                        assert(pre.pending_create@[q].0.index != e.index);
                    }
                }
                assert forall|k: int|
                    0 <= k < n && !created_index_in(pre.pending_create@.take(t + 1), k) implies {
                    &&& (#[trigger] self.alive@[k]) == pre.alive@[k]
                    &&& self.positions.slots()[k] == pre.positions.slots()[k]
                    &&& self.movables.slots()[k] == pre.movables.slots()[k]
                    &&& self.controls.slots()[k] == pre.controls.slots()[k]
                    &&& self.renders.slots()[k] == pre.renders.slots()[k]
                } by {
                    assert(pre.pending_create@.take(t + 1)[t as int]
                        == pre.pending_create@[t as int]);
                    assert(k != e.index as int);
                    assert(!created_index_in(pre.pending_create@.take(t as int), k));
                }
            }
            t += 1;
        }
        proof {
            assert(pre.pending_create@.take(pre.pending_create@.len() as int)
                =~= pre.pending_create@);
        }
        self.pending_create.clear();

        let ghost mid = *self;
        proof {
            assert forall|e: Entity| #[trigger] mid.live(e) <==> (pre.live(e)
                || pre.created_pending(e)) by {
                if e.index < n {
                    let k = e.index as int;
                    if created_index_in(pre.pending_create@, k) {
                        let q = choose|q: int|
                            0 <= q < pre.pending_create@.len() && (
                            #[trigger] pre.pending_create@[q]).0.index == k;
                        let ec = pre.pending_create@[q].0;
                        assert(pre.pending_entry_ok(ec));
                        assert(mid.alive@[k]);
                        assert(mid.generations@[k] == pre.generations@[k]);
                        assert(!pre.alive@[k]);
                        if e.generation == ec.generation {
                            assert(e == ec);
                            assert(pre.creates()[q].0 == e);
                            assert(pre.created_pending(e));
                            assert(mid.live(e));
                        } else {
                            assert(!mid.live(e));
                            assert(!pre.live(e));
                            if pre.created_pending(e) {
                                let q2 = choose|q2: int|
                                    0 <= q2 < pre.creates().len() && (
                                    #[trigger] pre.creates()[q2]).0 == e;
                                assert(pre.pending_create@[q2].0.index == k);
                                assert(q2 == q);
                            }
                        }
                    } else {
                        assert(pre.pending_create@.take(pre.pending_create@.len() as int)
                            =~= pre.pending_create@);
                        assert(mid.alive@[k] == pre.alive@[k]);
                        assert(mid.generations@[k] == pre.generations@[k]);
                        if pre.created_pending(e) {
                            let q2 = choose|q2: int|
                                0 <= q2 < pre.creates().len() && (#[trigger] pre.creates()[q2]).0
                                    == e;
                            assert(pre.pending_create@[q2].0.index == k);
                        }
                    }
                } else {
                    assert(!mid.live(e));
                    assert(!pre.live(e));
                    if pre.created_pending(e) {
                        let q2 = choose|q2: int|
                            0 <= q2 < pre.creates().len() && (#[trigger] pre.creates()[q2]).0 == e;
                        assert(pre.pending_entry_ok(pre.pending_create@[q2].0));
                    }
                }
            }
        }

        // Destruction phase: queued destructions deactivate their slots,
        // purge all components and recycle the slot under a new generation.
        let mut m: usize = 0;
        while m < self.pending_destroy.len()
            invariant
                0 <= m <= self.pending_destroy@.len(),
                self.pending_destroy@ == pre.pending_destroy@,
                self.pending_create@.len() == 0,
                self.time == pre.time,
                self.input == pre.input,
                n == pre.generations@.len(),
                self.generations@.len() == n,
                self.alive@.len() == n,
                self.positions.slots().len() == n,
                self.movables.slots().len() == n,
                self.controls.slots().len() == n,
                self.renders.slots().len() == n,
                mid.generations@.len() == n,
                mid.alive@.len() == n,
                mid.positions.slots().len() == n,
                mid.movables.slots().len() == n,
                mid.controls.slots().len() == n,
                mid.renders.slots().len() == n,
                forall|e2: Entity|
                    #[trigger] self.live(e2) <==> (mid.live(e2) && !pre.pending_destroy@.take(
                        m as int,
                    ).contains(e2)),
                forall|k: int|
                    0 <= k < n && (#[trigger] self.alive@[k]) ==> {
                        &&& mid.alive@[k]
                        &&& self.generations@[k] == mid.generations@[k]
                        &&& self.positions.slots()[k] == mid.positions.slots()[k]
                        &&& self.movables.slots()[k] == mid.movables.slots()[k]
                        &&& self.controls.slots()[k] == mid.controls.slots()[k]
                        &&& self.renders.slots()[k] == mid.renders.slots()[k]
                    },
                forall|k: int|
                    0 <= k < n ==> ((#[trigger] self.positions.slots()[k]) is Some
                        ==> self.alive@[k]),
                forall|k: int|
                    0 <= k < n ==> ((#[trigger] self.movables.slots()[k]) is Some
                        ==> self.alive@[k]),
                forall|k: int|
                    0 <= k < n ==> ((#[trigger] self.controls.slots()[k]) is Some
                        ==> self.alive@[k]),
                forall|k: int|
                    0 <= k < n ==> ((#[trigger] self.renders.slots()[k]) is Some
                        ==> self.alive@[k]),
                forall|i: int|
                    0 <= i < self.free@.len() ==> (#[trigger] self.free@[i]) < n
                        && !self.alive@[self.free@[i] as int],
                forall|i: int, j: int|
                    0 <= i < j < self.free@.len() ==> (#[trigger] self.free@[i]) != (
                    #[trigger] self.free@[j]),
            decreases self.pending_destroy@.len() - m,
        {
            let e = self.pending_destroy[m];
            let ghost cur = *self;
            proof {
                assert(pre.pending_destroy@.take(m + 1).last() == pre.pending_destroy@[m as int]);
                assert(pre.pending_destroy@.take(m + 1).drop_last() =~= pre.pending_destroy@.take(
                    m as int,
                ));
                assert(pre.pending_destroy@.take(m + 1)[m as int] == e);
            }
            if e.index < n {
                let was_alive = self.alive[e.index];
                let g = self.generations[e.index];
                if was_alive && g == e.generation {
                    self.alive[e.index] = false;
                    self.positions.clear_at(e.index);
                    self.movables.clear_at(e.index);
                    self.controls.clear_at(e.index);
                    self.renders.clear_at(e.index);
                    let g2: u64 = if g == u64::MAX {
                        g
                    } else {
                        g + 1
                    };
                    self.generations[e.index] = g2;
                    self.free.push(e.index);
                    proof {
                        assert forall|e2: Entity| #[trigger] self.live(e2) <==> (mid.live(e2)
                            && !pre.pending_destroy@.take(m + 1).contains(e2)) by {
                            lemma_take_step_contains(pre.pending_destroy@, m as int, e2);
                            if e2.index as int == e.index as int {
                                assert(!self.alive@[e2.index as int]);
                                assert(!self.live(e2));
                                if mid.live(e2) && !pre.pending_destroy@.take(m + 1).contains(e2) {
                                    assert(cur.alive@[e.index as int]);
                                    assert(cur.generations@[e.index as int] == mid.generations@[
                                        e.index as int]);
                                    assert(e2.generation == mid.generations@[e2.index as int]);
                                    assert(e2 == e);
                                    assert(pre.pending_destroy@.take(m + 1).contains(e));
                                }
                            } else {
                                assert(self.live(e2) == cur.live(e2));
                                assert(cur.live(e2) <==> (mid.live(e2)
                                    && !pre.pending_destroy@.take(m as int).contains(e2)));
                                assert(e2 != e);
                            }
                        }
                    }
                } else {
                    proof {
                        assert forall|e2: Entity| #[trigger] self.live(e2) <==> (mid.live(e2)
                            && !pre.pending_destroy@.take(m + 1).contains(e2)) by {
                            lemma_take_step_contains(pre.pending_destroy@, m as int, e2);
                            if e2 == e {
                                assert(!self.live(e));
                                assert(pre.pending_destroy@.take(m + 1).contains(e));
                                if mid.live(e) {
                                    assert(cur.live(e2) <==> (mid.live(e2)
                                        && !pre.pending_destroy@.take(m as int).contains(e2)));
                                }
                            }
                        }
                    }
                }
            } else {
                proof {
                    assert forall|e2: Entity| #[trigger] self.live(e2) <==> (mid.live(e2)
                        && !pre.pending_destroy@.take(m + 1).contains(e2)) by {
                        lemma_take_step_contains(pre.pending_destroy@, m as int, e2);
                        if e2 == e {
                            assert(!self.live(e));
                            assert(pre.pending_destroy@.take(m + 1).contains(e));
                        }
                    }
                }
            }
            m += 1;
        }
        let ghost endb = *self;
        proof {
            assert(pre.pending_destroy@.take(pre.pending_destroy@.len() as int)
                =~= pre.pending_destroy@);
        }
        self.pending_destroy.clear();

        proof {
            let post = *self;
            assert(post.creates() =~= Seq::<(Entity, EntityBuilder)>::empty());
            assert(post.destroys() =~= Seq::<Entity>::empty());
            assert forall|e: Entity| #[trigger] post.live(e) <==> ((pre.live(e)
                || pre.created_pending(e)) && !pre.destroys().contains(e)) by {
                assert(post.live(e) == endb.live(e));
                assert(endb.live(e) <==> (mid.live(e) && !pre.pending_destroy@.contains(e)));
                assert(mid.live(e) <==> (pre.live(e) || pre.created_pending(e)));
            }
            assert forall|e: Entity, b: EntityBuilder|
                #[trigger] pre.pending_builder_is(e, b) && post.live(e) implies {
                &&& post.pos_of(e) == b.pos
                &&& post.vel_of(e) == b.vel
                &&& post.control_of(e) == b.control
                &&& post.render_of(e) == b.render
            } by {
                let q = choose|q: int|
                    0 <= q < pre.pending_create@.len() && pre.pending_create@[q] == (e, b);
                assert(pre.pending_create@[q].0 == e);
                assert(pre.pending_entry_ok(pre.pending_create@[q].0));
                assert(mid.positions.slots()[e.index as int] == b.pos);
                assert(post.live(e) == endb.live(e));
                assert(endb.alive@[e.index as int]);
                assert(endb.positions.slots()[e.index as int] == mid.positions.slots()[
                    e.index as int]);
                assert(endb.movables.slots()[e.index as int] == mid.movables.slots()[
                    e.index as int]);
                assert(endb.controls.slots()[e.index as int] == mid.controls.slots()[
                    e.index as int]);
                assert(endb.renders.slots()[e.index as int] == mid.renders.slots()[
                    e.index as int]);
            }
            assert forall|e: Entity|
                !pre.created_pending(e) implies #[trigger] post.pos_of(e) == (if post.live(e) {
                pre.pos_of(e)
            } else {
                None::<Position>
            }) by {
                if post.live(e) {
                    assert(post.live(e) == endb.live(e));
                    assert(endb.live(e) <==> (mid.live(e) && !pre.pending_destroy@.contains(e)));
                    assert(mid.live(e) <==> (pre.live(e) || pre.created_pending(e)));
                    assert(pre.live(e));
                    assert(endb.alive@[e.index as int]);
                    assert(endb.positions.slots()[e.index as int] == mid.positions.slots()[
                        e.index as int]);
                    assert(endb.movables.slots()[e.index as int] == mid.movables.slots()[
                        e.index as int]);
                    assert(endb.controls.slots()[e.index as int] == mid.controls.slots()[
                        e.index as int]);
                    assert(endb.renders.slots()[e.index as int] == mid.renders.slots()[
                        e.index as int]);
                    if created_index_in(pre.pending_create@, e.index as int) {
                        let q = choose|q: int|
                            0 <= q < pre.pending_create@.len() && (
                            #[trigger] pre.pending_create@[q]).0.index == e.index as int;
                        assert(pre.pending_entry_ok(pre.pending_create@[q].0));
                        assert(!pre.alive@[e.index as int]);
                    }
                    assert(!created_index_in(pre.pending_create@, e.index as int));
                    assert(!created_index_in(
                        pre.pending_create@.take(pre.pending_create@.len() as int),
                        e.index as int,
                    ));
                }
            }
            assert forall|e: Entity|
                !pre.created_pending(e) implies #[trigger] post.vel_of(e) == (if post.live(e) {
                pre.vel_of(e)
            } else {
                None::<Movable>
            }) by {
                if post.live(e) {
                    assert(post.live(e) == endb.live(e));
                    assert(endb.live(e) <==> (mid.live(e) && !pre.pending_destroy@.contains(e)));
                    assert(mid.live(e) <==> (pre.live(e) || pre.created_pending(e)));
                    assert(pre.live(e));
                    assert(endb.alive@[e.index as int]);
                    assert(endb.positions.slots()[e.index as int] == mid.positions.slots()[
                        e.index as int]);
                    assert(endb.movables.slots()[e.index as int] == mid.movables.slots()[
                        e.index as int]);
                    assert(endb.controls.slots()[e.index as int] == mid.controls.slots()[
                        e.index as int]);
                    assert(endb.renders.slots()[e.index as int] == mid.renders.slots()[
                        e.index as int]);
                    if created_index_in(pre.pending_create@, e.index as int) {
                        let q = choose|q: int|
                            0 <= q < pre.pending_create@.len() && (
                            #[trigger] pre.pending_create@[q]).0.index == e.index as int;
                        assert(pre.pending_entry_ok(pre.pending_create@[q].0));
                        assert(!pre.alive@[e.index as int]);
                    }
                    assert(!created_index_in(pre.pending_create@, e.index as int));
                    assert(!created_index_in(
                        pre.pending_create@.take(pre.pending_create@.len() as int),
                        e.index as int,
                    ));
                }
            }
            assert forall|e: Entity|
                !pre.created_pending(e) implies #[trigger] post.control_of(e) == (if post.live(e) {
                pre.control_of(e)
            } else {
                None::<Control>
            }) by {
                if post.live(e) {
                    assert(post.live(e) == endb.live(e));
                    assert(endb.live(e) <==> (mid.live(e) && !pre.pending_destroy@.contains(e)));
                    assert(mid.live(e) <==> (pre.live(e) || pre.created_pending(e)));
                    assert(pre.live(e));
                    assert(endb.alive@[e.index as int]);
                    assert(endb.positions.slots()[e.index as int] == mid.positions.slots()[
                        e.index as int]);
                    assert(endb.movables.slots()[e.index as int] == mid.movables.slots()[
                        e.index as int]);
                    assert(endb.controls.slots()[e.index as int] == mid.controls.slots()[
                        e.index as int]);
                    assert(endb.renders.slots()[e.index as int] == mid.renders.slots()[
                        e.index as int]);
                    if created_index_in(pre.pending_create@, e.index as int) {
                        let q = choose|q: int|
                            0 <= q < pre.pending_create@.len() && (
                            #[trigger] pre.pending_create@[q]).0.index == e.index as int;
                        assert(pre.pending_entry_ok(pre.pending_create@[q].0));
                        assert(!pre.alive@[e.index as int]);
                    }
                    assert(!created_index_in(pre.pending_create@, e.index as int));
                    assert(!created_index_in(
                        pre.pending_create@.take(pre.pending_create@.len() as int),
                        e.index as int,
                    ));
                }
            }
            assert forall|e: Entity|
                !pre.created_pending(e) implies #[trigger] post.render_of(e) == (if post.live(e) {
                pre.render_of(e)
            } else {
                None::<Render>
            }) by {
                if post.live(e) {
                    assert(post.live(e) == endb.live(e));
                    assert(endb.live(e) <==> (mid.live(e) && !pre.pending_destroy@.contains(e)));
                    assert(mid.live(e) <==> (pre.live(e) || pre.created_pending(e)));
                    assert(pre.live(e));
                    assert(endb.alive@[e.index as int]);
                    assert(endb.positions.slots()[e.index as int] == mid.positions.slots()[
                        e.index as int]);
                    assert(endb.movables.slots()[e.index as int] == mid.movables.slots()[
                        e.index as int]);
                    assert(endb.controls.slots()[e.index as int] == mid.controls.slots()[
                        e.index as int]);
                    assert(endb.renders.slots()[e.index as int] == mid.renders.slots()[
                        e.index as int]);
                    if created_index_in(pre.pending_create@, e.index as int) {
                        let q = choose|q: int|
                            0 <= q < pre.pending_create@.len() && (
                            #[trigger] pre.pending_create@[q]).0.index == e.index as int;
                        assert(pre.pending_entry_ok(pre.pending_create@[q].0));
                        assert(!pre.alive@[e.index as int]);
                    }
                    assert(!created_index_in(pre.pending_create@, e.index as int));
                    assert(!created_index_in(
                        pre.pending_create@.take(pre.pending_create@.len() as int),
                        e.index as int,
                    ));
                }
            }
        }
    }
}

impl EntitySet {
    /// Whether `e` is currently live.
    pub fn is_live(&self, e: Entity) -> (r: bool)
        requires
            self.wf(),
        ensures
            r == self.live(e),
    {
        e.index < self.alive.len() && self.alive[e.index] && self.generations[e.index]
            == e.generation
    }

    /// The `Position` attached to `e`: `Some` exactly when `e` is live and
    /// holds one, never a fabricated default.
    pub fn get_position(&self, e: Entity) -> (r: Option<Position>)
        requires
            self.wf(),
        ensures
            r == self.pos_of(e),
    {
        if self.is_live(e) {
            self.positions.get(e.index)
        } else {
            None
        }
    }

    /// The `Movable` attached to `e`: `Some` exactly when `e` is live and
    /// holds one.
    pub fn get_movable(&self, e: Entity) -> (r: Option<Movable>)
        requires
            self.wf(),
        ensures
            r == self.vel_of(e),
    {
        if self.is_live(e) {
            self.movables.get(e.index)
        } else {
            None
        }
    }

    /// The `Control` attached to `e`: `Some` exactly when `e` is live and
    /// holds one.
    pub fn get_control(&self, e: Entity) -> (r: Option<Control>)
        requires
            self.wf(),
        ensures
            r == self.control_of(e),
    {
        if self.is_live(e) {
            self.controls.get(e.index)
        } else {
            None
        }
    }

    /// The `Render` attached to `e`: `Some` exactly when `e` is live and
    /// holds one.
    pub fn get_render(&self, e: Entity) -> (r: Option<Render>)
        requires
            self.wf(),
        ensures
            r == self.render_of(e),
    {
        if self.is_live(e) {
            self.renders.get(e.index)
        } else {
            None
        }
    }

    /// All currently live entities, in slot order.
    pub fn entities(&self) -> (r: Vec<Entity>)
        requires
            self.wf(),
        ensures
            forall|i: int| 0 <= i < r@.len() ==> self.live(#[trigger] r@[i]),
            forall|e: Entity| #[trigger] self.live(e) ==> r@.contains(e),
            forall|i: int, j: int| 0 <= i < j < r@.len() ==> (#[trigger] r@[i]).index < (
            #[trigger] r@[j]).index,
    {
        let mut out: Vec<Entity> = Vec::new();
        let mut idx: usize = 0;
        while idx < self.alive.len()
            invariant
                self.wf(),
                0 <= idx <= self.alive@.len(),
                forall|i: int| 0 <= i < out@.len() ==> self.live(#[trigger] out@[i]),
                forall|e: Entity|
                    #[trigger] self.live(e) && e.index < idx ==> out@.contains(e),
                forall|i: int| 0 <= i < out@.len() ==> (#[trigger] out@[i]).index < idx,
                forall|i: int, j: int| 0 <= i < j < out@.len() ==> (#[trigger] out@[i]).index < (
                #[trigger] out@[j]).index,
            decreases self.alive@.len() - idx,
        {
            if self.alive[idx] {
                let e = Entity { index: idx, generation: self.generations[idx] };
                let ghost out0 = out@;
                out.push(e);
                proof {
                    assert(out@.last() == e);
                    assert forall|e2: Entity|
                        #[trigger] self.live(e2) && e2.index < idx + 1 implies out@.contains(
                        e2,
                    ) by {
                        if e2.index == idx {
                            assert(e2 == e);
                            assert(out@[out@.len() - 1] == e2);
                        } else {
                            assert(out0.contains(e2));
                            let i = choose|i: int| 0 <= i < out0.len() && out0[i] == e2;
                            assert(out@[i] == e2);
                        }
                    }
                }
            }
            idx += 1;
        }
        out
    }

    /// The entities holding both `Position` and `Movable`: exactly the
    /// inner join, in slot order.
    pub fn join_position_movable(&self) -> (r: Vec<Entity>)
        requires
            self.wf(),
        ensures
            forall|i: int| 0 <= i < r@.len() ==> self.movement_join(#[trigger] r@[i]),
            forall|e: Entity| #[trigger] self.movement_join(e) ==> r@.contains(e),
            forall|i: int, j: int| 0 <= i < j < r@.len() ==> (#[trigger] r@[i]).index < (
            #[trigger] r@[j]).index,
    {
        let mut out: Vec<Entity> = Vec::new();
        let mut idx: usize = 0;
        while idx < self.alive.len()
            invariant
                self.wf(),
                0 <= idx <= self.alive@.len(),
                forall|i: int| 0 <= i < out@.len() ==> self.movement_join(#[trigger] out@[i]),
                forall|e: Entity|
                    #[trigger] self.movement_join(e) && e.index < idx ==> out@.contains(e),
                forall|i: int| 0 <= i < out@.len() ==> (#[trigger] out@[i]).index < idx,
                forall|i: int, j: int| 0 <= i < j < out@.len() ==> (#[trigger] out@[i]).index < (
                #[trigger] out@[j]).index,
            decreases self.alive@.len() - idx,
        {
            if self.alive[idx] && self.positions.get(idx).is_some() && self.movables.get(
                idx,
            ).is_some() {
                let e = Entity { index: idx, generation: self.generations[idx] };
                let ghost out0 = out@;
                out.push(e);
                proof {
                    assert forall|e2: Entity|
                        #[trigger] self.movement_join(e2) && e2.index < idx + 1 implies out@
                        .contains(e2) by {
                        if e2.index == idx {
                            assert(e2 == e);
                            assert(out@[out@.len() - 1] == e2);
                        } else {
                            assert(out0.contains(e2));
                            let i = choose|i: int| 0 <= i < out0.len() && out0[i] == e2;
                            assert(out@[i] == e2);
                        }
                    }
                }
            }
            idx += 1;
        }
        out
    }

    /// The entities holding `Position`, `Movable` and `Control`: exactly
    /// the inner join, in slot order.
    pub fn join_position_movable_control(&self) -> (r: Vec<Entity>)
        requires
            self.wf(),
        ensures
            forall|i: int| 0 <= i < r@.len() ==> self.control_join(#[trigger] r@[i]),
            forall|e: Entity| #[trigger] self.control_join(e) ==> r@.contains(e),
            forall|i: int, j: int| 0 <= i < j < r@.len() ==> (#[trigger] r@[i]).index < (
            #[trigger] r@[j]).index,
    {
        let mut out: Vec<Entity> = Vec::new();
        let mut idx: usize = 0;
        while idx < self.alive.len()
            invariant
                self.wf(),
                0 <= idx <= self.alive@.len(),
                forall|i: int| 0 <= i < out@.len() ==> self.control_join(#[trigger] out@[i]),
                forall|e: Entity|
                    #[trigger] self.control_join(e) && e.index < idx ==> out@.contains(e),
                forall|i: int| 0 <= i < out@.len() ==> (#[trigger] out@[i]).index < idx,
                forall|i: int, j: int| 0 <= i < j < out@.len() ==> (#[trigger] out@[i]).index < (
                #[trigger] out@[j]).index,
            decreases self.alive@.len() - idx,
        {
            if self.alive[idx] && self.positions.get(idx).is_some() && self.movables.get(
                idx,
            ).is_some() && self.controls.get(idx).is_some() {
                let e = Entity { index: idx, generation: self.generations[idx] };
                let ghost out0 = out@;
                out.push(e);
                proof {
                    assert forall|e2: Entity|
                        #[trigger] self.control_join(e2) && e2.index < idx + 1 implies out@
                        .contains(e2) by {
                        if e2.index == idx {
                            assert(e2 == e);
                            assert(out@[out@.len() - 1] == e2);
                        } else {
                            assert(out0.contains(e2));
                            let i = choose|i: int| 0 <= i < out0.len() && out0[i] == e2;
                            assert(out@[i] == e2);
                        }
                    }
                }
            }
            idx += 1;
        }
        out
    }

    /// The per-frame render snapshot: one record per live entity holding
    /// both `Position` and `Render`, in slot order.
    pub fn render_snapshot(&self) -> (r: Vec<RenderGraphic>)
        requires
            self.wf(),
        ensures
            forall|i: int|
                0 <= i < r@.len() ==> (#[trigger] r@[i]) == (RenderGraphic {
                    entity: r@[i].entity,
                    pos: self.pos_of(r@[i].entity)->Some_0.0,
                    state: self.render_of(r@[i].entity)->Some_0.state,
                }) && self.render_join(r@[i].entity),
            forall|e: Entity| #[trigger] self.render_join(e) ==> exists|i: int|
                0 <= i < r@.len() && (#[trigger] r@[i]).entity == e,
            forall|i: int, j: int| 0 <= i < j < r@.len() ==> (#[trigger] r@[i]).entity.index < (
            #[trigger] r@[j]).entity.index,
    {
        let mut out: Vec<RenderGraphic> = Vec::new();
        let mut idx: usize = 0;
        while idx < self.alive.len()
            invariant
                self.wf(),
                0 <= idx <= self.alive@.len(),
                forall|i: int|
                    0 <= i < out@.len() ==> (#[trigger] out@[i]) == (RenderGraphic {
                        entity: out@[i].entity,
                        pos: self.pos_of(out@[i].entity)->Some_0.0,
                        state: self.render_of(out@[i].entity)->Some_0.state,
                    }) && self.render_join(out@[i].entity),
                forall|e: Entity|
                    #[trigger] self.render_join(e) && e.index < idx ==> exists|i: int|
                        0 <= i < out@.len() && (#[trigger] out@[i]).entity == e,
                forall|i: int| 0 <= i < out@.len() ==> (#[trigger] out@[i]).entity.index < idx,
                forall|i: int, j: int|
                    0 <= i < j < out@.len() ==> (#[trigger] out@[i]).entity.index < (
                    #[trigger] out@[j]).entity.index,
            decreases self.alive@.len() - idx,
        {
            if self.alive[idx] {
                let pos_opt = self.positions.get(idx);
                let ren_opt = self.renders.get(idx);
                match (pos_opt, ren_opt) {
                    (Some(p), Some(ren)) => {
                        let e = Entity { index: idx, generation: self.generations[idx] };
                        let ghost out0 = out@;
                        out.push(RenderGraphic { entity: e, pos: p.0, state: ren.state });
                        proof {
                            assert forall|e2: Entity|
                                #[trigger] self.render_join(e2) && e2.index < idx + 1 implies
                                exists|i: int|
                                    0 <= i < out@.len() && (#[trigger] out@[i]).entity == e2 by {
                                if e2.index == idx {
                                    assert(e2 == e);
                                    assert(out@[out@.len() - 1].entity == e2);
                                } else {
                                    let i = choose|i: int|
                                        0 <= i < out0.len() && (#[trigger] out0[i]).entity == e2;
                                    assert(out@[i].entity == e2);
                                }
                            }
                        }
                    },
                    _ => {},
                }
            }
            idx += 1;
        }
        out
    }

    /// One movement-system pass: integrates every joined entity's rate over
    /// the frame's elapsed time, in place.
    pub fn run_movement(&mut self)
        requires
            old(self).wf(),
            old(self).has_time(),
        ensures
            movement_rel(*old(self), *final(self)),
    {
        let ghost pre = *old(self);
        let elapsed = self.read_time().elapsed_micros();
        let n = self.alive.len();
        let mut idx: usize = 0;
        while idx < n
            invariant
                0 <= idx <= n,
                n == pre.generations@.len(),
                self.generations@ == pre.generations@,
                self.alive@ == pre.alive@,
                self.free@ == pre.free@,
                self.pending_create@ == pre.pending_create@,
                self.pending_destroy@ == pre.pending_destroy@,
                self.movables == pre.movables,
                self.controls == pre.controls,
                self.renders == pre.renders,
                self.time == pre.time,
                self.input == pre.input,
                pre.wf(),
                pre.has_time(),
                elapsed == pre.time_of().elapsed_us,
                self.positions.slots().len() == n,
                forall|k: int|
                    0 <= k < n ==> (#[trigger] self.positions.slots()[k]) == (if k < idx
                        && slot_moves(pre, k) {
                        let p = pre.positions.slots()[k]->Some_0;
                        let v = pre.movables.slots()[k]->Some_0;
                        Some(
                            Position(
                                Vector2 {
                                    x: moved_component(
                                        p.0.x as int,
                                        v.0.x as int,
                                        pre.time_of().elapsed_us as int,
                                    ) as i64,
                                    y: moved_component(
                                        p.0.y as int,
                                        v.0.y as int,
                                        pre.time_of().elapsed_us as int,
                                    ) as i64,
                                },
                            ),
                        )
                    } else {
                        pre.positions.slots()[k]
                    }),
            decreases n - idx,
        {
            if self.alive[idx] {
                let pos_opt = self.positions.get(idx);
                let vel_opt = self.movables.get(idx);
                match (pos_opt, vel_opt) {
                    (Some(p), Some(v)) => {
                        let nx = sat_add(p.0.x, scale_rate(v.0.x, elapsed));
                        let ny = sat_add(p.0.y, scale_rate(v.0.y, elapsed));
                        self.positions.set(idx, Position(Vector2 { x: nx, y: ny }));
                    },
                    _ => {},
                }
            }
            idx += 1;
        }
        proof {
            let post = *self;
            assert forall|e: Entity| #[trigger] post.pos_of(e) == (if pre.movement_join(e) {
                let p = pre.pos_of(e)->Some_0;
                let v = pre.vel_of(e)->Some_0;
                let el = pre.time_of().elapsed_us as int;
                Some(
                    Position(
                        Vector2 {
                            x: moved_component(p.0.x as int, v.0.x as int, el) as i64,
                            y: moved_component(p.0.y as int, v.0.y as int, el) as i64,
                        },
                    ),
                )
            } else {
                pre.pos_of(e)
            }) by {
                if e.index < n {
                    assert(post.live(e) == pre.live(e));
                }
            }
            assert forall|e: Entity| pre.vel_of(e) == #[trigger] post.vel_of(e) by {}
            assert forall|e: Entity| pre.control_of(e) == #[trigger] post.control_of(e) by {}
            assert forall|e: Entity| pre.render_of(e) == #[trigger] post.render_of(e) by {}
        }
    }

    /// One control-system pass: every entity joined over position, rate and
    /// control has its controller rewrite the rate from the frame's input
    /// batch, in place.
    pub fn run_control(&mut self)
        requires
            old(self).wf(),
            old(self).has_time(),
            old(self).has_input(),
        ensures
            control_rel(*old(self), *final(self)),
    {
        let ghost pre = *old(self);
        let t: GameTime = *self.read_time();
        let batch = self.read_input().clone();
        let n = self.alive.len();
        let mut idx: usize = 0;
        while idx < n
            invariant
                0 <= idx <= n,
                n == pre.generations@.len(),
                self.generations@ == pre.generations@,
                self.alive@ == pre.alive@,
                self.free@ == pre.free@,
                self.pending_create@ == pre.pending_create@,
                self.pending_destroy@ == pre.pending_destroy@,
                self.positions == pre.positions,
                self.controls == pre.controls,
                self.renders == pre.renders,
                self.time == pre.time,
                self.input == pre.input,
                pre.wf(),
                pre.has_time(),
                pre.has_input(),
                t == pre.time_of(),
                batch@ == pre.input_of(),
                self.movables.slots().len() == n,
                forall|k: int|
                    0 <= k < n ==> (#[trigger] self.movables.slots()[k]) == (if k < idx
                        && slot_steers(pre, k) {
                        let v = pre.movables.slots()[k]->Some_0;
                        let sv = steered(
                            v.0.x as int,
                            v.0.y as int,
                            pre.input_of(),
                            frame_delta(pre.time_of()),
                        );
                        Some(Movable(Vector2 { x: sv.0 as i64, y: sv.1 as i64 }))
                    } else {
                        pre.movables.slots()[k]
                    }),
            decreases n - idx,
        {
            if self.alive[idx] {
                let pos_opt = self.positions.get(idx);
                let vel_opt = self.movables.get(idx);
                let ctl_opt = self.controls.get(idx);
                match (pos_opt, vel_opt, ctl_opt) {
                    (Some(_p), Some(v), Some(c)) => {
                        let ent = Entity { index: idx, generation: self.generations[idx] };
                        let mut ctl = c.controller;
                        let mut vel = v;
                        ctl.apply(ent, &t, &mut vel, &batch);
                        self.movables.set(idx, vel);
                    },
                    _ => {},
                }
            }
            idx += 1;
        }
        proof {
            let post = *self;
            assert forall|e: Entity| #[trigger] post.vel_of(e) == (if pre.control_join(e) {
                let v = pre.vel_of(e)->Some_0;
                let sv = steered(
                    v.0.x as int,
                    v.0.y as int,
                    pre.input_of(),
                    frame_delta(pre.time_of()),
                );
                Some(Movable(Vector2 { x: sv.0 as i64, y: sv.1 as i64 }))
            } else {
                pre.vel_of(e)
            }) by {
                if e.index < n {
                    assert(post.live(e) == pre.live(e));
                }
            }
            assert forall|e: Entity| pre.pos_of(e) == #[trigger] post.pos_of(e) by {}
            assert forall|e: Entity| pre.control_of(e) == #[trigger] post.control_of(e) by {}
            assert forall|e: Entity| pre.render_of(e) == #[trigger] post.render_of(e) by {}
        }
    }
}

/// Whether slot `k` joins the movement pass: active with both a position
/// and a rate stored.
spec fn slot_moves(w: EntitySet, k: int) -> bool {
    w.alive@[k] && w.positions.slots()[k] is Some && w.movables.slots()[k] is Some
}

/// Whether slot `k` joins the control pass: active with a position, a rate
/// and a control behavior stored.
spec fn slot_steers(w: EntitySet, k: int) -> bool {
    w.alive@[k] && w.positions.slots()[k] is Some && w.movables.slots()[k] is Some
        && w.controls.slots()[k] is Some
}

/// Whether some queued creation in `s` targets slot `k`.
pub open spec fn created_index_in(s: Seq<(Entity, EntityBuilder)>, k: int) -> bool {
    exists|t: int| 0 <= t < s.len() && (#[trigger] s[t]).0.index == k
}

/// Destroying an entity and then maintaining removes it from every joined
/// iteration over any component combination that included it: the entity is
/// no longer live, so no join admits it.
pub proof fn lemma_destroyed_entity_leaves_joins(pre: EntitySet, post: EntitySet, e: Entity)
    requires
        pre.destroys().contains(e),
        maintain_rel(pre, post),
    ensures
        !post.live(e),
        !post.movement_join(e),
        !post.control_join(e),
        !post.render_join(e),
{
}

/// With a zero rate, a movement pass leaves an entity's position exactly
/// where it was, so repeated passes never move it.
pub proof fn lemma_zero_velocity_position_fixpoint(pre: EntitySet, post: EntitySet, e: Entity)
    requires
        movement_rel(pre, post),
        pre.vel_of(e) == Some(Movable(Vector2 { x: 0, y: 0 })),
    ensures
        post.pos_of(e) == pre.pos_of(e),
{
    if pre.movement_join(e) {
        let p = pre.pos_of(e)->Some_0;
        let el = pre.time_of().elapsed_us as int;
        crate::ecs::component::pos::lemma_zero_rate_is_fixpoint(p.0.x as int, el);
        crate::ecs::component::pos::lemma_zero_rate_is_fixpoint(p.0.y as int, el);
    }
}

/// A joined iteration admits only entities holding every requested
/// component: an entity lacking any one of them is never a member of the
/// join.
pub proof fn lemma_join_needs_every_component(w: EntitySet, e: Entity)
    ensures
        w.pos_of(e) is None || w.vel_of(e) is None ==> !w.movement_join(e),
        w.pos_of(e) is None || w.vel_of(e) is None || w.control_of(e) is None
            ==> !w.control_join(e),
        w.pos_of(e) is None || w.render_of(e) is None ==> !w.render_join(e),
        !w.live(e) ==> !w.movement_join(e) && !w.control_join(e) && !w.render_join(e),
{
}

/// Extending a prefix of a queue by one element extends what it contains by
/// exactly that element.
proof fn lemma_take_step_contains(s: Seq<Entity>, m: int, e2: Entity)
    requires
        0 <= m < s.len(),
    ensures
        s.take(m + 1).contains(e2) <==> (s.take(m).contains(e2) || e2 == s[m]),
{
    let tm = s.take(m);
    let tm1 = s.take(m + 1);
    assert(tm1[m] == s[m]);
    if tm1.contains(e2) {
        let i = choose|i: int| 0 <= i < tm1.len() && tm1[i] == e2;
        if i < m {
            assert(tm[i] == e2);
        }
    }
    if tm.contains(e2) {
        let i = choose|i: int| 0 <= i < tm.len() && tm[i] == e2;
        assert(tm1[i] == e2);
    }
}

/// What one maintenance pass does: queued creations become live with
/// exactly their builder's components unless also queued for destruction;
/// queued destructions stop being live and lose every component; everything
/// else keeps its liveness and components; both queues end up empty and the
/// published resources are untouched.
pub open spec fn maintain_rel(pre: EntitySet, post: EntitySet) -> bool {
    &&& post.wf()
    &&& post.creates() == Seq::<(Entity, EntityBuilder)>::empty()
    &&& post.destroys() == Seq::<Entity>::empty()
    &&& same_resources(pre, post)
    &&& (forall|e: Entity|
        #[trigger] post.live(e) <==> ((pre.live(e) || pre.created_pending(e))
            && !pre.destroys().contains(e)))
    &&& (forall|e: Entity, b: EntityBuilder|
        #[trigger] pre.pending_builder_is(e, b) && post.live(e) ==> post.pos_of(e) == b.pos
            && post.vel_of(e) == b.vel && post.control_of(e) == b.control && post.render_of(e)
            == b.render)
    &&& (forall|e: Entity|
        !pre.created_pending(e) ==> #[trigger] post.pos_of(e) == (if post.live(e) {
            pre.pos_of(e)
        } else {
            None::<Position>
        }))
    &&& (forall|e: Entity|
        !pre.created_pending(e) ==> #[trigger] post.vel_of(e) == (if post.live(e) {
            pre.vel_of(e)
        } else {
            None::<Movable>
        }))
    &&& (forall|e: Entity|
        !pre.created_pending(e) ==> #[trigger] post.control_of(e) == (if post.live(e) {
            pre.control_of(e)
        } else {
            None::<Control>
        }))
    &&& (forall|e: Entity|
        !pre.created_pending(e) ==> #[trigger] post.render_of(e) == (if post.live(e) {
            pre.render_of(e)
        } else {
            None::<Render>
        }))
}

/// Both entity sets agree on which entities are live.
pub open spec fn same_live(a: EntitySet, b: EntitySet) -> bool {
    forall|e: Entity| a.live(e) == #[trigger] b.live(e)
}

/// Both entity sets attach the same components to every entity.
pub open spec fn same_components(a: EntitySet, b: EntitySet) -> bool {
    &&& (forall|e: Entity| a.pos_of(e) == #[trigger] b.pos_of(e))
    &&& (forall|e: Entity| a.vel_of(e) == #[trigger] b.vel_of(e))
    &&& (forall|e: Entity| a.control_of(e) == #[trigger] b.control_of(e))
    &&& (forall|e: Entity| a.render_of(e) == #[trigger] b.render_of(e))
}

/// Both entity sets agree on liveness and on every component value.
pub open spec fn unchanged_entities(a: EntitySet, b: EntitySet) -> bool {
    same_live(a, b) && same_components(a, b)
}

/// Both entity sets hold the same published resources.
pub open spec fn same_resources(a: EntitySet, b: EntitySet) -> bool {
    &&& a.has_time() == b.has_time()
    &&& (a.has_time() ==> a.time_of() == b.time_of())
    &&& a.has_input() == b.has_input()
    &&& (a.has_input() ==> a.input_of() == b.input_of())
}

/// Both entity sets hold the same queued structural changes.
pub open spec fn same_pending(a: EntitySet, b: EntitySet) -> bool {
    a.creates() == b.creates() && a.destroys() == b.destroys()
}

/// What one movement-system pass does: every entity holding both a position
/// and a rate has its position advanced by the rate integrated over the
/// frame's elapsed time; everything else is untouched.
pub open spec fn movement_rel(pre: EntitySet, post: EntitySet) -> bool {
    &&& post.wf()
    &&& same_live(pre, post)
    &&& (forall|e: Entity| pre.vel_of(e) == #[trigger] post.vel_of(e))
    &&& (forall|e: Entity| pre.control_of(e) == #[trigger] post.control_of(e))
    &&& (forall|e: Entity| pre.render_of(e) == #[trigger] post.render_of(e))
    &&& same_resources(pre, post)
    &&& same_pending(pre, post)
    &&& (forall|e: Entity|
        #[trigger] post.pos_of(e) == if pre.movement_join(e) {
            let p = pre.pos_of(e)->Some_0;
            let v = pre.vel_of(e)->Some_0;
            let el = pre.time_of().elapsed_us as int;
            Some(
                Position(
                    Vector2 {
                        x: moved_component(p.0.x as int, v.0.x as int, el) as i64,
                        y: moved_component(p.0.y as int, v.0.y as int, el) as i64,
                    },
                ),
            )
        } else {
            pre.pos_of(e)
        })
}

/// What one control-system pass does: every entity holding position, rate
/// and control behavior has its rate rewritten by folding the frame's input
/// batch; everything else is untouched.
pub open spec fn control_rel(pre: EntitySet, post: EntitySet) -> bool {
    &&& post.wf()
    &&& same_live(pre, post)
    &&& (forall|e: Entity| pre.pos_of(e) == #[trigger] post.pos_of(e))
    &&& (forall|e: Entity| pre.control_of(e) == #[trigger] post.control_of(e))
    &&& (forall|e: Entity| pre.render_of(e) == #[trigger] post.render_of(e))
    &&& same_resources(pre, post)
    &&& same_pending(pre, post)
    &&& (forall|e: Entity|
        #[trigger] post.vel_of(e) == if pre.control_join(e) {
            let v = pre.vel_of(e)->Some_0;
            let sv = steered(v.0.x as int, v.0.y as int, pre.input_of(), frame_delta(pre.time_of()));
            Some(Movable(Vector2 { x: sv.0 as i64, y: sv.1 as i64 }))
        } else {
            pre.vel_of(e)
        })
}

} // verus!
