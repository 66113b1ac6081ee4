//! The system scheduler: a fixed list of systems, each declaring the exact
//! component-store and resource access it needs and, optionally, which
//! earlier systems it must run after. Construction fails fast on a
//! dependency that does not point backwards and on a conflicting pair with
//! no dependency ordering; one invocation then executes the list once, in
//! registration order.

use vstd::prelude::*;
use crate::ecs::{EntitySet, movement_rel, control_rel};
use crate::ecs::component::pos::MovementSystem;
use crate::ecs::component::controller::ControlSystem;
use crate::ecs::component::render::RenderSystem;

verus! {

/// A component store or frame resource a system may declare access to.
#[derive(Clone, Copy, Debug, PartialEq, Eq, Structural)]
pub enum AccessTarget {
    PositionStore,
    MovableStore,
    ControlStore,
    RenderStore,
    TimeResource,
    InputResource,
}

/// Which per-frame logic a registration runs.
#[derive(Clone, Copy, Debug, PartialEq, Eq, Structural)]
pub enum SystemKind {
    Movement,
    Control,
    Render,
}

/// One registered system: its kind, its declared reads and writes, and the
/// positions of earlier-registered systems it must run after.
#[derive(Debug)]
pub struct SystemReg {
    pub kind: SystemKind,
    pub reads: Vec<AccessTarget>,
    pub writes: Vec<AccessTarget>,
    pub after: Vec<usize>,
}

/// Why a registration list cannot be scheduled.
#[derive(Clone, Copy, Debug, PartialEq, Eq, Structural)]
pub enum ScheduleError {
    /// A declared dependency does not name an earlier-registered system.
    DependencyNotEarlier { system: usize, dependency: usize },
    /// Two systems declare conflicting access with no dependency ordering
    /// between them.
    UnorderedConflict { first: usize, second: usize },
}

/// Whether two access declarations conflict: some target written by one is
/// also read or written by the other.
pub open spec fn conflict(a: SystemReg, b: SystemReg) -> bool {
    exists|t: AccessTarget|
        #![trigger a.writes@.contains(t)]
        #![trigger b.writes@.contains(t)]
        (a.writes@.contains(t) && (b.writes@.contains(t) || b.reads@.contains(t))) || (
        b.writes@.contains(t) && a.reads@.contains(t))
}

/// Every declared dependency names an earlier-registered system.
pub open spec fn deps_valid(regs: Seq<SystemReg>) -> bool {
    forall|i: int, d: int|
        0 <= i < regs.len() && 0 <= d < regs[i].after@.len() ==> (#[trigger] regs[i].after@[d]) < i
}

/// Whether system `j` is declared, directly or transitively, to run after
/// system `i`.
pub open spec fn reaches(regs: Seq<SystemReg>, i: int, j: int) -> bool
    decreases j,
{
    0 <= i && 0 <= j < regs.len() && exists|d: int|
        #![trigger regs[j].after@[d]]
        0 <= d < regs[j].after@.len() && regs[j].after@[d] < j && (regs[j].after@[d] == i
            || reaches(regs, i, regs[j].after@[d] as int))
}

/// A registration list is schedulable: dependencies point backwards, and
/// every conflicting pair is ordered by a (possibly transitive) dependency.
pub open spec fn sched_valid(regs: Seq<SystemReg>) -> bool {
    &&& deps_valid(regs)
    &&& (forall|i: int, j: int|
        0 <= i < j < regs.len() && conflict(#[trigger] regs[i], #[trigger] regs[j]) ==> reaches(
            regs,
            i,
            j,
        ))
}

/// Whether `v` declares the target `t`.
fn declares(v: &Vec<AccessTarget>, t: AccessTarget) -> (r: bool)
    ensures
        r == v@.contains(t),
{
    let mut i: usize = 0;
    while i < v.len()
        invariant
            0 <= i <= v@.len(),
            forall|k: int| 0 <= k < i ==> (#[trigger] v@[k]) != t,
        decreases v@.len() - i,
    {
        if v[i] == t {
            return true;
        }
        i += 1;
    }
    false
}

/// Whether two registrations declare conflicting access.
fn conflicts(a: &SystemReg, b: &SystemReg) -> (r: bool)
    ensures
        r == conflict(*a, *b),
{
    let mut i: usize = 0;
    while i < a.writes.len()
        invariant
            0 <= i <= a.writes@.len(),
            forall|k: int|
                0 <= k < i ==> !b.writes@.contains(#[trigger] a.writes@[k]) && !b.reads@.contains(
                    a.writes@[k],
                ),
        decreases a.writes@.len() - i,
    {
        let t = a.writes[i];
        if declares(&b.writes, t) || declares(&b.reads, t) {
            proof {
                assert(a.writes@.contains(t));
            }
            return true;
        }
        i += 1;
    }
    let mut j: usize = 0;
    while j < b.writes.len()
        invariant
            0 <= j <= b.writes@.len(),
            forall|k: int|
                0 <= k < a.writes@.len() ==> !b.writes@.contains(#[trigger] a.writes@[k])
                    && !b.reads@.contains(a.writes@[k]),
            forall|k: int| 0 <= k < j ==> !a.reads@.contains(#[trigger] b.writes@[k]),
        decreases b.writes@.len() - j,
    {
        let t = b.writes[j];
        if declares(&a.reads, t) {
            proof {
                assert(b.writes@.contains(t));
            }
            return true;
        }
        j += 1;
    }
    proof {
        if conflict(*a, *b) {
            let t = choose|t: AccessTarget|
                (a.writes@.contains(t) && (b.writes@.contains(t) || b.reads@.contains(t))) || (
                b.writes@.contains(t) && a.reads@.contains(t));
            if a.writes@.contains(t) && (b.writes@.contains(t) || b.reads@.contains(t)) {
                let k = choose|k: int| 0 <= k < a.writes@.len() && a.writes@[k] == t;
                assert(!b.writes@.contains(a.writes@[k]) && !b.reads@.contains(a.writes@[k]));
            } else {
                let k = choose|k: int| 0 <= k < b.writes@.len() && b.writes@[k] == t;
                assert(!a.reads@.contains(b.writes@[k]));
            }
        }
    }
    false
}

/// Whether system `j` runs, directly or transitively, after system `i`.
fn reaches_exec(regs: &Vec<SystemReg>, i: usize, j: usize) -> (r: bool)
    requires
        deps_valid(regs@),
        j < regs@.len(),
    ensures
        r == reaches(regs@, i as int, j as int),
    decreases j,
{
    let mut d: usize = 0;
    let mut found = false;
    while d < regs[j].after.len() && !found
        invariant
            deps_valid(regs@),
            j < regs@.len(),
            0 <= d <= regs@[j as int].after@.len(),
            !found ==> forall|dd: int|
                0 <= dd < d ==> !((#[trigger] regs@[j as int].after@[dd]) == i as int || reaches(
                    regs@,
                    i as int,
                    regs@[j as int].after@[dd] as int,
                )),
            found ==> reaches(regs@, i as int, j as int),
        decreases regs@[j as int].after@.len() - d,
    {
        let dep = regs[j].after[d];
        proof {
            assert(regs@[j as int].after@[d as int] < j);
        }
        if dep == i || reaches_exec(regs, i, dep) {
            found = true;
            proof {
                assert(regs@[j as int].after@[d as int] == dep);
                assert(reaches(regs@, i as int, j as int));
            }
        }
        d += 1;
    }
    proof {
        if !found && reaches(regs@, i as int, j as int) {
            let dd = choose|dd: int|
                0 <= dd < regs@[j as int].after@.len() && (#[trigger] regs@[j as int].after@[dd])
                    < j && (regs@[j as int].after@[dd] == i as int || reaches(
                    regs@,
                    i as int,
                    regs@[j as int].after@[dd] as int,
                ));
            assert(!(regs@[j as int].after@[dd] == i as int || reaches(
                regs@,
                i as int,
                regs@[j as int].after@[dd] as int,
            )));
        }
    }
    found
}

/// A validated schedule: registration order plus declared dependencies, with
/// every conflicting pair ordered.
#[derive(Debug)]
pub struct Schedule {
    regs: Vec<SystemReg>,
}

/// The kinds of a registration list, in order.
pub open spec fn kinds_of(regs: Seq<SystemReg>) -> Seq<SystemKind> {
    regs.map_values(|r: SystemReg| r.kind)
}

impl Schedule {
    /// The validated registrations, in execution order.
    pub closed spec fn regs(self) -> Seq<SystemReg> {
        self.regs@
    }

    /// A schedule only exists for a schedulable registration list.
    pub open spec fn wf(self) -> bool {
        sched_valid(self.regs())
    }

    /// Validates a registration list: `Ok` exactly when every dependency
    /// points backwards and every conflicting pair is ordered. Detected at
    /// construction time, before any frame runs.
    pub fn build(regs: Vec<SystemReg>) -> (r: Result<Schedule, ScheduleError>)
        ensures
            r is Ok <==> sched_valid(regs@),
            (match r {
                Ok(s) => s.regs() == regs@ && s.wf(),
                Err(ScheduleError::DependencyNotEarlier { system, dependency }) => system
                    < regs@.len() && exists|d: int|
                    0 <= d < regs@[system as int].after@.len() && (
                    #[trigger] regs@[system as int].after@[d]) == dependency && dependency
                    >= system,
                Err(ScheduleError::UnorderedConflict { first, second }) => first < second
                    < regs@.len() && conflict(regs@[first as int], regs@[second as int])
                    && !reaches(regs@, first as int, second as int),
            }),
    {
        let n = regs.len();
        let mut i: usize = 0;
        while i < n
            invariant
                n == regs@.len(),
                0 <= i <= n,
                forall|ii: int, d: int|
                    0 <= ii < i && 0 <= d < regs@[ii].after@.len() ==> (
                    #[trigger] regs@[ii].after@[d]) < ii,
            decreases n - i,
        {
            let mut d: usize = 0;
            while d < regs[i].after.len()
                invariant
                    n == regs@.len(),
                    0 <= i < n,
                    0 <= d <= regs@[i as int].after@.len(),
                    forall|ii: int, dd: int|
                        0 <= ii < i && 0 <= dd < regs@[ii].after@.len() ==> (
                        #[trigger] regs@[ii].after@[dd]) < ii,
                    forall|dd: int|
                        0 <= dd < d ==> (#[trigger] regs@[i as int].after@[dd]) < i,
                decreases regs@[i as int].after@.len() - d,
            {
                let dep = regs[i].after[d];
                if dep >= i {
                    return Err(ScheduleError::DependencyNotEarlier { system: i, dependency: dep });
                }
                d += 1;
            }
            i += 1;
        }
        proof {
            assert(deps_valid(regs@));
        }

        let mut j: usize = 0;
        while j < n
            invariant
                n == regs@.len(),
                deps_valid(regs@),
                0 <= j <= n,
                forall|ii: int, jj: int|
                    0 <= ii < jj < j && conflict(#[trigger] regs@[ii], #[trigger] regs@[jj])
                        ==> reaches(regs@, ii, jj),
            decreases n - j,
        {
            let mut i2: usize = 0;
            while i2 < j
                invariant
                    n == regs@.len(),
                    deps_valid(regs@),
                    0 <= i2 <= j < n,
                    forall|ii: int, jj: int|
                        0 <= ii < jj < j && conflict(#[trigger] regs@[ii], #[trigger] regs@[jj])
                            ==> reaches(regs@, ii, jj),
                    forall|ii: int|
                        0 <= ii < i2 && conflict(#[trigger] regs@[ii], regs@[j as int]) ==> reaches(
                            regs@,
                            ii,
                            j as int,
                        ),
                decreases j - i2,
            {
                if conflicts(&regs[i2], &regs[j]) {
                    if !reaches_exec(&regs, i2, j) {
                        return Err(ScheduleError::UnorderedConflict { first: i2, second: j });
                    }
                }
                i2 += 1;
            }
            j += 1;
        }
        Ok(Schedule { regs })
    }

    /// Executes the schedule once: each registered system runs exactly once,
    /// in registration order (which `build` has checked honors every
    /// declared dependency). The frame's clock and input batch must have
    /// been published before any system runs.
    pub fn run_frame(&self, world: &mut EntitySet)
        requires
            old(world).wf(),
            old(world).has_time(),
            old(world).has_input(),
        ensures
            frame_rel(*old(world), *final(world), kinds_of(self.regs())),
            final(world).wf(),
            final(world).has_time(),
            final(world).has_input(),
    {
        let n = self.regs.len();
        let mut i: usize = 0;
        proof {
            assert(frame_rel(*old(world), *world, kinds_of(self.regs@).take(0)));
        }
        while i < n
            invariant
                n == self.regs@.len(),
                0 <= i <= n,
                world.wf(),
                world.has_time(),
                world.has_input(),
                frame_rel(*old(world), *world, kinds_of(self.regs@).take(i as int)),
            decreases n - i,
        {
            let ghost prev = *world;
            let ghost kinds = kinds_of(self.regs@);
            match self.regs[i].kind {
                SystemKind::Movement => {
                    let mut sys = MovementSystem;
                    sys.run(world);
                },
                SystemKind::Control => {
                    let mut sys = ControlSystem;
                    sys.run(world);
                },
                SystemKind::Render => {
                    let mut sys = RenderSystem;
                    sys.run(world);
                },
            }
            proof {
                assert(kinds[i as int] == self.regs@[i as int].kind);
                assert(sys_rel(prev, *world, kinds[i as int]));
                assert(kinds.take(i + 1) =~= kinds.take(i as int).push(kinds[i as int]));
                lemma_frame_rel_step(
                    *old(world),
                    prev,
                    *world,
                    kinds.take(i as int),
                    kinds[i as int],
                );
            }
            i += 1;
        }
        proof {
            assert(kinds_of(self.regs@).take(kinds_of(self.regs@).len() as int) =~= kinds_of(
                self.regs@,
            ));
        }
    }

    /// The canonical frame schedule: control first (it writes the rates),
    /// then movement (it reads them), then the read-only render pass, with
    /// the dependencies declared. It always builds.
    pub fn standard() -> (s: Schedule)
        ensures
            s.wf(),
            kinds_of(s.regs()) == seq![SystemKind::Control, SystemKind::Movement, SystemKind::Render],
    {
        let mut control_reads: Vec<AccessTarget> = Vec::new();
        control_reads.push(AccessTarget::PositionStore);
        control_reads.push(AccessTarget::TimeResource);
        control_reads.push(AccessTarget::InputResource);
        let mut control_writes: Vec<AccessTarget> = Vec::new();
        control_writes.push(AccessTarget::MovableStore);
        control_writes.push(AccessTarget::ControlStore);
        let control = SystemReg {
            kind: SystemKind::Control,
            reads: control_reads,
            writes: control_writes,
            after: Vec::new(),
        };

        let mut movement_reads: Vec<AccessTarget> = Vec::new();
        movement_reads.push(AccessTarget::MovableStore);
        movement_reads.push(AccessTarget::TimeResource);
        let mut movement_writes: Vec<AccessTarget> = Vec::new();
        movement_writes.push(AccessTarget::PositionStore);
        let mut movement_after: Vec<usize> = Vec::new();
        movement_after.push(0);
        let movement = SystemReg {
            kind: SystemKind::Movement,
            reads: movement_reads,
            writes: movement_writes,
            after: movement_after,
        };

        let mut render_reads: Vec<AccessTarget> = Vec::new();
        render_reads.push(AccessTarget::PositionStore);
        render_reads.push(AccessTarget::RenderStore);
        render_reads.push(AccessTarget::TimeResource);
        let mut render_after: Vec<usize> = Vec::new();
        render_after.push(1);
        let render = SystemReg {
            kind: SystemKind::Render,
            reads: render_reads,
            writes: Vec::new(),
            after: render_after,
        };

        let mut regs: Vec<SystemReg> = Vec::new();
        regs.push(control);
        regs.push(movement);
        regs.push(render);
        proof {
            assert(regs@[1].after@[0] == 0);
            assert(regs@[2].after@[0] == 1);
            assert forall|i: int, d: int|
                0 <= i < regs@.len() && 0 <= d < regs@[i].after@.len() implies (
            #[trigger] regs@[i].after@[d]) < i by {
                if i == 1 {
                    assert(regs@[1].after@.len() == 1);
                    assert(regs@[i].after@[d] == 0);
                } else if i == 2 {
                    assert(regs@[2].after@.len() == 1);
                    assert(regs@[i].after@[d] == 1);
                } else {
                    assert(regs@[0].after@.len() == 0);
                }
            }
            assert(reaches(regs@, 0, 1));
            assert(reaches(regs@, 1, 2));
            assert(reaches(regs@, 0, 2));
            assert forall|i: int, j: int|
                0 <= i < j < regs@.len() && conflict(#[trigger] regs@[i], #[trigger] regs@[j])
                implies reaches(regs@, i, j) by {}
            assert(sched_valid(regs@));
        }
        let r = Schedule::build(regs);
        match r {
            Ok(s) => {
                proof {
                    assert(kinds_of(s.regs()) =~= seq![
                        SystemKind::Control,
                        SystemKind::Movement,
                        SystemKind::Render,
                    ]);
                }
                s
            },
            Err(_e) => unreached(),
        }
    }
}

/// What one system pass does to the entity set, by kind.
pub open spec fn sys_rel(pre: EntitySet, post: EntitySet, k: SystemKind) -> bool {
    match k {
        SystemKind::Movement => movement_rel(pre, post),
        SystemKind::Control => control_rel(pre, post),
        SystemKind::Render => post == pre,
    }
}

/// Whether some intermediate state links `pre` to `post` by running all
/// kinds but the last, then the last.
pub open spec fn frame_rel_split(pre: EntitySet, post: EntitySet, kinds: Seq<SystemKind>) -> bool
    decreases kinds.len(), 0int,
{
    kinds.len() > 0 && exists|w: EntitySet|
        frame_rel(pre, w, kinds.drop_last()) && #[trigger] sys_rel(w, post, kinds.last())
}

/// The frame relation: `post` results from `pre` by running the listed
/// system kinds once each, in order.
pub open spec fn frame_rel(pre: EntitySet, post: EntitySet, kinds: Seq<SystemKind>) -> bool
    decreases kinds.len(), 1int,
{
    if kinds.len() == 0 {
        post == pre
    } else {
        frame_rel_split(pre, post, kinds)
    }
}

/// Running one more system extends the frame relation by its kind.
pub proof fn lemma_frame_rel_step(
    pre: EntitySet,
    w: EntitySet,
    post: EntitySet,
    kinds: Seq<SystemKind>,
    k: SystemKind,
)
    requires
        frame_rel(pre, w, kinds),
        sys_rel(w, post, k),
    ensures
        frame_rel(pre, post, kinds.push(k)),
{
    let ks = kinds.push(k);
    assert(ks.len() != 0);
    assert(ks.drop_last() =~= kinds);
    assert(ks.last() == k);
    assert(frame_rel(pre, w, ks.drop_last()));
    assert(sys_rel(w, post, ks.last()));
    assert(frame_rel_split(pre, post, ks));
}

} // verus!
