use vstd::prelude::*;
use crate::death::{
    DeathLifecycle, DeathSystem, DeathTracker, MAX_DEATH_TIMEOUT_MS, MIN_DEATH_TIMEOUT_MS, contact_next,
    death_next,
};
use crate::geometry::Pos;
use crate::motion::{
    InMotionLifecycle, MAX_MOTION_SLEEP_MS, MIN_MOTION_SLEEP_MS, MotionLifecycle, MotionSystem,
    MotionTracker, PositionUpdate, lemma_progress_monotone, motion_next, progressed,
};
use crate::tree::Tracker;

verus! {

/// One creature: where it stands and its two state machines.
#[derive(Clone, Copy, Debug, PartialEq, Eq, Structural)]
pub struct Animal {
    pub position: Pos,
    pub motion: MotionTracker,
    pub death: DeathTracker,
}

/// A request to spawn a creature at `position`.
#[derive(Clone, Copy, Debug, PartialEq, Eq, Structural)]
pub struct SpawnEvent {
    pub position: Pos,
}

/// A newly spawned creature at `p`: at rest and alive, with a rest and a
/// timeout inside the game's ranges.
pub open spec fn is_newborn(a: Animal, p: Pos) -> bool {
    &&& a.position == p
    &&& a.motion.lifecycle is Idle
    &&& MIN_MOTION_SLEEP_MS <= a.motion.cooldown <= MAX_MOTION_SLEEP_MS
    &&& a.death.lifecycle is Alive
    &&& MIN_DEATH_TIMEOUT_MS <= a.death.timeout <= MAX_DEATH_TIMEOUT_MS
}

/// `p` after the update `u`, where the update does not need easing.
pub open spec fn updated_position(p: Pos, u: PositionUpdate) -> Pos {
    match u {
        PositionUpdate::SnapTo(q) => q,
        _ => p,
    }
}

/// `a` after its motion step `(m, u)`.
pub open spec fn moved(a: Animal, m: MotionTracker, u: PositionUpdate) -> Animal {
    Animal { position: updated_position(a.position, u), motion: m, ..a }
}

/// `a` after its ageing step and the contact check that follows it.
pub open spec fn aged(a: Animal, dt: u32, landmarks: Seq<Pos>) -> Animal {
    Animal {
        death: contact_next(death_next(a.death, dt, landmarks, a.position), landmarks, a.position),
        ..a
    }
}

/// `b` and `u` are what a motion step makes of `a` with the wander vector
/// `offset`, for some rest in the system's range.
pub open spec fn moved_by(
    sys: MotionSystem,
    a: Animal,
    offset: Pos,
    dt: u32,
    b: Animal,
    u: PositionUpdate,
) -> bool {
    exists|c: u64|
        sys.min_cooldown <= c <= sys.max_cooldown && #[trigger] motion_next(
            a.motion,
            sys,
            a.position,
            offset,
            dt,
            c,
        ) == (b.motion, u) && b == moved(a, b.motion, u)
}

/// If `a` was moving and `b` still is, the move is the same and its
/// progress has grown by `dt * speed` (saturating), never shrinking.
pub open spec fn progress_kept(a: Animal, b: Animal, dt: u32, speed: u32) -> bool {
    a.motion.lifecycle is InMotion && b.motion.lifecycle is InMotion ==> {
        let m = a.motion.lifecycle->InMotion_0;
        let n = b.motion.lifecycle->InMotion_0;
        &&& n == InMotionLifecycle { progress: progressed(m.progress, dt, speed), ..m }
        &&& n.progress >= m.progress
    }
}

impl Animal {
    /// A creature at `position` with a random rest and a random timeout.
    pub fn new(position: Pos, rng: &mut fastrand::Rng) -> (r: Animal)
        ensures
            is_newborn(r, position),
    {
        let cooldown = MotionTracker::random_cooldown(rng, MIN_MOTION_SLEEP_MS, MAX_MOTION_SLEEP_MS);
        let timeout = DeathTracker::random_timeout(rng, MIN_DEATH_TIMEOUT_MS, MAX_DEATH_TIMEOUT_MS);
        Animal {
            position,
            motion: MotionTracker::new(cooldown),
            death: DeathTracker::new(timeout),
        }
    }
}

/// Start-up of the creature population.
pub struct AssetSystem;

impl AssetSystem {
    /// The spawn requests issued at start-up: one creature at the origin.
    pub fn on_startup() -> (r: Vec<SpawnEvent>)
        ensures
            r@ == seq![SpawnEvent { position: Pos { x: 0, y: 0 } }],
    {
        let mut events: Vec<SpawnEvent> = Vec::new();
        events.push(SpawnEvent { position: Pos { x: 0, y: 0 } });
        proof {
            assert(events@ =~= seq![SpawnEvent { position: Pos { x: 0, y: 0 } }]);
        }
        events
    }
}

/// Turns spawn requests into creatures.
pub struct SpawnEventSystem;

impl SpawnEventSystem {
    /// One new creature for each spawn request, in order.
    pub fn on_update(events: &Vec<SpawnEvent>, rng: &mut fastrand::Rng) -> (r: Vec<Animal>)
        ensures
            r@.len() == events@.len(),
            forall|i: int| 0 <= i < r@.len() ==> is_newborn(#[trigger] r@[i], events@[i].position),
    {
        let mut animals: Vec<Animal> = Vec::new();
        let n = events.len();
        let mut i: usize = 0;
        while i < n
            invariant
                n == events@.len(),
                i <= n,
                animals@.len() == i,
                forall|j: int| 0 <= j < i ==> is_newborn(#[trigger] animals@[j], events@[j].position),
            decreases n - i,
        {
            let a = Animal::new(events[i].position, rng);
            animals.push(a);
            i += 1;
        }
        animals
    }
}

impl MotionSystem {
    /// The motion step of every creature, with `offsets[i]` the wander
    /// vector of creature `i`. Exact moves are applied here; the updates
    /// are returned so that the host can place the eased ones.
    pub fn on_update(
        &self,
        animals: &mut Vec<Animal>,
        offsets: &Vec<Pos>,
        dt: u32,
        rng: &mut fastrand::Rng,
    ) -> (r: Vec<PositionUpdate>)
        requires
            self.wf(),
            offsets@.len() == old(animals)@.len(),
        ensures
            final(animals)@.len() == old(animals)@.len(),
            r@.len() == old(animals)@.len(),
            forall|i: int|
                0 <= i < r@.len() ==> #[trigger] moved_by(
                    *self,
                    old(animals)@[i],
                    offsets@[i],
                    dt,
                    final(animals)@[i],
                    r@[i],
                ),
            forall|i: int|
                0 <= i < r@.len() ==> #[trigger] progress_kept(
                    old(animals)@[i],
                    final(animals)@[i],
                    dt,
                    self.speed,
                ),
    {
        let ghost before = animals@;
        let mut updates: Vec<PositionUpdate> = Vec::new();
        let n = animals.len();
        let mut i: usize = 0;
        while i < n
            invariant
                self.wf(),
                n == before.len(),
                offsets@.len() == n,
                animals@.len() == n,
                i <= n,
                updates@.len() == i,
                forall|j: int| i <= j < n ==> animals@[j] == before[j],
                forall|j: int|
                    0 <= j < i ==> #[trigger] moved_by(
                        *self,
                        before[j],
                        offsets@[j],
                        dt,
                        animals@[j],
                        updates@[j],
                    ),
                forall|j: int|
                    0 <= j < i ==> #[trigger] progress_kept(before[j], animals@[j], dt, self.speed),
            decreases n - i,
        {
            let mut a = animals[i];
            let u = a.motion.step(self, a.position, offsets[i], dt, rng);
            if let PositionUpdate::SnapTo(q) = u {
                a.position = q;
            }
            animals.set(i, a);
            updates.push(u);
            assert(moved_by(
                *self,
                before[i as int],
                offsets@[i as int],
                dt,
                animals@[i as int],
                updates@[i as int],
            ));
            proof {
                let a0 = before[i as int];
                let c = choose|c: u64|
                    self.min_cooldown <= c <= self.max_cooldown && #[trigger] motion_next(
                        a0.motion,
                        *self,
                        a0.position,
                        offsets@[i as int],
                        dt,
                        c,
                    ) == (animals@[i as int].motion, updates@[i as int])
                        && animals@[i as int] == moved(a0, animals@[i as int].motion, updates@[i as int]);
                if a0.motion.lifecycle is InMotion && animals@[i as int].motion.lifecycle is InMotion {
                    lemma_progress_monotone(a0.motion, *self, a0.position, offsets@[i as int], dt, c);
                }
                assert(progress_kept(a0, animals@[i as int], dt, self.speed));
            }
            i += 1;
        }
        updates
    }
}

impl DeathSystem {
    /// The ageing step of every creature, then the contact check of every
    /// ramming one. The landmarks are only read.
    pub fn on_update(animals: &mut Vec<Animal>, landmarks: &Tracker, dt: u32)
        ensures
            final(animals)@.len() == old(animals)@.len(),
            forall|i: int|
                0 <= i < final(animals)@.len() ==> #[trigger] final(animals)@[i] == aged(
                    old(animals)@[i],
                    dt,
                    landmarks.positions@,
                ),
    {
        let ghost before = animals@;
        let ghost marks = landmarks.positions@;
        let n = animals.len();
        let mut i: usize = 0;
        while i < n
            invariant
                n == before.len(),
                animals@.len() == n,
                marks == landmarks.positions@,
                i <= n,
                forall|j: int| i <= j < n ==> animals@[j] == before[j],
                forall|j: int|
                    0 <= j < i ==> #[trigger] animals@[j] == (Animal {
                        death: death_next(before[j].death, dt, marks, before[j].position),
                        ..before[j]
                    }),
            decreases n - i,
        {
            let mut a = animals[i];
            a.death.step(dt, landmarks, a.position);
            animals.set(i, a);
            i += 1;
        }
        let mut k: usize = 0;
        while k < n
            invariant
                n == before.len(),
                animals@.len() == n,
                marks == landmarks.positions@,
                k <= n,
                forall|j: int|
                    k <= j < n ==> #[trigger] animals@[j] == (Animal {
                        death: death_next(before[j].death, dt, marks, before[j].position),
                        ..before[j]
                    }),
                forall|j: int| 0 <= j < k ==> #[trigger] animals@[j] == aged(before[j], dt, marks),
            decreases n - k,
        {
            let mut a = animals[k];
            a.death.check_contact(landmarks, a.position);
            animals.set(k, a);
            k += 1;
        }
    }
}

} // verus!
