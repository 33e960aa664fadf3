use vstd::prelude::*;
use crate::geometry::Pos;
use crate::random::draw_u64;
use crate::tree::{Tracker, any_closer, is_first_nearest, nearest_in};

verus! {

/// Shortest life, in milliseconds, before a creature seeks a landmark.
pub const MIN_DEATH_TIMEOUT_MS: u64 = 60_000;

/// Longest life, in milliseconds, before a creature seeks a landmark.
pub const MAX_DEATH_TIMEOUT_MS: u64 = 120_000;

/// Squared grid distance under which a ramming creature has reached a
/// landmark: a tenth of a square world unit.
pub const CONTACT_DISTANCE_SQ: i128 = 100_000;

/// A creature committed to the landmark `to`, from where it stood at `from`.
#[derive(Clone, Copy, Debug, PartialEq, Eq, Structural)]
pub struct DeathRammingLifecycle {
    pub from: Pos,
    pub to: Pos,
}

/// The ageing state of one creature. While `Alive` the tracker's `timeout`
/// runs down; `Corpse` is final.
#[derive(Clone, Copy, Debug, PartialEq, Eq, Structural)]
pub enum DeathLifecycle {
    Alive,
    Ramming(DeathRammingLifecycle),
    Corpse,
}

/// Per-creature ageing state: the lifecycle and, while alive, the time left
/// in milliseconds.
#[derive(Clone, Copy, Debug, PartialEq, Eq, Structural)]
pub struct DeathTracker {
    pub lifecycle: DeathLifecycle,
    pub timeout: u64,
}

/// One ageing step of `t` after `dt` milliseconds, for a creature at
/// `position`, against the landmarks `landmarks`.
///
/// A living creature whose timeout is still positive after the step becomes
/// a corpse at once; one whose timeout has run out turns to ram the nearest
/// landmark, or, with no landmark anywhere, waits alive at timeout 0.
///
/// Open question: dying while the timeout is still positive contradicts the
/// evident intent (die once the timeout has run out). This keeps the observed
/// behaviour until that intent is confirmed; it is not silently inverted.
pub open spec fn death_next(
    t: DeathTracker,
    dt: u32,
    landmarks: Seq<Pos>,
    position: Pos,
) -> DeathTracker {
    match t.lifecycle {
        DeathLifecycle::Alive => if t.timeout > dt {
            DeathTracker { lifecycle: DeathLifecycle::Corpse, timeout: (t.timeout - dt) as u64 }
        } else {
            match nearest_in(landmarks, position) {
                Some(target) => DeathTracker {
                    lifecycle: DeathLifecycle::Ramming(
                        DeathRammingLifecycle { from: position, to: target },
                    ),
                    timeout: 0,
                },
                None => DeathTracker { lifecycle: DeathLifecycle::Alive, timeout: 0 },
            }
        },
        _ => t,
    }
}

/// The contact check: a ramming creature with a landmark closer than
/// `CONTACT_DISTANCE_SQ` becomes a corpse.
pub open spec fn contact_next(t: DeathTracker, landmarks: Seq<Pos>, position: Pos) -> DeathTracker {
    if t.lifecycle is Ramming && any_closer(landmarks, position, CONTACT_DISTANCE_SQ as int) {
        DeathTracker { lifecycle: DeathLifecycle::Corpse, ..t }
    } else {
        t
    }
}

/// A corpse stays a corpse, with its tracker unchanged, through every later
/// step and contact check.
pub proof fn lemma_corpse_absorbing(t: DeathTracker, dt: u32, landmarks: Seq<Pos>, position: Pos)
    requires
        t.lifecycle is Corpse,
    ensures
        death_next(t, dt, landmarks, position) == t,
        contact_next(t, landmarks, position) == t,
{
}

/// Without landmarks a creature never rams: a living one either dies from
/// a positive timeout or waits alive at timeout 0.
pub proof fn lemma_no_landmarks_no_ramming(t: DeathTracker, dt: u32, position: Pos)
    requires
        t.lifecycle is Alive,
    ensures
        t.timeout <= dt ==> death_next(t, dt, Seq::empty(), position) == (DeathTracker {
            lifecycle: DeathLifecycle::Alive,
            timeout: 0,
        }),
        t.timeout > dt ==> death_next(t, dt, Seq::empty(), position).lifecycle is Corpse,
{
}

/// The nearest-landmark model of the ageing sweep.
pub struct DeathSystem;

impl DeathSystem {
    /// The landmark to ram from `position`: the one at least squared
    /// distance, the first registered among equally near ones, or `None`
    /// when there is none.
    pub fn simulate(landmarks: &Tracker, position: Pos) -> (r: Option<Pos>)
        ensures
            r == nearest_in(landmarks.positions@, position),
            r is None <==> landmarks.positions@.len() == 0,
            r matches Some(q) ==> exists|k: int|
                is_first_nearest(landmarks.positions@, position, k) && q
                    == landmarks.positions@[k],
    {
        landmarks.nearest(position)
    }
}

impl DeathTracker {
    /// A timeout drawn uniformly from `[min, max]` milliseconds.
    pub fn random_timeout(rng: &mut fastrand::Rng, min: u64, max: u64) -> (r: u64)
        requires
            min <= max,
        ensures
            min <= r <= max,
    {
        draw_u64(rng, min, max)
    }

    /// A living tracker with `timeout` milliseconds to go.
    pub fn new(timeout: u64) -> (r: DeathTracker)
        ensures
            r == (DeathTracker { lifecycle: DeathLifecycle::Alive, timeout }),
    {
        DeathTracker { lifecycle: DeathLifecycle::Alive, timeout }
    }

    /// One ageing step. The landmarks are only read.
    pub fn step(&mut self, dt: u32, landmarks: &Tracker, position: Pos)
        ensures
            *final(self) == death_next(*old(self), dt, landmarks.positions@, position),
    {
        match self.lifecycle {
            DeathLifecycle::Corpse => {},
            DeathLifecycle::Alive => {
                if self.timeout > dt as u64 {
                    self.timeout = self.timeout - dt as u64;
                    self.lifecycle = DeathLifecycle::Corpse;
                } else {
                    self.timeout = 0;
                    match DeathSystem::simulate(landmarks, position) {
                        Some(target) => {
                            self.lifecycle = DeathLifecycle::Ramming(
                                DeathRammingLifecycle { from: position, to: target },
                            );
                        },
                        None => {},
                    }
                }
            },
            DeathLifecycle::Ramming(_) => {},
        }
    }

    /// The contact check of a ramming creature at `position`.
    pub fn check_contact(&mut self, landmarks: &Tracker, position: Pos)
        ensures
            *final(self) == contact_next(*old(self), landmarks.positions@, position),
    {
        if let DeathLifecycle::Ramming(_) = self.lifecycle {
            if landmarks.any_within(position, CONTACT_DISTANCE_SQ) {
                self.lifecycle = DeathLifecycle::Corpse;
            }
        }
    }
}

} // verus!
