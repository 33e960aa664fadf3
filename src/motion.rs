use vstd::prelude::*;
use crate::geometry::{Pos, clamped_shift, within};
use crate::random::draw_u64;

verus! {

/// Progress of a completed move: progress counts millionths of the path.
pub const FULL_PROGRESS: u64 = 1_000_000;

/// Walking speed, in thousandths of a path per second; with `dt` in
/// milliseconds, `dt * speed` is the progress made in millionths.
pub const SPEED: u32 = 1000;

/// Length, in grid units, of one wander.
pub const DISTANCE: i32 = 10_000;

/// Shortest rest, in milliseconds, between two wanders.
pub const MIN_MOTION_SLEEP_MS: u64 = 10_000;

/// Longest rest, in milliseconds, between two wanders.
pub const MAX_MOTION_SLEEP_MS: u64 = 30_000;

/// A move under way from `from` to `to`.
#[derive(Clone, Copy, Debug, PartialEq, Eq, Structural)]
pub struct InMotionLifecycle {
    pub from: Pos,
    pub to: Pos,
    pub progress: u64,
}

/// The wandering state of one creature. While `Idle` the tracker's
/// `cooldown` runs down; `Shutdown` ends all motion.
#[derive(Clone, Copy, Debug, PartialEq, Eq, Structural)]
pub enum MotionLifecycle {
    Idle,
    InMotion(InMotionLifecycle),
    Shutdown,
}

/// Per-creature motion state: the lifecycle and, while idle, the rest left
/// in milliseconds.
#[derive(Clone, Copy, Debug, PartialEq, Eq, Structural)]
pub struct MotionTracker {
    pub lifecycle: MotionLifecycle,
    pub cooldown: u64,
}

/// What a motion step asks of the creature's position.
#[derive(Clone, Copy, Debug, PartialEq, Eq, Structural)]
pub enum PositionUpdate {
    /// Leave it as it is.
    Keep,
    /// Set it to the eased point of the move: with `t = progress / FULL_PROGRESS`,
    /// `from + (to - from) * sin(t * pi)`.
    Ease(InMotionLifecycle),
    /// Set it to exactly this point.
    SnapTo(Pos),
}

/// Settings of the wandering: world extent, speed and the range of rests.
#[derive(Clone, Copy, Debug, PartialEq, Eq, Structural)]
pub struct MotionSystem {
    pub world_w: i32,
    pub world_h: i32,
    pub speed: u32,
    pub min_cooldown: u64,
    pub max_cooldown: u64,
}

impl MotionSystem {
    pub open spec fn wf(&self) -> bool {
        self.world_w >= 0 && self.world_h >= 0 && self.min_cooldown <= self.max_cooldown
    }

    /// The game's settings over a world of the given extent.
    pub fn new(world_w: i32, world_h: i32) -> (r: MotionSystem)
        ensures
            r == (MotionSystem {
                world_w,
                world_h,
                speed: SPEED,
                min_cooldown: MIN_MOTION_SLEEP_MS,
                max_cooldown: MAX_MOTION_SLEEP_MS,
            }),
    {
        MotionSystem {
            world_w,
            world_h,
            speed: SPEED,
            min_cooldown: MIN_MOTION_SLEEP_MS,
            max_cooldown: MAX_MOTION_SLEEP_MS,
        }
    }

    /// Destination of a wander: `position + offset`, kept inside the world.
    pub fn simulate(&self, position: Pos, offset: Pos) -> (r: Pos)
        requires
            self.wf(),
        ensures
            r == clamped_shift(position, offset, self.world_w as int, self.world_h as int),
            within(r, self.world_w as int, self.world_h as int),
    {
        position.shifted_within(&offset, self.world_w, self.world_h)
    }
}

/// `p + dt * speed`, saturating at `u64::MAX`.
pub open spec fn progressed(p: u64, dt: u32, speed: u32) -> u64 {
    if p + dt * speed > u64::MAX {
        u64::MAX
    } else {
        (p + dt * speed) as u64
    }
}

/// One motion step of `t` after `dt` milliseconds, for a creature at
/// `position`. `offset` is the wander vector used if a wander starts, and
/// `fresh` the rest drawn if a move completes.
pub open spec fn motion_next(
    t: MotionTracker,
    sys: MotionSystem,
    position: Pos,
    offset: Pos,
    dt: u32,
    fresh: u64,
) -> (MotionTracker, PositionUpdate) {
    match t.lifecycle {
        MotionLifecycle::Shutdown => (t, PositionUpdate::Keep),
        MotionLifecycle::Idle => if t.cooldown > 0 {
            (
                MotionTracker {
                    cooldown: if t.cooldown > dt { (t.cooldown - dt) as u64 } else { 0 },
                    ..t
                },
                PositionUpdate::Keep,
            )
        } else {
            (
                MotionTracker {
                    lifecycle: MotionLifecycle::InMotion(
                        InMotionLifecycle {
                            from: position,
                            to: clamped_shift(
                                position,
                                offset,
                                sys.world_w as int,
                                sys.world_h as int,
                            ),
                            progress: 0,
                        },
                    ),
                    ..t
                },
                PositionUpdate::Keep,
            )
        },
        MotionLifecycle::InMotion(m) => {
            let p = progressed(m.progress, dt, sys.speed);
            if p >= FULL_PROGRESS {
                (
                    MotionTracker { lifecycle: MotionLifecycle::Idle, cooldown: fresh },
                    PositionUpdate::SnapTo(m.to),
                )
            } else {
                let moved = InMotionLifecycle { progress: p, ..m };
                (
                    MotionTracker { lifecycle: MotionLifecycle::InMotion(moved), ..t },
                    PositionUpdate::Ease(moved),
                )
            }
        },
    }
}

/// Whether a step of `t` by `dt` completes the move under way.
pub open spec fn completes(t: MotionTracker, sys: MotionSystem, dt: u32) -> bool {
    match t.lifecycle {
        MotionLifecycle::InMotion(m) => progressed(m.progress, dt, sys.speed) >= FULL_PROGRESS,
        _ => false,
    }
}

/// While a move goes on, its progress never decreases from one step to
/// the next, and grows by `dt * speed` when that does not saturate.
pub proof fn lemma_progress_monotone(
    t: MotionTracker,
    sys: MotionSystem,
    position: Pos,
    offset: Pos,
    dt: u32,
    fresh: u64,
)
    requires
        t.lifecycle is InMotion,
        motion_next(t, sys, position, offset, dt, fresh).0.lifecycle is InMotion,
    ensures
        motion_next(t, sys, position, offset, dt, fresh).0.lifecycle->InMotion_0.progress
            >= t.lifecycle->InMotion_0.progress,
        dt > 0 && sys.speed > 0 ==> motion_next(
            t,
            sys,
            position,
            offset,
            dt,
            fresh,
        ).0.lifecycle->InMotion_0.progress > t.lifecycle->InMotion_0.progress,
{
    if dt > 0 && sys.speed > 0 {
        assert(dt * sys.speed > 0) by (nonlinear_arith)
            requires
                dt > 0,
                sys.speed > 0,
        ;
    }
    assert(dt * sys.speed >= 0) by (nonlinear_arith);
}

/// A completed move leaves the creature exactly at the destination and
/// at rest for the rest drawn, and an unfinished one stays under way.
pub proof fn lemma_completion_snaps(
    t: MotionTracker,
    sys: MotionSystem,
    position: Pos,
    offset: Pos,
    dt: u32,
    fresh: u64,
)
    requires
        t.lifecycle is InMotion,
    ensures
        completes(t, sys, dt) ==> motion_next(t, sys, position, offset, dt, fresh) == (
        MotionTracker { lifecycle: MotionLifecycle::Idle, cooldown: fresh },
        PositionUpdate::SnapTo(t.lifecycle->InMotion_0.to),
        ),
        !completes(t, sys, dt) ==> motion_next(
            t,
            sys,
            position,
            offset,
            dt,
            fresh,
        ).0.lifecycle is InMotion,
{
}

impl MotionTracker {
    /// A rest drawn uniformly from `[min, max]` milliseconds.
    pub fn random_cooldown(rng: &mut fastrand::Rng, min: u64, max: u64) -> (r: u64)
        requires
            min <= max,
        ensures
            min <= r <= max,
    {
        draw_u64(rng, min, max)
    }

    /// A tracker at rest for `cooldown` milliseconds.
    pub fn new(cooldown: u64) -> (r: MotionTracker)
        ensures
            r == (MotionTracker { lifecycle: MotionLifecycle::Idle, cooldown }),
    {
        MotionTracker { lifecycle: MotionLifecycle::Idle, cooldown }
    }

    /// One motion step, with the rest `fresh` taken if the move completes.
    pub fn advance(
        &mut self,
        sys: &MotionSystem,
        position: Pos,
        offset: Pos,
        dt: u32,
        fresh: u64,
    ) -> (r: PositionUpdate)
        requires
            sys.wf(),
        ensures
            (*final(self), r) == motion_next(*old(self), *sys, position, offset, dt, fresh),
    {
        match self.lifecycle {
            MotionLifecycle::Shutdown => PositionUpdate::Keep,
            MotionLifecycle::Idle => {
                if self.cooldown > 0 {
                    self.cooldown = if self.cooldown > dt as u64 {
                        self.cooldown - dt as u64
                    } else {
                        0
                    };
                    PositionUpdate::Keep
                } else {
                    let to = sys.simulate(position, offset);
                    self.lifecycle = MotionLifecycle::InMotion(
                        InMotionLifecycle { from: position, to, progress: 0 },
                    );
                    PositionUpdate::Keep
                }
            },
            MotionLifecycle::InMotion(m) => {
                let p = Self::progress_after(m.progress, dt, sys.speed);
                if p >= FULL_PROGRESS {
                    self.lifecycle = MotionLifecycle::Idle;
                    self.cooldown = fresh;
                    PositionUpdate::SnapTo(m.to)
                } else {
                    let moved = InMotionLifecycle { from: m.from, to: m.to, progress: p };
                    self.lifecycle = MotionLifecycle::InMotion(moved);
                    PositionUpdate::Ease(moved)
                }
            },
        }
    }

    /// One motion step; if the move completes, the next rest is drawn
    /// from the system's range.
    pub fn step(
        &mut self,
        sys: &MotionSystem,
        position: Pos,
        offset: Pos,
        dt: u32,
        rng: &mut fastrand::Rng,
    ) -> (r: PositionUpdate)
        requires
            sys.wf(),
        ensures
            exists|c: u64|
                sys.min_cooldown <= c <= sys.max_cooldown && (*final(self), r) == #[trigger] motion_next(
                    *old(self),
                    *sys,
                    position,
                    offset,
                    dt,
                    c,
                ),
    {
        let ghost before = *self;
        let done = match self.lifecycle {
            MotionLifecycle::InMotion(m) => Self::progress_after(m.progress, dt, sys.speed)
                >= FULL_PROGRESS,
            _ => false,
        };
        let fresh = if done {
            Self::random_cooldown(rng, sys.min_cooldown, sys.max_cooldown)
        } else {
            sys.min_cooldown
        };
        let r = self.advance(sys, position, offset, dt, fresh);
        assert((*self, r) == motion_next(before, *sys, position, offset, dt, fresh));
        r
    }

    fn progress_after(p: u64, dt: u32, speed: u32) -> (r: u64)
        ensures
            r == progressed(p, dt, speed),
    {
        proof {
            assert(dt * speed <= 0xffff_ffff_ffff_ffff) by (nonlinear_arith)
                requires
                    dt <= 0xffff_ffff,
                    speed <= 0xffff_ffff,
            ;
        }
        let inc: u64 = dt as u64 * speed as u64;
        if p > u64::MAX - inc {
            u64::MAX
        } else {
            p + inc
        }
    }
}

} // verus!
