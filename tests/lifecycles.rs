use wildlife::animal::{Animal, AssetSystem, SpawnEvent, SpawnEventSystem};
use wildlife::death::{DeathLifecycle, DeathRammingLifecycle, DeathSystem, DeathTracker};
use wildlife::geometry::Pos;
use wildlife::motion::{
    InMotionLifecycle, MotionLifecycle, MotionSystem, MotionTracker, PositionUpdate,
    FULL_PROGRESS, MAX_MOTION_SLEEP_MS, MIN_MOTION_SLEEP_MS, SPEED,
};
use wildlife::tree::Tracker;

fn p(x: i32, y: i32) -> Pos {
    Pos::new(x, y)
}

fn world() -> MotionSystem {
    MotionSystem::new(200_000, 200_000)
}

#[test]
fn motion_completes_after_fifty_ticks() {
    let sys = world();
    assert_eq!(sys.speed, SPEED);
    let mut rng = fastrand::Rng::with_seed(5);
    let mut t = MotionTracker {
        lifecycle: MotionLifecycle::InMotion(InMotionLifecycle {
            from: p(0, 0),
            to: p(100_000, 0),
            progress: 0,
        }),
        cooldown: 0,
    };
    let mut pos = p(0, 0);
    for tick in 1..50u64 {
        let u = t.step(&sys, pos, p(0, 0), 20, &mut rng);
        let expected = InMotionLifecycle { from: p(0, 0), to: p(100_000, 0), progress: tick * 20_000 };
        assert_eq!(u, PositionUpdate::Ease(expected));
        assert_eq!(t.lifecycle, MotionLifecycle::InMotion(expected));
    }
    let u = t.step(&sys, pos, p(0, 0), 20, &mut rng);
    assert_eq!(u, PositionUpdate::SnapTo(p(100_000, 0)));
    if let PositionUpdate::SnapTo(q) = u {
        pos = q;
    }
    assert_eq!(pos, p(100_000, 0));
    assert_eq!(t.lifecycle, MotionLifecycle::Idle);
    assert!(MIN_MOTION_SLEEP_MS <= t.cooldown && t.cooldown <= MAX_MOTION_SLEEP_MS);
}

#[test]
fn progress_never_decreases_while_moving() {
    let sys = world();
    let mut t = MotionTracker {
        lifecycle: MotionLifecycle::InMotion(InMotionLifecycle { from: p(0, 0), to: p(5, 5), progress: 0 }),
        cooldown: 0,
    };
    let mut last = 0u64;
    while let MotionLifecycle::InMotion(m) = t.lifecycle {
        assert!(m.progress >= last);
        last = m.progress;
        t.advance(&sys, p(0, 0), p(0, 0), 33, 12_345);
    }
    assert_eq!(t, MotionTracker { lifecycle: MotionLifecycle::Idle, cooldown: 12_345 });
}

#[test]
fn idle_cooldown_runs_down_to_zero() {
    let sys = world();
    let mut t = MotionTracker::new(50);
    assert_eq!(t.advance(&sys, p(1, 1), p(0, 0), 20, 0), PositionUpdate::Keep);
    assert_eq!(t, MotionTracker::new(30));
    t.advance(&sys, p(1, 1), p(0, 0), 40, 0);
    assert_eq!(t, MotionTracker::new(0));
}

#[test]
fn idle_without_cooldown_starts_a_clamped_wander() {
    let sys = MotionSystem::new(100_000, 50_000);
    let mut t = MotionTracker::new(0);
    let u = t.advance(&sys, p(95_000, 3_000), p(10_000, -10_000), 20, 0);
    assert_eq!(u, PositionUpdate::Keep);
    assert_eq!(
        t.lifecycle,
        MotionLifecycle::InMotion(InMotionLifecycle { from: p(95_000, 3_000), to: p(100_000, 0), progress: 0 })
    );
    assert_eq!(sys.simulate(p(10, 10), p(-3, 4)), p(7, 14));
}

#[test]
fn shutdown_ignores_motion() {
    let sys = world();
    let mut t = MotionTracker { lifecycle: MotionLifecycle::Shutdown, cooldown: 0 };
    assert_eq!(t.advance(&sys, p(1, 1), p(9, 9), 1_000, 5), PositionUpdate::Keep);
    assert_eq!(t, MotionTracker { lifecycle: MotionLifecycle::Shutdown, cooldown: 0 });
}

#[test]
fn progress_saturates_instead_of_overflowing() {
    let sys = MotionSystem { world_w: 10, world_h: 10, speed: u32::MAX, min_cooldown: 1, max_cooldown: 1 };
    let mut t = MotionTracker {
        lifecycle: MotionLifecycle::InMotion(InMotionLifecycle { from: p(0, 0), to: p(7, 7), progress: u64::MAX - 1 }),
        cooldown: 0,
    };
    assert_eq!(t.advance(&sys, p(0, 0), p(0, 0), u32::MAX, 1), PositionUpdate::SnapTo(p(7, 7)));
    assert!(FULL_PROGRESS < u64::MAX);
}

#[test]
fn random_draws_stay_in_range_and_vary() {
    let mut rng = fastrand::Rng::with_seed(11);
    let mut seen_other = false;
    for _ in 0..200 {
        let c = MotionTracker::random_cooldown(&mut rng, 10_000, 30_000);
        assert!((10_000..=30_000).contains(&c));
        let d = DeathTracker::random_timeout(&mut rng, 60_000, 120_000);
        assert!((60_000..=120_000).contains(&d));
        if c != 10_000 && d != 60_000 {
            seen_other = true;
        }
    }
    assert!(seen_other);
    assert_eq!(MotionTracker::random_cooldown(&mut rng, 7, 7), 7);
}

#[test]
fn corpse_is_absorbing() {
    let mut marks = Tracker::new();
    marks.register(p(0, 0));
    let mut t = DeathTracker { lifecycle: DeathLifecycle::Corpse, timeout: 77 };
    for _ in 0..5 {
        t.step(1_000, &marks, p(0, 0));
        t.check_contact(&marks, p(0, 0));
        assert_eq!(t, DeathTracker { lifecycle: DeathLifecycle::Corpse, timeout: 77 });
    }
}

#[test]
fn positive_timeout_after_a_tick_means_corpse() {
    let marks = Tracker::new();
    let mut t = DeathTracker::new(5_000);
    t.step(1_000, &marks, p(0, 0));
    assert_eq!(t, DeathTracker { lifecycle: DeathLifecycle::Corpse, timeout: 4_000 });
    for _ in 0..4 {
        t.step(1_000, &marks, p(0, 0));
    }
    assert_eq!(t.lifecycle, DeathLifecycle::Corpse);
}

#[test]
fn exhausted_timeout_without_landmarks_stalls_alive() {
    let marks = Tracker::new();
    let mut t = DeathTracker::new(1_000);
    for _ in 0..5 {
        t.step(1_000, &marks, p(0, 0));
        assert_eq!(t, DeathTracker { lifecycle: DeathLifecycle::Alive, timeout: 0 });
    }
}

#[test]
fn exhausted_timeout_rams_the_nearest_landmark() {
    let mut marks = Tracker::new();
    marks.register(p(50, 50));
    marks.register(p(4, -3));
    let mut t = DeathTracker::new(0);
    t.step(16, &marks, p(1, 1));
    assert_eq!(
        t,
        DeathTracker {
            lifecycle: DeathLifecycle::Ramming(DeathRammingLifecycle { from: p(1, 1), to: p(4, -3) }),
            timeout: 0,
        }
    );
    let before = t;
    t.step(16, &marks, p(100, 100));
    assert_eq!(t, before);
    t.check_contact(&marks, p(400, 400));
    assert_eq!(t, before);
    t.check_contact(&marks, p(4, 300));
    assert_eq!(t.lifecycle, DeathLifecycle::Corpse);
}

#[test]
fn contact_only_for_ramming_creatures() {
    let mut marks = Tracker::new();
    marks.register(p(0, 0));
    let mut t = DeathTracker::new(10);
    t.check_contact(&marks, p(0, 0));
    assert_eq!(t, DeathTracker::new(10));
}

#[test]
fn startup_requests_one_creature_at_origin() {
    assert_eq!(AssetSystem::on_startup(), vec![SpawnEvent { position: p(0, 0) }]);
}

#[test]
fn spawn_events_become_newborn_creatures() {
    let mut rng = fastrand::Rng::with_seed(8);
    let events = vec![SpawnEvent { position: p(1, 2) }, SpawnEvent { position: p(-3, 4) }];
    let animals = SpawnEventSystem::on_update(&events, &mut rng);
    assert_eq!(animals.len(), 2);
    assert_eq!(animals[0].position, p(1, 2));
    assert_eq!(animals[1].position, p(-3, 4));
    for a in &animals {
        assert_eq!(a.motion.lifecycle, MotionLifecycle::Idle);
        assert_eq!(a.death.lifecycle, DeathLifecycle::Alive);
        assert!((10_000..=30_000).contains(&a.motion.cooldown));
        assert!((60_000..=120_000).contains(&a.death.timeout));
    }
}

#[test]
fn sweeps_update_every_creature() {
    let sys = world();
    let mut rng = fastrand::Rng::with_seed(4);
    let mut animals = vec![
        Animal {
            position: p(10, 10),
            motion: MotionTracker::new(0),
            death: DeathTracker::new(0),
        },
        Animal {
            position: p(0, 0),
            motion: MotionTracker {
                lifecycle: MotionLifecycle::InMotion(InMotionLifecycle { from: p(0, 0), to: p(3, 0), progress: 990_000 }),
                cooldown: 0,
            },
            death: DeathTracker::new(50_000),
        },
    ];
    let updates = sys.on_update(&mut animals, &vec![p(5, 0), p(0, 0)], 20, &mut rng);
    assert_eq!(updates, vec![PositionUpdate::Keep, PositionUpdate::SnapTo(p(3, 0))]);
    assert_eq!(
        animals[0].motion.lifecycle,
        MotionLifecycle::InMotion(InMotionLifecycle { from: p(10, 10), to: p(15, 10), progress: 0 })
    );
    assert_eq!(animals[1].position, p(3, 0));
    assert_eq!(animals[1].motion.lifecycle, MotionLifecycle::Idle);

    let mut marks = Tracker::new();
    marks.register(p(10, 10));
    DeathSystem::on_update(&mut animals, &marks, 20);
    assert_eq!(animals[0].death.lifecycle, DeathLifecycle::Corpse);
    assert_eq!(animals[1].death, DeathTracker { lifecycle: DeathLifecycle::Corpse, timeout: 49_980 });
}

#[test]
fn death_model_targets_the_first_nearest_landmark() {
    let mut marks = Tracker::new();
    assert_eq!(DeathSystem::simulate(&marks, p(0, 0)), None);
    marks.register(p(0, 5));
    marks.register(p(3, 4));
    marks.register(p(1, 1));
    assert_eq!(DeathSystem::simulate(&marks, p(0, 0)), Some(p(1, 1)));
    assert_eq!(DeathSystem::simulate(&marks, p(0, 9)), Some(p(0, 5)));
    assert_eq!(DeathSystem::simulate(&marks, p(10, 10)), Some(p(3, 4)));
}

#[test]
fn sweep_advances_progress_of_moving_creatures() {
    let sys = world();
    let mut rng = fastrand::Rng::with_seed(2);
    let m = InMotionLifecycle { from: p(0, 0), to: p(9, 9), progress: 100 };
    let mut animals = vec![Animal {
        position: p(0, 0),
        motion: MotionTracker { lifecycle: MotionLifecycle::InMotion(m), cooldown: 0 },
        death: DeathTracker::new(1),
    }];
    let updates = sys.on_update(&mut animals, &vec![p(0, 0)], 16, &mut rng);
    let moved = InMotionLifecycle { progress: 100 + 16 * 1000, ..m };
    assert_eq!(updates, vec![PositionUpdate::Ease(moved)]);
    assert_eq!(animals[0].motion.lifecycle, MotionLifecycle::InMotion(moved));
    assert_eq!(animals[0].position, p(0, 0));
}
