use vstd::prelude::*;
use crate::geometry::{Pos, dist_sq};

verus! {

/// Least distance, in grid units, between a newly spawned tree and any
/// tree already tracked.
pub const MIN_SPACING: i32 = 2000;

/// `MIN_SPACING` squared.
pub const MIN_SPACING_SQ: i128 = 4_000_000;

/// Distance, in grid units, from the spawn centre at which new trees appear.
pub const SPAWN_DISTANCE: i32 = 12000;

/// Number of spawn attempts the host draws for each spawn call.
pub const COUNT: usize = 8;

/// `s[i]` is the member nearest to `p`, and no earlier member is as near.
pub open spec fn is_first_nearest(s: Seq<Pos>, p: Pos, i: int) -> bool {
    &&& 0 <= i < s.len()
    &&& forall|j: int| 0 <= j < s.len() ==> dist_sq(s[i], p) <= #[trigger] dist_sq(s[j], p)
    &&& forall|j: int| 0 <= j < i ==> dist_sq(s[i], p) < #[trigger] dist_sq(s[j], p)
}

/// What a nearest-neighbour query over `s` answers for `p`.
pub open spec fn nearest_in(s: Seq<Pos>, p: Pos) -> Option<Pos> {
    if s.len() == 0 {
        None
    } else {
        Some(s[choose|i: int| is_first_nearest(s, p, i)])
    }
}

/// Some member of `s` lies strictly closer to `p` than `sq` squared units.
pub open spec fn any_closer(s: Seq<Pos>, p: Pos, sq: int) -> bool {
    exists|i: int| 0 <= i < s.len() && #[trigger] dist_sq(s[i], p) < sq
}

/// The candidates that keep `MIN_SPACING` from every member of `existing`,
/// in their order.
pub open spec fn clear_candidates(existing: Seq<Pos>, cands: Seq<Pos>) -> Seq<Pos>
    decreases cands.len(),
{
    if cands.len() == 0 {
        Seq::empty()
    } else {
        let kept = clear_candidates(existing, cands.drop_last());
        if any_closer(existing, cands.last(), MIN_SPACING_SQ as int) {
            kept
        } else {
            kept.push(cands.last())
        }
    }
}

/// Two queries with the first minimal index chosen agree: the index is unique.
pub proof fn lemma_first_nearest_unique(s: Seq<Pos>, p: Pos, i: int, k: int)
    requires
        is_first_nearest(s, p, i),
        is_first_nearest(s, p, k),
    ensures
        i == k,
{
    if i < k {
        assert(dist_sq(s[k], p) < dist_sq(s[i], p));
    } else if k < i {
        assert(dist_sq(s[i], p) < dist_sq(s[k], p));
    }
}

/// Over any non-empty set of landmarks the nearest-neighbour answer is the
/// member of least squared distance to `p`, the first one among ties.
pub proof fn lemma_nearest_correct(s: Seq<Pos>, p: Pos)
    requires
        s.len() > 0,
    ensures
        exists|k: int| is_first_nearest(s, p, k) && nearest_in(s, p) == Some(s[k]),
{
    let k = first_nearest_index(s, p);
    let c = choose|i: int| is_first_nearest(s, p, i);
    lemma_first_nearest_unique(s, p, c, k);
}

proof fn first_nearest_index(s: Seq<Pos>, p: Pos) -> (k: int)
    requires
        s.len() > 0,
    ensures
        is_first_nearest(s, p, k),
    decreases s.len(),
{
    if s.len() == 1 {
        0
    } else {
        let prefix = s.drop_last();
        let i = first_nearest_index(prefix, p);
        assert(forall|j: int| 0 <= j < prefix.len() ==> prefix[j] == s[j]);
        let last = s.len() - 1;
        if dist_sq(s[last], p) < dist_sq(s[i], p) {
            assert forall|j: int| 0 <= j < s.len() implies dist_sq(s[last], p) <= #[trigger] dist_sq(
                s[j],
                p,
            ) by {
                if j < last {
                    assert(dist_sq(prefix[i], p) <= dist_sq(prefix[j], p));
                }
            }
            assert forall|j: int| 0 <= j < last implies dist_sq(s[last], p) < #[trigger] dist_sq(
                s[j],
                p,
            ) by {
                assert(dist_sq(prefix[i], p) <= dist_sq(prefix[j], p));
            }
            last
        } else {
            assert forall|j: int| 0 <= j < s.len() implies dist_sq(s[i], p) <= #[trigger] dist_sq(
                s[j],
                p,
            ) by {
                if j < last {
                    assert(dist_sq(prefix[i], p) <= dist_sq(prefix[j], p));
                }
            }
            assert forall|j: int| 0 <= j < i implies dist_sq(s[i], p) < #[trigger] dist_sq(
                s[j],
                p,
            ) by {
                assert(dist_sq(prefix[i], p) < dist_sq(prefix[j], p));
            }
            i
        }
    }
}

/// Registry of every landmark (tree) position. Landmarks are only ever
/// appended and never move.
pub struct Tracker {
    pub positions: Vec<Pos>,
}

impl Tracker {
    pub fn new() -> (r: Tracker)
        ensures
            r.positions@ == Seq::<Pos>::empty(),
    {
        Tracker { positions: Vec::new() }
    }

    /// Appends a landmark.
    pub fn register(&mut self, p: Pos)
        ensures
            final(self).positions@ == old(self).positions@.push(p),
    {
        self.positions.push(p);
    }

    /// The landmark with the least squared distance to `p`; among equally
    /// near ones the first registered. `None` when nothing is registered.
    pub fn nearest(&self, p: Pos) -> (r: Option<Pos>)
        ensures
            r == nearest_in(self.positions@, p),
            r is None <==> self.positions@.len() == 0,
            r matches Some(q) ==> exists|i: int|
                is_first_nearest(self.positions@, p, i) && q == self.positions@[i],
    {
        let n = self.positions.len();
        if n == 0 {
            return None;
        }
        let ghost s = self.positions@;
        let mut best: usize = 0;
        let mut best_d: i128 = self.positions[0].distance_squared(&p);
        let mut k: usize = 1;
        while k < n
            invariant
                s == self.positions@,
                n == s.len(),
                1 <= k <= n,
                best < k,
                best_d == dist_sq(s[best as int], p),
                forall|j: int| 0 <= j < k ==> best_d <= #[trigger] dist_sq(s[j], p),
                forall|j: int| 0 <= j < best ==> best_d < #[trigger] dist_sq(s[j], p),
            decreases n - k,
        {
            let d = self.positions[k].distance_squared(&p);
            if d < best_d {
                best = k;
                best_d = d;
            }
            k += 1;
        }
        proof {
            assert(is_first_nearest(s, p, best as int));
            let c = choose|i: int| is_first_nearest(s, p, i);
            lemma_first_nearest_unique(s, p, c, best as int);
        }
        Some(self.positions[best])
    }

    /// Whether some landmark lies strictly closer to `p` than `sq` squared units.
    pub fn any_within(&self, p: Pos, sq: i128) -> (r: bool)
        ensures
            r == any_closer(self.positions@, p, sq as int),
    {
        let n = self.positions.len();
        let mut k: usize = 0;
        while k < n
            invariant
                n == self.positions@.len(),
                k <= n,
                forall|j: int| 0 <= j < k ==> #[trigger] dist_sq(self.positions@[j], p) >= sq,
            decreases n - k,
        {
            if self.positions[k].distance_squared(&p) < sq {
                return true;
            }
            k += 1;
        }
        false
    }
}

/// Marker for a landmark entity.
pub struct Tree;

impl Tree {
    /// The first tree spawn, around the player's start position.
    pub fn startup_spawn_system(tracker: &mut Tracker, candidates: &Vec<Pos>) -> (r: Vec<Pos>)
        ensures
            r@ == clear_candidates(old(tracker).positions@, candidates@),
            final(tracker).positions@ == old(tracker).positions@ + r@,
    {
        Self::spawn(tracker, candidates)
    }

    /// The per-frame tree spawn, around the player's current position.
    pub fn spawn_system(tracker: &mut Tracker, candidates: &Vec<Pos>) -> (r: Vec<Pos>)
        ensures
            r@ == clear_candidates(old(tracker).positions@, candidates@),
            final(tracker).positions@ == old(tracker).positions@ + r@,
    {
        Self::spawn(tracker, candidates)
    }

    /// Keeps each candidate that lies at least `MIN_SPACING` from every tree
    /// tracked before the call, registers the kept ones, and returns them for
    /// the host to spawn. Candidates are not checked against each other.
    fn spawn(tracker: &mut Tracker, candidates: &Vec<Pos>) -> (r: Vec<Pos>)
        ensures
            r@ == clear_candidates(old(tracker).positions@, candidates@),
            final(tracker).positions@ == old(tracker).positions@ + r@,
    {
        let ghost existing = tracker.positions@;
        let mut new_positions: Vec<Pos> = Vec::new();
        let n = candidates.len();
        let mut i: usize = 0;
        while i < n
            invariant
                n == candidates@.len(),
                i <= n,
                tracker.positions@ == existing,
                new_positions@ == clear_candidates(existing, candidates@.subrange(0, i as int)),
            decreases n - i,
        {
            let c = candidates[i];
            let blocked = tracker.any_within(c, MIN_SPACING_SQ);
            proof {
                let pre = candidates@.subrange(0, i as int + 1);
                assert(pre.drop_last() =~= candidates@.subrange(0, i as int));
                assert(pre.last() == c);
            }
            if !blocked {
                new_positions.push(c);
            }
            i += 1;
        }
        proof {
            assert(candidates@.subrange(0, n as int) =~= candidates@);
        }
        let ghost added = new_positions@;
        let mut j: usize = 0;
        while j < new_positions.len()
            invariant
                new_positions@ == added,
                j <= added.len(),
                tracker.positions@ == existing + added.subrange(0, j as int),
            decreases added.len() - j,
        {
            tracker.register(new_positions[j]);
            proof {
                assert(existing + added.subrange(0, j as int + 1) =~= (existing + added.subrange(
                    0,
                    j as int,
                )).push(added[j as int]));
            }
            j += 1;
        }
        proof {
            assert(added.subrange(0, added.len() as int) =~= added);
        }
        new_positions
    }
}

} // verus!
