use vstd::prelude::*;
use crate::geometry::{Pos, dist_sq, within};
use crate::random::draw_i32;

verus! {

/// World width in grid units, as the game configures it.
pub const WORLD_W: i32 = 0;

/// World height in grid units, as the game configures it.
pub const WORLD_H: i32 = 0;

/// Every member of `s` is at least `spacing` away from `c`.
pub open spec fn spaced_from(s: Seq<Pos>, c: Pos, spacing: int) -> bool {
    forall|i: int| 0 <= i < s.len() ==> #[trigger] dist_sq(s[i], c) >= spacing * spacing
}

/// Every two members of `s` are at least `spacing` apart.
pub open spec fn pairwise_spaced(s: Seq<Pos>, spacing: int) -> bool {
    forall|i: int, j: int|
        0 <= i < j < s.len() ==> #[trigger] dist_sq(s[i], s[j]) >= spacing * spacing
}

/// Every member of `s` lies in `[0, w] x [0, h]`.
pub open spec fn all_within(s: Seq<Pos>, w: int, h: int) -> bool {
    forall|i: int| 0 <= i < s.len() ==> #[trigger] within(s[i], w, h)
}

/// Rejection sampling over a fixed sequence of candidates: each candidate
/// is accepted iff it keeps `spacing` from every candidate accepted before it.
pub open spec fn accepted(cands: Seq<Pos>, spacing: int) -> Seq<Pos>
    decreases cands.len(),
{
    if cands.len() == 0 {
        Seq::empty()
    } else {
        let prev = accepted(cands.drop_last(), spacing);
        if spaced_from(prev, cands.last(), spacing) {
            prev.push(cands.last())
        } else {
            prev
        }
    }
}

/// Whatever the candidates, the accepted points keep `spacing` pairwise.
pub proof fn lemma_accepted_spaced(cands: Seq<Pos>, spacing: int)
    ensures
        pairwise_spaced(accepted(cands, spacing), spacing),
    decreases cands.len(),
{
    if cands.len() > 0 {
        lemma_accepted_spaced(cands.drop_last(), spacing);
        let prev = accepted(cands.drop_last(), spacing);
        let c = cands.last();
        if spaced_from(prev, c, spacing) {
            let out = prev.push(c);
            assert forall|i: int, j: int| 0 <= i < j < out.len() implies #[trigger] dist_sq(
                out[i],
                out[j],
            ) >= spacing * spacing by {
                if j < prev.len() {
                    assert(dist_sq(prev[i], prev[j]) >= spacing * spacing);
                } else {
                    assert(dist_sq(prev[i], c) >= spacing * spacing);
                }
            }
        }
    }
}

/// Accepted points are drawn from the candidates, so they keep the
/// candidates' bounds.
pub proof fn lemma_accepted_within(cands: Seq<Pos>, spacing: int, w: int, h: int)
    requires
        all_within(cands, w, h),
    ensures
        all_within(accepted(cands, spacing), w, h),
    decreases cands.len(),
{
    if cands.len() > 0 {
        let prefix = cands.drop_last();
        assert(all_within(prefix, w, h)) by {
            assert forall|i: int| 0 <= i < prefix.len() implies #[trigger] within(
                prefix[i],
                w,
                h,
            ) by {
                assert(within(cands[i], w, h));
            }
        }
        lemma_accepted_within(prefix, spacing, w, h);
        assert(within(cands[cands.len() - 1], w, h));
    }
}

/// No more points are accepted than there are candidates.
pub proof fn lemma_accepted_len(cands: Seq<Pos>, spacing: int)
    ensures
        accepted(cands, spacing).len() <= cands.len(),
    decreases cands.len(),
{
    if cands.len() > 0 {
        lemma_accepted_len(cands.drop_last(), spacing);
    }
}

/// Whether `c` keeps `spacing` from every point of `points`.
pub fn is_spaced(points: &Vec<Pos>, c: &Pos, spacing: u32) -> (r: bool)
    ensures
        r == spaced_from(points@, *c, spacing as int),
{
    let sp: i128 = spacing as i128;
    proof {
        assert(0 <= sp * sp <= 0x1_0000_0000_0000_0000) by (nonlinear_arith)
            requires
                0 <= sp <= 0x1_0000_0000,
        ;
    }
    let sq: i128 = sp * sp;
    let n = points.len();
    let mut i: usize = 0;
    while i < n
        invariant
            n == points@.len(),
            i <= n,
            sq == spacing * spacing,
            forall|j: int| 0 <= j < i ==> #[trigger] dist_sq(points@[j], *c) >= sq,
        decreases n - i,
    {
        if points[i].distance_squared(c) < sq {
            return false;
        }
        i += 1;
    }
    true
}

/// Scatters points over the world by rejection sampling.
///
/// `count` is the number of points wanted; sampling is bounded by
/// `max_attempt` draws alone, and may yield fewer points than `count`.
pub struct RandomSpawnSystem {
    pub world_w: i32,
    pub world_h: i32,
    pub count: usize,
    pub min_spacing: u32,
    pub max_attempt: usize,
}

impl RandomSpawnSystem {
    /// Rejection sampling over the given candidates, in order.
    pub fn accept_candidates(&self, candidates: &Vec<Pos>) -> (r: Vec<Pos>)
        ensures
            r@ == accepted(candidates@, self.min_spacing as int),
            pairwise_spaced(r@, self.min_spacing as int),
    {
        let ghost s = self.min_spacing as int;
        let mut positions: Vec<Pos> = Vec::new();
        let n = candidates.len();
        let mut i: usize = 0;
        while i < n
            invariant
                n == candidates@.len(),
                i <= n,
                s == self.min_spacing as int,
                positions@ == accepted(candidates@.subrange(0, i as int), s),
            decreases n - i,
        {
            let c = candidates[i];
            let ghost pre = candidates@.subrange(0, i as int + 1);
            proof {
                assert(pre.drop_last() =~= candidates@.subrange(0, i as int));
                assert(pre.last() == c);
            }
            if is_spaced(&positions, &c, self.min_spacing) {
                positions.push(c);
            }
            assert(positions@ == accepted(pre, s));
            i += 1;
        }
        proof {
            assert(candidates@.subrange(0, n as int) =~= candidates@);
            lemma_accepted_spaced(candidates@, s);
        }
        positions
    }

    /// Draws `max_attempt` uniform candidates in `[0, world_w) x [0, world_h)`
    /// (the single value 0 along an axis of extent 0) and keeps those that
    /// respect the spacing.
    pub fn simulate(&self, rng: &mut fastrand::Rng) -> (r: Vec<Pos>)
        requires
            self.world_w >= 0,
            self.world_h >= 0,
        ensures
            exists|cands: Seq<Pos>|
                cands.len() == self.max_attempt && all_within(
                    cands,
                    self.world_w as int,
                    self.world_h as int,
                ) && r@ == #[trigger] accepted(cands, self.min_spacing as int),
            pairwise_spaced(r@, self.min_spacing as int),
            all_within(r@, self.world_w as int, self.world_h as int),
            r@.len() <= self.max_attempt,
    {
        let ghost w = self.world_w as int;
        let ghost h = self.world_h as int;
        let hi_x: i32 = if self.world_w > 0 { self.world_w - 1 } else { 0 };
        let hi_y: i32 = if self.world_h > 0 { self.world_h - 1 } else { 0 };
        let mut candidates: Vec<Pos> = Vec::new();
        let mut attempt: usize = 0;
        while attempt < self.max_attempt
            invariant
                w == self.world_w as int,
                h == self.world_h as int,
                0 <= hi_x <= w,
                0 <= hi_y <= h,
                attempt <= self.max_attempt,
                candidates@.len() == attempt,
                all_within(candidates@, w, h),
            decreases self.max_attempt - attempt,
        {
            let x = draw_i32(rng, 0, hi_x);
            let y = draw_i32(rng, 0, hi_y);
            let ghost before = candidates@;
            candidates.push(Pos { x, y });
            proof {
                assert forall|i: int| 0 <= i < candidates@.len() implies #[trigger] within(
                    candidates@[i],
                    w,
                    h,
                ) by {
                    if i < before.len() {
                        assert(within(before[i], w, h));
                    }
                }
            }
            attempt += 1;
        }
        let positions = self.accept_candidates(&candidates);
        proof {
            lemma_accepted_within(candidates@, self.min_spacing as int, w, h);
            lemma_accepted_len(candidates@, self.min_spacing as int);
        }
        positions
    }

    /// The game's start-up scatter of creatures over the world: the
    /// sampler's result for 256 draws at spacing 20 world units, which the
    /// host spawns one creature each.
    pub fn on_startup(rng: &mut fastrand::Rng) -> (r: Vec<Pos>)
        ensures
            exists|cands: Seq<Pos>|
                cands.len() == 256 && all_within(cands, WORLD_W as int, WORLD_H as int) && r@
                    == #[trigger] accepted(cands, 20_000),
            pairwise_spaced(r@, 20_000),
            all_within(r@, WORLD_W as int, WORLD_H as int),
            r@.len() <= 256,
    {
        let model = RandomSpawnSystem {
            world_w: WORLD_W,
            world_h: WORLD_H,
            count: 200,
            min_spacing: 20_000,
            max_attempt: 256,
        };
        model.simulate(rng)
    }
}

} // verus!
