//! Sensor fusion: per-tick sight buffers and their reduction to the nearest
//! sighted entry, plus the angle/distance computation for one overlap event.

use vstd::prelude::*;

use crate::geom::{
    angle_from_cos, clamp_i, dot2, in_box, norm2, sense_angle, sense_dist, sqrt_floor, tdiv,
    tdiv128, vlen, vlen_exec, Vec2, HALF_TURN, HEAD_LIMIT, POS_LIMIT, RADIUS_LIMIT,
};
use crate::units::MICRO;

verus! {

/// Sentinel distance of an empty sight buffer: "infinitely far".
pub const DIST_INF: i64 = i64::MAX;

/// One sighting: signed viewing angle in micro-turns and normalised distance
/// in micro-units.
#[derive(Clone, Copy, Debug, PartialEq, Eq, Structural)]
pub struct SightEntry {
    /// Signed viewing angle, in `[-HALF_TURN, HALF_TURN]` micro-turns.
    pub angle: i64,
    /// Normalised distance, non-negative.
    pub dist: i64,
}

/// A well-formed sighting: bounded angle, non-negative finite distance.
pub open spec fn entry_wf(e: SightEntry) -> bool {
    &&& -HALF_TURN as int <= e.angle <= HALF_TURN as int
    &&& 0 <= e.dist < DIST_INF
}

/// The entry a sight buffer reduces to: the first-seen entry of globally
/// minimum distance, or the `(0, DIST_INF)` sentinel for an empty buffer.
pub open spec fn nearest(s: Seq<SightEntry>) -> SightEntry
    decreases s.len(),
{
    if s.len() == 0 {
        SightEntry { angle: 0, dist: DIST_INF }
    } else {
        let prev = nearest(s.drop_last());
        if s.last().dist < prev.dist {
            s.last()
        } else {
            prev
        }
    }
}

/// Position of the reduced entry inside a non-empty buffer.
pub open spec fn nearest_index(s: Seq<SightEntry>) -> int
    decreases s.len(),
{
    if s.len() <= 1 {
        0
    } else {
        let pi = nearest_index(s.drop_last());
        if s.last().dist < s[pi].dist {
            s.len() - 1
        } else {
            pi
        }
    }
}

/// Nearest-reduction correctness: for every non-empty buffer of finite
/// sightings, the reduced summary is an element of the buffer, no element is
/// strictly nearer, and every earlier element is strictly farther — ties
/// resolve to the first-seen minimum.
pub proof fn lemma_nearest_is_first_minimum(s: Seq<SightEntry>)
    requires
        s.len() > 0,
        forall|i: int| 0 <= i < s.len() ==> #[trigger] s[i].dist < DIST_INF,
    ensures
        0 <= nearest_index(s) < s.len(),
        nearest(s) == s[nearest_index(s)],
        forall|j: int| 0 <= j < s.len() ==> nearest(s).dist <= #[trigger] s[j].dist,
        forall|j: int| 0 <= j < nearest_index(s) ==> nearest(s).dist < #[trigger] s[j].dist,
    decreases s.len(),
{
    if s.len() == 1 {
        reveal_with_fuel(nearest, 2);
        reveal_with_fuel(nearest_index, 2);
        assert(s.drop_last().len() == 0);
        assert(nearest(s) == s[0]);
    } else {
        let pre = s.drop_last();
        lemma_nearest_is_first_minimum(pre);
        assert(forall|j: int| 0 <= j < pre.len() ==> pre[j] == s[j]);
    }
}

/// The reduction of a buffer of well-formed entries stays within the entry
/// ranges; an empty buffer gives the sentinel.
pub proof fn lemma_nearest_ranges(s: Seq<SightEntry>)
    requires
        forall|i: int| 0 <= i < s.len() ==> entry_wf(#[trigger] s[i]),
    ensures
        0 <= nearest(s).dist,
        -HALF_TURN as int <= nearest(s).angle <= HALF_TURN as int,
    decreases s.len(),
{
    if s.len() > 0 {
        lemma_nearest_ranges(s.drop_last());
    }
}

/// Reduce a sight buffer to its nearest entry; an empty buffer yields the
/// `(0, DIST_INF)` sentinel.
pub fn reduce_buffer(v: &Vec<SightEntry>) -> (r: SightEntry)
    ensures
        r == nearest(v@),
{
    let mut best = SightEntry { angle: 0, dist: DIST_INF };
    let n: usize = v.len();
    let mut i: usize = 0;
    while i < n
        invariant
            n == v@.len(),
            0 <= i <= n,
            best == nearest(v@.take(i as int)),
        decreases n - i,
    {
        proof {
            assert(v@.take(i + 1).drop_last() =~= v@.take(i as int));
            assert(v@.take(i + 1).last() == v@[i as int]);
        }
        if v[i].dist < best.dist {
            best = v[i];
        }
        i = i + 1;
    }
    proof {
        assert(v@.take(n as int) =~= v@);
    }
    best
}

/// Micro-scaled reciprocal of a normalised distance; the sentinel (or zero)
/// distance maps to the largest representable value, standing for infinity.
pub open spec fn inv_dist(d: int) -> int {
    if d <= 0 {
        i64::MAX as int
    } else {
        tdiv(MICRO as int * MICRO as int, d)
    }
}

/// Executable reciprocal distance.
pub fn inv_dist_exec(d: i64) -> (r: i64)
    requires
        d >= 0,
    ensures
        r as int == inv_dist(d as int),
        0 <= r,
{
    if d == 0 {
        i64::MAX
    } else {
        let q: i128 = tdiv128(MICRO as i128 * MICRO as i128, d as i128);
        proof {
            vstd::arithmetic::div_mod::lemma_div_pos_is_pos(
                MICRO as int * MICRO as int,
                d as int,
            );
        }
        q as i64
    }
}

/// Compute one sighting of a body at `target_pos` from an observer at
/// `obs_pos` looking along `heading`, with the observer's body radius in
/// micro-units. Coincident positions or a degenerate heading yield angle 0.
pub fn sense_pair(obs_pos: Vec2, heading: Vec2, body_radius: i64, target_pos: Vec2) -> (e:
    SightEntry)
    requires
        in_box(obs_pos, POS_LIMIT as int),
        in_box(target_pos, POS_LIMIT as int),
        in_box(heading, HEAD_LIMIT as int),
        1 <= body_radius <= RADIUS_LIMIT,
    ensures
        e.dist == sense_dist(crate::geom::vdiff(target_pos, obs_pos), body_radius as int),
        e.angle == sense_angle(heading, crate::geom::vdiff(target_pos, obs_pos)),
        entry_wf(e),
{
    let diff = Vec2 { x: target_pos.x - obs_pos.x, y: target_pos.y - obs_pos.y };
    let ld: i64 = vlen_exec(diff);
    let dist128: i128 = tdiv128(ld as i128 * MICRO as i128, 2 * body_radius as i128);
    proof {
        vstd::arithmetic::div_mod::lemma_div_pos_is_pos(
            ld as int * MICRO as int,
            2 * body_radius as int,
        );
        assert(ld as int * MICRO as int >= 0) by (nonlinear_arith)
            requires
                ld >= 0,
        ;
    }
    let dist: i64 = dist128 as i64;
    let lh: i64 = vlen_exec(heading);
    let angle: i64 = if lh == 0 || ld == 0 {
        proof {
            crate::geom::lemma_norm2_nonneg(heading);
            crate::geom::lemma_norm2_nonneg(diff);
            crate::geom::lemma_sqrt_floor_bounds(norm2(heading) as nat);
            crate::geom::lemma_sqrt_floor_bounds(norm2(diff) as nat);
            let sh = sqrt_floor(norm2(heading) as nat);
            let sd = sqrt_floor(norm2(diff) as nat);
            if lh == 0 {
                assert(norm2(heading) == 0) by (nonlinear_arith)
                    requires
                        sh == 0,
                        norm2(heading) >= 0,
                        norm2(heading) < (sh + 1) * (sh + 1),
                ;
            } else {
                assert(norm2(diff) == 0) by (nonlinear_arith)
                    requires
                        sd == 0,
                        norm2(diff) >= 0,
                        norm2(diff) < (sd + 1) * (sd + 1),
                ;
            }
        }
        0
    } else {
        proof {
            assert(-80_000_000_000_000_000 <= heading.x * diff.x <= 80_000_000_000_000_000
                && -80_000_000_000_000_000 <= heading.y * diff.y <= 80_000_000_000_000_000)
                by (nonlinear_arith)
                requires
                    -2_000_000 <= heading.x <= 2_000_000,
                    -2_000_000 <= heading.y <= 2_000_000,
                    -40_000_000_000 <= diff.x <= 40_000_000_000,
                    -40_000_000_000 <= diff.y <= 40_000_000_000,
            ;
        }
        let dot: i128 = heading.x as i128 * diff.x as i128 + heading.y as i128 * diff.y as i128;
        proof {
            assert(0 < lh as int * ld as int <= 3_600_000_000_000_000_000_000)
                by (nonlinear_arith)
                requires
                    0 < lh <= 60_000_000_000,
                    0 < ld <= 60_000_000_000,
            ;
            assert(-160_000_000_000_000_000_000_000 <= (dot as int) * 1_000_000
                <= 160_000_000_000_000_000_000_000) by (nonlinear_arith)
                requires
                    -160_000_000_000_000_000 <= dot <= 160_000_000_000_000_000,
            ;
        }
        proof {
            crate::geom::lemma_norm2_nonneg(heading);
            crate::geom::lemma_norm2_nonneg(diff);
            crate::geom::lemma_sqrt_floor_bounds(norm2(heading) as nat);
            crate::geom::lemma_sqrt_floor_bounds(norm2(diff) as nat);
            assert(norm2(heading) >= 1 && norm2(diff) >= 1) by (nonlinear_arith)
                requires
                    lh >= 1,
                    ld >= 1,
                    lh as int * lh as int <= norm2(heading),
                    ld as int * ld as int <= norm2(diff),
            ;
        }
        let denom: i128 = lh as i128 * ld as i128;
        let q: i128 = tdiv128(dot * MICRO as i128, denom);
        let c: i64 = if q > MICRO as i128 {
            MICRO
        } else if q < -(MICRO as i128) {
            -MICRO
        } else {
            q as i64
        };
        proof {
            assert(c as int == clamp_i(
                tdiv(dot2(heading, diff) * MICRO as int, vlen(heading) * vlen(diff)),
                -(MICRO as int),
                MICRO as int,
            ));
        }
        angle_from_cos(c)
    };
    proof {
        assert((ld as int * MICRO as int) < (DIST_INF as int)) by (nonlinear_arith)
            requires
                0 <= ld <= 3 * POS_LIMIT as int,
        ;
    }
    SightEntry { angle, dist }
}

} // verus!
