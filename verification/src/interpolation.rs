//! Blending two world samples at an instant between, before or after them.

use crate::fixed::{
    clamp_i32, clamp_u64, lerp, lerp_coordinate, lerp_heading, lerp_heading_value, lerp_timestamp,
};
use crate::telemetry::{Ball, Robot, WorldState, WorldStateView};
use vstd::prelude::*;

verus! {

/// The first robot of `list` with the id `id`.
pub open spec fn first_with_id(list: Seq<Robot>, id: u32) -> Option<Robot>
    decreases list.len(),
{
    if list.len() == 0 {
        None
    } else if list.first().id == id {
        Some(list.first())
    } else {
        first_with_id(list.drop_first(), id)
    }
}

/// Whether some robot of `list` has the id `id`.
pub open spec fn has_id(list: Seq<Robot>, id: u32) -> bool {
    exists|i: int| 0 <= i < list.len() && (#[trigger] list[i]).id == id
}

/// The pose `num / den` of the way from `p` to `n`: the position along the
/// straight line, the heading along the shorter arc.
pub open spec fn blended_robot(p: Robot, n: Robot, num: int, den: int) -> Robot {
    Robot {
        id: p.id,
        p_x: clamp_i32(lerp(p.p_x as int, n.p_x as int, num, den)),
        p_y: clamp_i32(lerp(p.p_y as int, n.p_y as int, num, den)),
        phi: clamp_i32(lerp_heading(p.phi as int, n.phi as int, num, den)),
    }
}

/// The blended pose of `p` with its counterpart in `next`, if it has one.
pub open spec fn blended_match(p: Robot, next: Seq<Robot>, num: int, den: int) -> Option<Robot> {
    match first_with_id(next, p.id) {
        Some(n) => Some(blended_robot(p, n, num, den)),
        None => None,
    }
}

/// The robots of `prev` that `next` still has, each blended with its
/// counterpart, in the order of `prev`.
pub open spec fn blended_robots(prev: Seq<Robot>, next: Seq<Robot>, num: int, den: int) -> Seq<
    Robot,
> {
    prev.filter_map(|p: Robot| blended_match(p, next, num, den))
}

/// The ball `num / den` of the way from `p` to `n`. The height is blended
/// where both samples know it.
pub open spec fn blended_ball(p: Ball, n: Ball, num: int, den: int) -> Ball {
    Ball {
        p_x: clamp_i32(lerp(p.p_x as int, n.p_x as int, num, den)),
        p_y: clamp_i32(lerp(p.p_y as int, n.p_y as int, num, den)),
        p_z: match (p.p_z, n.p_z) {
            (Some(pz), Some(nz)) => Some(clamp_i32(lerp(pz as int, nz as int, num, den))),
            _ => None,
        },
    }
}

/// The balls of the blend: one blended ball where each sample has exactly
/// one, else the balls of the later sample as they are.
pub open spec fn blended_balls(prev: Seq<Ball>, next: Seq<Ball>, num: int, den: int) -> Seq<Ball> {
    if prev.len() == 1 && next.len() == 1 {
        seq![blended_ball(prev[0], next[0], num, den)]
    } else {
        next
    }
}

/// The world `num / den` of the way from `prev` to `next`.
pub open spec fn blended_world(
    prev: WorldStateView,
    next: WorldStateView,
    num: int,
    den: int,
) -> WorldStateView {
    WorldStateView {
        timestamp: clamp_u64(lerp(prev.timestamp as int, next.timestamp as int, num, den)),
        ball: blended_balls(prev.ball, next.ball, num, den),
        yellow_robot: blended_robots(prev.yellow_robot, next.yellow_robot, num, den),
        blue_robot: blended_robots(prev.blue_robot, next.blue_robot, num, den),
    }
}

/// What `first_with_id` finds has the id asked for and is in the list; it
/// finds something exactly when the list has the id.
pub proof fn lemma_first_with_id(list: Seq<Robot>, id: u32)
    ensures
        first_with_id(list, id) is Some <==> has_id(list, id),
        first_with_id(list, id) is Some ==> first_with_id(list, id)->0.id == id && list.contains(
            first_with_id(list, id)->0,
        ),
    decreases list.len(),
{
    if list.len() == 0 {
    } else if list.first().id == id {
        assert(list[0].id == id);
    } else {
        let rest = list.drop_first();
        lemma_first_with_id(rest, id);
        if has_id(rest, id) {
            let i = choose|i: int| 0 <= i < rest.len() && (#[trigger] rest[i]).id == id;
            assert(list[i + 1].id == id);
            let found = first_with_id(rest, id)->0;
            let j = choose|j: int| 0 <= j < rest.len() && rest[j] == found;
            assert(list[j + 1] == found);
        }
        if has_id(list, id) {
            let i = choose|i: int| 0 <= i < list.len() && (#[trigger] list[i]).id == id;
            assert(rest[i - 1].id == id);
        }
    }
}

/// A robot is in the blend only if both samples have its id: one that the
/// later sample lacks is dropped, and none is made up.
pub proof fn lemma_blend_keeps_shared_ids(
    prev: Seq<Robot>,
    next: Seq<Robot>,
    num: int,
    den: int,
    i: int,
)
    requires
        0 <= i < blended_robots(prev, next, num, den).len(),
    ensures
        has_id(prev, blended_robots(prev, next, num, den)[i].id),
        has_id(next, blended_robots(prev, next, num, den)[i].id),
{
    let f = |p: Robot| blended_match(p, next, num, den);
    let out = prev.filter_map(f);
    let r = out[i];
    assert(out.contains(r));
    prev.lemma_filter_map_contains(f, r);
    let p = choose|p: Robot| #[trigger] prev.contains(p) && f(p) == Some(r);
    let k = choose|k: int| 0 <= k < prev.len() && prev[k] == p;
    assert(prev[k].id == r.id);
    lemma_first_with_id(next, p.id);
}

/// A robot of the earlier sample whose id the later sample lacks gives
/// nothing to the blend.
pub proof fn lemma_blend_drops_missing(p: Robot, next: Seq<Robot>, num: int, den: int)
    requires
        !has_id(next, p.id),
    ensures
        blended_match(p, next, num, den) is None,
{
    lemma_first_with_id(next, p.id);
}

/// Finds the first robot with the id `id`.
pub fn find_robot(list: &Vec<Robot>, id: u32) -> (r: Option<Robot>)
    ensures
        r == first_with_id(list@, id),
{
    let n = list.len();
    let mut i: usize = 0;
    assert(list@.subrange(0, n as int) =~= list@);
    while i < n
        invariant
            i <= n,
            n == list@.len(),
            first_with_id(list@, id) == first_with_id(list@.subrange(i as int, n as int), id),
        decreases n - i,
    {
        let candidate = list[i];
        if candidate.id == id {
            return Some(candidate);
        }
        assert(list@.subrange(i as int, n as int).drop_first() =~= list@.subrange(
            i as int + 1,
            n as int,
        ));
        i += 1;
    }
    None
}

/// Blends the robots that both samples have, in the order of `prev`.
pub fn interpolate_robots(
    prev: &Vec<Robot>,
    next: &Vec<Robot>,
    curr_time: u64,
    prev_time: u64,
    next_time: u64,
) -> (r: Vec<Robot>)
    ensures
        r@ == blended_robots(prev@, next@, curr_time - prev_time, next_time - prev_time),
{
    let ghost num = curr_time - prev_time;
    let ghost den = next_time - prev_time;
    let ghost f = |p: Robot| blended_match(p, next@, num, den);
    let mut out: Vec<Robot> = Vec::new();
    let n = prev.len();
    let mut i: usize = 0;
    while i < n
        invariant
            i <= n,
            n == prev@.len(),
            num == curr_time - prev_time,
            den == next_time - prev_time,
            f == (|p: Robot| blended_match(p, next@, num, den)),
            out@ == prev@.take(i as int).filter_map(f),
        decreases n - i,
    {
        let pr = prev[i];
        proof {
            prev@.lemma_filter_map_take_succ(f, i as int);
        }
        match find_robot(next, pr.id) {
            Some(nr) => {
                out.push(
                    Robot {
                        id: pr.id,
                        p_x: lerp_coordinate(pr.p_x, nr.p_x, curr_time, prev_time, next_time),
                        p_y: lerp_coordinate(pr.p_y, nr.p_y, curr_time, prev_time, next_time),
                        phi: lerp_heading_value(pr.phi, nr.phi, curr_time, prev_time, next_time),
                    },
                );
            },
            None => {},
        }
        i += 1;
    }
    assert(prev@.take(n as int) =~= prev@);
    out
}

/// The sample at instant `curr_time`, given the samples at `prev_time` and
/// at `next_time`. Between the two it interpolates, outside of them it
/// extrapolates along the same line. Where the two instants coincide the
/// later sample stands for every value that has a counterpart.
pub fn interpolate_world_state(
    curr_time: u64,
    prev_time: u64,
    prev: &WorldState,
    next_time: u64,
    next: &WorldState,
) -> (r: WorldState)
    ensures
        r@ == blended_world(prev@, next@, curr_time - prev_time, next_time - prev_time),
{
    let ball = if prev.ball.len() == 1 && next.ball.len() == 1 {
        let pb = prev.ball[0];
        let nb = next.ball[0];
        let p_z = match (pb.p_z, nb.p_z) {
            (Some(pz), Some(nz)) => Some(lerp_coordinate(pz, nz, curr_time, prev_time, next_time)),
            _ => None,
        };
        let mut one: Vec<Ball> = Vec::new();
        one.push(
            Ball {
                p_x: lerp_coordinate(pb.p_x, nb.p_x, curr_time, prev_time, next_time),
                p_y: lerp_coordinate(pb.p_y, nb.p_y, curr_time, prev_time, next_time),
                p_z,
            },
        );
        assert(one@ =~= blended_balls(
            prev@.ball,
            next@.ball,
            curr_time - prev_time,
            next_time - prev_time,
        ));
        one
    } else {
        next.ball.clone()
    };
    WorldState {
        timestamp: lerp_timestamp(
            prev.timestamp,
            next.timestamp,
            curr_time,
            prev_time,
            next_time,
        ),
        ball,
        yellow_robot: interpolate_robots(
            &prev.yellow_robot,
            &next.yellow_robot,
            curr_time,
            prev_time,
            next_time,
        ),
        blue_robot: interpolate_robots(
            &prev.blue_robot,
            &next.blue_robot,
            curr_time,
            prev_time,
            next_time,
        ),
    }
}

} // verus!
