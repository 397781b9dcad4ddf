//! What holds of the value of a well-formed curve: it repeats with the
//! cycle, it closes over the end of the cycle, it moves no faster than its
//! segments are steep, and an edit that is taken back leaves no trace.

use crate::channel::{
    in_segment, index_of, interpolate, is_end_point, is_sorted, last_segment,
    points_after_add, points_after_delete, segment_count, sort_by_phase, valid_points, value_at,
    has_point, inner_phase, scale_level, insert_position, points_after_event, points_after_move,
    ControlPoint, Curve, CurveEvent, CYCLE,
};
use crate::sorting::{
    lemma_insert_position, lemma_sort_keeps_valid, lemma_sort_of_sorted, lemma_sort_permutes,
};
use vstd::prelude::*;

verus! {

/// Phases grow from each point to the next: no two points share a phase.
pub open spec fn is_strictly_sorted(points: Seq<ControlPoint>) -> bool {
    forall|i: int, j: int|
        0 <= i < j < points.len() ==> (#[trigger] points[i]).phase < (#[trigger] points[j]).phase
}

/// Whether two points stand at phase `t`.
pub open spec fn phase_is_shared(points: Seq<ControlPoint>, t: int) -> bool {
    exists|i: int, j: int|
        0 <= i < j < points.len() && (#[trigger] points[i]).phase == t && (
        #[trigger] points[j]).phase == t
}

/// The distance between two numbers.
pub open spec fn distance(a: int, b: int) -> int {
    if a <= b {
        b - a
    } else {
        a - b
    }
}

/// The most that the level can change over one phase step of the segment
/// from `a` to `b`: the segment's rise over its run, rounded down, and one
/// more for the rounding of the two levels.
pub open spec fn steepness(a: ControlPoint, b: ControlPoint) -> int {
    distance(a.level as int, b.level as int) / (b.phase - a.phase) + 1
}

/// The value is the same one cycle later: only the phase within the cycle
/// counts.
pub proof fn lemma_value_repeats(points: Seq<ControlPoint>, phase: int)
    ensures
        value_at(points, phase + CYCLE) == value_at(points, phase),
{
    vstd::arithmetic::div_mod::lemma_mod_add_multiples_vanish(phase, CYCLE as int);
}

/// The value at the end of a cycle is the value at its start.
pub proof fn lemma_value_closes(points: Seq<ControlPoint>)
    ensures
        value_at(points, CYCLE as int) == value_at(points, 0),
{
    lemma_value_repeats(points, 0);
}

/// In a sorted curve the segment that holds a phase is the only one that
/// does, so it is the one that evaluation takes.
pub proof fn lemma_segment_is_taken(points: Seq<ControlPoint>, t: int, i: int, n: nat)
    requires
        is_sorted(points),
        in_segment(points, t, i),
        i < n <= segment_count(points),
    ensures
        last_segment(points, t, n) == Some(i),
    decreases n,
{
    if n - 1 > i {
        assert(points[i + 1].phase <= points[n - 1].phase);
        lemma_segment_is_taken(points, t, i, (n - 1) as nat);
    }
}

/// A well-formed curve has a segment for every phase of the cycle, at or
/// behind any point that does not come after the phase.
pub proof fn lemma_segment_exists(points: Seq<ControlPoint>, next_id: u64, t: int, from: int) -> (i:
    int)
    requires
        valid_points(points, next_id),
        0 <= t < CYCLE,
        0 <= from < points.len() - 1,
        points[from].phase <= t,
    ensures
        from <= i,
        in_segment(points, t, i),
    decreases points.len() - from,
{
    if points[from + 1].phase > t {
        from
    } else {
        lemma_segment_exists(points, next_id, t, from + 1)
    }
}

/// Rounding down two quotients whose numerators lie `d` apart gives
/// results that lie no further apart than `d` over the divisor, rounded
/// down, and one.
pub proof fn lemma_quotients_stay_close(n: int, d: int, dx: int)
    requires
        dx > 0,
    ensures
        distance((n + d) / dx, n / dx) <= distance(0, d) / dx + 1,
{
    let size = distance(0, d);
    let q = size / dx;
    vstd::arithmetic::div_mod::lemma_fundamental_div_mod(size, dx);
    vstd::arithmetic::div_mod::lemma_mod_bound(size, dx);
    assert(size < (q + 1) * dx) by (nonlinear_arith)
        requires
            size == dx * q + size % dx,
            0 <= size % dx < dx,
    ;
    // Both quotients lie between those of `n - (q + 1) * dx` and of
    // `n + (q + 1) * dx`, which are `q + 1` below and above that of `n`.
    vstd::arithmetic::div_mod::lemma_div_plus_one(n, dx);
    lemma_div_shift(n, q + 1, dx);
    lemma_div_shift(n, -(q + 1), dx);
    vstd::arithmetic::div_mod::lemma_div_is_ordered(n + d, n + (q + 1) * dx, dx);
    vstd::arithmetic::div_mod::lemma_div_is_ordered(n - (q + 1) * dx, n + d, dx);
    assert(n + (-(q + 1)) * dx == n - (q + 1) * dx) by (nonlinear_arith);
}

/// Adding a multiple of the divisor adds the multiplier to the quotient.
pub proof fn lemma_div_shift(n: int, k: int, dx: int)
    requires
        dx > 0,
    ensures
        (n + k * dx) / dx == n / dx + k,
{
    vstd::arithmetic::div_mod::lemma_div_multiples_vanish_fancy(k, n % dx, dx);
    vstd::arithmetic::div_mod::lemma_fundamental_div_mod(n, dx);
    vstd::arithmetic::div_mod::lemma_mod_bound(n, dx);
    let q = n / dx;
    let r = n % dx;
    assert(n + k * dx == (q + k) * dx + r) by (nonlinear_arith)
        requires
            n == dx * q + r,
    ;
    vstd::arithmetic::div_mod::lemma_div_multiples_vanish_fancy(q + k, r, dx);
    vstd::arithmetic::div_mod::lemma_div_multiples_vanish_fancy(q, r, dx);
    assert(dx * (q + k) == (q + k) * dx) by (nonlinear_arith);
    assert(dx * q == q * dx) by (nonlinear_arith);
}

/// A segment starts at the level of its first point and, could it be
/// evaluated there, would end at the level of its second.
pub proof fn lemma_segment_ends(a: ControlPoint, b: ControlPoint)
    requires
        a.phase < b.phase,
    ensures
        interpolate(a, b, a.phase as int) == a.level,
        interpolate(a, b, b.phase as int) == b.level,
{
    let dx: int = b.phase - a.phase;
    assert((a.level * dx + b.level * 0) / dx == a.level) by (nonlinear_arith)
        requires
            dx > 0,
    ;
    assert((a.level * 0 + b.level * dx) / dx == b.level) by (nonlinear_arith)
        requires
            dx > 0,
    ;
}

/// Along one segment the level changes by no more than the segment's
/// steepness from one phase step to the next.
pub proof fn lemma_segment_is_smooth(a: ControlPoint, b: ControlPoint, t: int)
    requires
        a.phase <= t < b.phase,
    ensures
        distance(interpolate(a, b, t + 1), interpolate(a, b, t)) <= steepness(a, b),
{
    let dx: int = b.phase - a.phase;
    let n: int = a.level * (b.phase - t) + b.level * (t - a.phase);
    let d: int = b.level - a.level;
    assert(a.level * (b.phase - (t + 1)) + b.level * (t + 1 - a.phase) == n + d)
        by (nonlinear_arith)
        requires
            n == a.level * (b.phase - t) + b.level * (t - a.phase),
            d == b.level - a.level,
    ;
    lemma_quotients_stay_close(n, d, dx);
    assert(distance(0, d) == distance(a.level as int, b.level as int));
}

/// The value of a sorted curve takes no jump: from any phase to the next,
/// it changes by no more than the steepness of the segment that holds the
/// phase. This holds across control points and across the end of the
/// cycle, where the curve closes. Only where two points stand at the very
/// phase that comes next can the value step from one to the other.
pub proof fn lemma_value_has_no_jumps(points: Seq<ControlPoint>, next_id: u64, phase: int) -> (i:
    int)
    requires
        valid_points(points, next_id),
        is_sorted(points),
        !phase_is_shared(points, (phase + 1) % (CYCLE as int)),
    ensures
        in_segment(points, phase % (CYCLE as int), i),
        distance(value_at(points, phase + 1), value_at(points, phase)) <= steepness(
            points[i],
            points[i + 1],
        ),
{
    let cycle = CYCLE as int;
    let t = phase % cycle;
    let count = segment_count(points);
    vstd::arithmetic::div_mod::lemma_mod_bound(phase, cycle);
    let i = lemma_segment_exists(points, next_id, t, 0);
    lemma_segment_is_taken(points, t, i, count);
    let a = points[i];
    let b = points[i + 1];
    lemma_segment_is_smooth(a, b, t);
    lemma_segment_ends(a, b);
    // The phase after `t`, within the cycle.
    let t1 = (phase + 1) % cycle;
    assert(t1 == if t + 1 == cycle {
        0
    } else {
        t + 1
    }) by {
        let q = phase / cycle;
        vstd::arithmetic::div_mod::lemma_fundamental_div_mod(phase, cycle);
        if t + 1 == cycle {
            assert(phase + 1 == (q + 1) * cycle + 0) by (nonlinear_arith)
                requires
                    phase == cycle * q + t,
                    t + 1 == cycle,
            ;
            vstd::arithmetic::div_mod::lemma_fundamental_div_mod_converse(
                phase + 1,
                cycle,
                q + 1,
                0,
            );
        } else {
            assert(phase + 1 == q * cycle + (t + 1)) by (nonlinear_arith)
                requires
                    phase == cycle * q + t,
            ;
            vstd::arithmetic::div_mod::lemma_fundamental_div_mod_converse(
                phase + 1,
                cycle,
                q,
                t + 1,
            );
        }
    }
    if t + 1 < b.phase {
        // The next phase lies in the same segment.
        assert(in_segment(points, t + 1, i));
        lemma_segment_is_taken(points, t + 1, i, count);
    } else if i + 1 == points.len() - 1 {
        // The next phase is the end of the cycle: the curve starts over, at
        // the level at which it ends.
        assert(points[1].phase > 0) by {
            if points[1].phase == 0 {
                assert(points[0].phase == t1 && points[1].phase == t1);
            }
        }
        assert(in_segment(points, 0, 0));
        lemma_segment_is_taken(points, 0, 0, count);
        lemma_segment_ends(points[0], points[1]);
    } else {
        // The next phase is that of the next point, where the next segment
        // starts.
        assert(points[i + 1].phase <= points[i + 2].phase);
        assert(points[i + 2].phase > t + 1) by {
            if points[i + 2].phase == t + 1 {
                assert(points[i + 1].phase == t1 && points[i + 2].phase == t1);
            }
        }
        assert(in_segment(points, t + 1, i + 1));
        lemma_segment_is_taken(points, t + 1, i + 1, count);
        lemma_segment_ends(points[i + 1], points[i + 2]);
    }
    i
}

/// A curve without two points at one phase has no jumps at all.
pub proof fn lemma_strict_curve_has_no_jumps(
    points: Seq<ControlPoint>,
    next_id: u64,
    phase: int,
) -> (i: int)
    requires
        valid_points(points, next_id),
        is_strictly_sorted(points),
    ensures
        in_segment(points, phase % (CYCLE as int), i),
        distance(value_at(points, phase + 1), value_at(points, phase)) <= steepness(
            points[i],
            points[i + 1],
        ),
{
    assert(is_sorted(points));
    lemma_value_has_no_jumps(points, next_id, phase)
}

/// A point that was added and is taken off again leaves the curve as it
/// was, and so the value at every phase.
pub proof fn lemma_add_then_delete(curve: Curve, phase: u32, level: u32)
    requires
        curve.wf(),
    ensures
        !is_end_point(points_after_add(curve.points, phase, level, curve.next_id), curve.next_id),
        points_after_delete(
            points_after_add(curve.points, phase, level, curve.next_id),
            curve.next_id,
        ) == curve.points,
        forall|at: int|
            value_at(
                points_after_delete(
                    points_after_add(curve.points, phase, level, curve.next_id),
                    curve.next_id,
                ),
                at,
            ) == value_at(curve.points, at),
{
    let id = curve.next_id;
    let before = curve.points;
    let place = before.len() - 1;
    let added = points_after_add(before, phase, level, id);
    assert(added[place].id == id);
    assert(added[0] == before[0]);
    assert(added.last() == before.last());
    assert(has_point(added, id));
    let found = index_of(added, id);
    assert(found == place) by {
        if found < place {
            assert(added[found] == before[found]);
        } else if found > place {
            assert(added[found] == before[found - 1]);
        }
    }
    assert(added.remove(place) =~= before);
}

/// The same holds at the editor, where the points are put in order after
/// every event: a click on a sorted curve, followed by the removal of the
/// point that the click made, leaves the points and the value as they were.
pub proof fn lemma_click_then_remove(curve: Curve, phase: u32, level: u32)
    requires
        curve.wf(),
        is_sorted(curve.points),
        curve.next_id < u64::MAX,
    ensures
        curve.after_event(CurveEvent::Click { phase, level }).after_event(
            CurveEvent::Remove { id: curve.next_id },
        ).points == curve.points,
        forall|at: int|
            curve.after_event(CurveEvent::Click { phase, level }).after_event(
                CurveEvent::Remove { id: curve.next_id },
            ).value(at) == curve.value(at),
{
    let id = curve.next_id;
    let before = curve.points;
    let front = before.drop_last();
    let end = before.last();
    let point = ControlPoint { phase: inner_phase(phase), level: scale_level(level), id };
    let added = points_after_add(before, phase, level, id);
    let clicked = curve.after_event(CurveEvent::Click { phase, level });
    // The points after the click: the new point at its place among those
    // before the end point, then the end point.
    assert(added =~= front.push(point).push(end));
    assert(added.drop_last() =~= front.push(point));
    assert(front.push(point).drop_last() =~= front);
    assert(is_sorted(front)) by {
        assert forall|i: int, j: int| 0 <= i <= j < front.len() implies (#[trigger] front[i]).phase
            <= (#[trigger] front[j]).phase by {
            assert(front[i] == before[i] && front[j] == before[j]);
        }
    }
    lemma_sort_of_sorted(front);
    lemma_sort_of_sorted(before);
    let j = insert_position(front, point.phase);
    lemma_insert_position(front, point.phase);
    let middle = front.insert(j, point);
    assert(sort_by_phase(front.push(point)) == middle);
    assert(insert_position(middle, end.phase) == middle.len()) by {
        assert(middle.last().phase <= end.phase) by {
            if j == front.len() {
                assert(middle.last() == point);
            } else {
                assert(middle.last() == front[front.len() - 1]);
                assert(front[front.len() - 1] == before[front.len() - 1]);
            }
        }
    }
    assert(clicked.points =~= middle.push(end));
    // The new point stands behind the first point and before the end point.
    assert(j >= 1) by {
        assert(front[0] == before[0]);
    }
    assert(clicked.points[j] == point);
    assert(has_point(clicked.points, id));
    let found = index_of(clicked.points, id);
    assert(found == j) by {
        if found != j {
            let earlier = if found < j {
                found
            } else {
                found - 1
            };
            assert(clicked.points[found] == before[earlier]);
        }
    }
    assert(clicked.points[0] == before[0]);
    assert(clicked.points.last() == end);
    assert(!is_end_point(clicked.points, id));
    assert(clicked.points.remove(j) =~= before);
}

/// Asking an end point to go changes nothing: the points, and with them
/// their number, stay as they were.
pub proof fn lemma_end_points_stay(curve: Curve, id: u64)
    requires
        curve.wf(),
        is_end_point(curve.points, id),
    ensures
        points_after_delete(curve.points, id) == curve.points,
        curve.after_event(CurveEvent::Remove { id }).points.len() == curve.points.len(),
        is_sorted(curve.points) ==> curve.after_event(CurveEvent::Remove { id }) == curve,
{
    lemma_sort_permutes(curve.points);
    if is_sorted(curve.points) {
        lemma_sort_of_sorted(curve.points);
    }
}

/// A new point leaves a well-formed curve well-formed, with the end points
/// it had.
pub proof fn lemma_add_keeps_valid(points: Seq<ControlPoint>, next_id: u64, phase: u32, level: u32)
    requires
        valid_points(points, next_id),
        next_id < u64::MAX,
    ensures
        valid_points(points_after_add(points, phase, level, next_id), (next_id + 1) as u64),
        points_after_add(points, phase, level, next_id)[0] == points[0],
        points_after_add(points, phase, level, next_id).last() == points.last(),
{
    let after = points_after_add(points, phase, level, next_id);
    let at = points.len() - 1;
    assert forall|i: int| 0 <= i < after.len() implies (#[trigger] after[i]).level
        <= crate::channel::LEVEL_SPAN && after[i].id < next_id + 1 && (i < after.len() - 1
        ==> after[i].phase < CYCLE) by {
        if i < at {
            assert(after[i] == points[i]);
        } else if i > at {
            assert(after[i] == points[i - 1]);
        }
    }
    assert forall|i: int, j: int| 0 <= i < after.len() && 0 <= j < after.len() && i != j implies (
    #[trigger] after[i]).id != (#[trigger] after[j]).id by {
        let bi = if i < at {
            i
        } else {
            i - 1
        };
        let bj = if j < at {
            j
        } else {
            j - 1
        };
        if i != at {
            assert(after[i] == points[bi]);
        }
        if j != at {
            assert(after[j] == points[bj]);
        }
    }
}

/// A move leaves a well-formed curve well-formed: the end points keep
/// their ids and phases and share one level.
pub proof fn lemma_move_keeps_valid(
    points: Seq<ControlPoint>,
    next_id: u64,
    id: u64,
    phase: u32,
    level: u32,
)
    requires
        valid_points(points, next_id),
    ensures
        valid_points(points_after_move(points, id, phase, level), next_id),
        points_after_move(points, id, phase, level).len() == points.len(),
        points_after_move(points, id, phase, level)[0].id == points[0].id,
        points_after_move(points, id, phase, level).last().id == points.last().id,
{
    let after = points_after_move(points, id, phase, level);
    if has_point(points, id) {
        let k = index_of(points, id);
        assert forall|i: int| 0 <= i < after.len() implies (#[trigger] after[i]).id
            == points[i].id by {}
        assert forall|i: int, j: int| 0 <= i < after.len() && 0 <= j < after.len() && i != j implies (
        #[trigger] after[i]).id != (#[trigger] after[j]).id by {
            assert(points[i].id != points[j].id);
        }
        assert forall|i: int| 0 <= i < after.len() implies (#[trigger] after[i]).level
            <= crate::channel::LEVEL_SPAN && after[i].id < next_id && (i < after.len() - 1
            ==> after[i].phase < CYCLE) by {
            assert(points[i].level <= crate::channel::LEVEL_SPAN);
            if i < after.len() - 1 {
                assert(points[i].phase < CYCLE);
            }
        }
        if !is_end_point(points, id) {
            assert(k != 0 && k != points.len() - 1);
        }
    }
}

/// A removal leaves a well-formed curve well-formed, with the end points
/// it had.
pub proof fn lemma_delete_keeps_valid(points: Seq<ControlPoint>, next_id: u64, id: u64)
    requires
        valid_points(points, next_id),
    ensures
        valid_points(points_after_delete(points, id), next_id),
        points_after_delete(points, id)[0] == points[0],
        points_after_delete(points, id).last() == points.last(),
{
    let after = points_after_delete(points, id);
    if has_point(points, id) && !is_end_point(points, id) {
        let k = index_of(points, id);
        assert(0 < k < points.len() - 1);
        assert forall|i: int| 0 <= i < after.len() implies (#[trigger] after[i]).level
            <= crate::channel::LEVEL_SPAN && after[i].id < next_id && (i < after.len() - 1
            ==> after[i].phase < CYCLE) by {
            if i < k {
                assert(after[i] == points[i]);
            } else {
                assert(after[i] == points[i + 1]);
            }
        }
        assert forall|i: int, j: int| 0 <= i < after.len() && 0 <= j < after.len() && i != j implies (
        #[trigger] after[i]).id != (#[trigger] after[j]).id by {
            let bi = if i < k {
                i
            } else {
                i + 1
            };
            let bj = if j < k {
                j
            } else {
                j + 1
            };
            assert(after[i] == points[bi] && after[j] == points[bj]);
        }
    }
}

/// No event at the editor breaks a curve: afterwards it is well-formed and
/// in order, it has at least two points, its end points are the points
/// that were its end points, at phase zero and at the end of the cycle and
/// at one level, and no id that was handed out is handed out again.
pub proof fn lemma_event_keeps_valid(curve: Curve, event: CurveEvent)
    requires
        curve.wf(),
    ensures
        curve.after_event(event).wf(),
        is_sorted(curve.after_event(event).points),
        curve.after_event(event).points.len() >= 2,
        curve.after_event(event).points[0].id == curve.points[0].id,
        curve.after_event(event).points.last().id == curve.points.last().id,
        curve.after_event(event).points[0].phase == 0,
        curve.after_event(event).points.last().phase == CYCLE,
        curve.after_event(event).points[0].level == curve.after_event(event).points.last().level,
        curve.after_event(event).next_id >= curve.next_id,
{
    let edited = points_after_event(curve.points, curve.next_id, event);
    let after = curve.after_event(event);
    match event {
        CurveEvent::Click { phase, level } => {
            if curve.next_id < u64::MAX {
                lemma_add_keeps_valid(curve.points, curve.next_id, phase, level);
            }
        },
        CurveEvent::Drag { id, phase, level } => {
            lemma_move_keeps_valid(curve.points, curve.next_id, id, phase, level);
        },
        CurveEvent::Remove { id } => {
            lemma_delete_keeps_valid(curve.points, curve.next_id, id);
        },
    }
    lemma_sort_keeps_valid(edited, after.next_id);
}

} // verus!
