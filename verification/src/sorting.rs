//! Facts about putting control points in order of phase.

use crate::channel::{insert_position, is_sorted, sort_by_phase, valid_points, ControlPoint, CYCLE};
use vstd::prelude::*;

verus! {

/// A new point goes behind every point that does not come later and before
/// every point that does.
pub proof fn lemma_insert_position(sorted: Seq<ControlPoint>, phase: u32)
    ensures
        0 <= insert_position(sorted, phase) <= sorted.len(),
        forall|k: int|
            insert_position(sorted, phase) <= k < sorted.len() ==> (#[trigger] sorted[k]).phase
                > phase,
        insert_position(sorted, phase) > 0 ==> sorted[insert_position(sorted, phase) - 1].phase
            <= phase,
    decreases sorted.len(),
{
    if sorted.len() == 0 || sorted.last().phase <= phase {
    } else {
        let front = sorted.drop_last();
        lemma_insert_position(front, phase);
        assert forall|k: int| insert_position(sorted, phase) <= k < sorted.len() implies (
        #[trigger] sorted[k]).phase > phase by {
            if k < front.len() {
                assert(front[k] == sorted[k]);
            }
        }
        if insert_position(sorted, phase) > 0 {
            assert(front[insert_position(sorted, phase) - 1] == sorted[insert_position(
                sorted,
                phase,
            ) - 1]);
        }
    }
}

/// Sorting keeps the points, each as often as it was there, and puts them in
/// order of phase.
pub proof fn lemma_sort_permutes(points: Seq<ControlPoint>)
    ensures
        sort_by_phase(points).len() == points.len(),
        is_sorted(sort_by_phase(points)),
        sort_by_phase(points).to_multiset() == points.to_multiset(),
        forall|k: int|
            0 <= k < points.len() ==> points.contains(#[trigger] sort_by_phase(points)[k]),
        forall|k: int|
            0 <= k < points.len() ==> sort_by_phase(points).contains(#[trigger] points[k]),
    decreases points.len(),
{
    let out = sort_by_phase(points);
    if points.len() == 0 {
    } else {
        let front = points.drop_last();
        let p = points.last();
        let head = sort_by_phase(front);
        let j = insert_position(head, p.phase);
        lemma_sort_permutes(front);
        lemma_insert_position(head, p.phase);
        assert(out == head.insert(j, p));
        assert forall|a: int, b: int| 0 <= a <= b < out.len() implies (#[trigger] out[a]).phase <= (
        #[trigger] out[b]).phase by {
            if a < j && b > j {
                assert(head[a].phase <= head[j - 1].phase);
                assert(head[b - 1].phase > p.phase);
            } else if a < j && b < j {
                assert(head[a].phase <= head[b].phase);
            } else if a < j && b == j {
                assert(head[a].phase <= head[j - 1].phase);
            } else if a == j && b > j {
                assert(head[b - 1].phase > p.phase);
            } else if a > j {
                assert(head[a - 1].phase <= head[b - 1].phase);
            }
        }
        assert forall|k: int| 0 <= k < points.len() implies points.contains(#[trigger] out[k]) by {
            if k == j {
                assert(points[points.len() - 1] == p);
            } else {
                let h = if k < j {
                    k
                } else {
                    k - 1
                };
                assert(out[k] == head[h]);
                assert(front.contains(head[h]));
                let w = choose|w: int| 0 <= w < front.len() && front[w] == head[h];
                assert(points[w] == head[h]);
            }
        }
        assert forall|k: int| 0 <= k < points.len() implies out.contains(#[trigger] points[k]) by {
            if k == points.len() - 1 {
                assert(out[j] == p);
            } else {
                assert(front[k] == points[k]);
                assert(head.contains(front[k]));
                let w = choose|w: int| 0 <= w < head.len() && head[w] == front[k];
                if w < j {
                    assert(out[w] == head[w]);
                } else {
                    assert(out[w + 1] == head[w]);
                }
            }
        }
        assert(points =~= front.push(p));
        vstd::seq_lib::to_multiset_build(front, p);
        vstd::seq_lib::to_multiset_insert(head, j, p);
        assert(out.to_multiset() =~= points.to_multiset());
    }
}

/// Sorting leaves a sorted sequence as it is.
pub proof fn lemma_sort_of_sorted(points: Seq<ControlPoint>)
    requires
        is_sorted(points),
    ensures
        sort_by_phase(points) == points,
    decreases points.len(),
{
    if points.len() > 0 {
        let front = points.drop_last();
        lemma_sort_of_sorted(front);
        if front.len() > 0 {
            assert(front.last() == points[points.len() - 2]);
        }
        assert(insert_position(front, points.last().phase) == front.len());
        assert(front.insert(front.len() as int, points.last()) =~= points);
    }
}

/// A first point that no other point precedes in phase stays first.
pub proof fn lemma_sort_keeps_first(points: Seq<ControlPoint>)
    requires
        points.len() >= 1,
        forall|i: int| 0 <= i < points.len() ==> points[0].phase <= (#[trigger] points[i]).phase,
    ensures
        sort_by_phase(points)[0] == points[0],
    decreases points.len(),
{
    let front = points.drop_last();
    let head = sort_by_phase(front);
    let p = points.last();
    lemma_sort_permutes(front);
    lemma_insert_position(head, p.phase);
    if points.len() == 1 {
        assert(head.len() == 0);
    } else {
        assert(front[0] == points[0]);
        assert forall|i: int| 0 <= i < front.len() implies front[0].phase <= (
        #[trigger] front[i]).phase by {
            assert(front[i] == points[i]);
        }
        lemma_sort_keeps_first(front);
        assert(head[0].phase <= p.phase);
    }
}

/// Sorting a well-formed curve gives a well-formed curve with the same end
/// points.
pub proof fn lemma_sort_keeps_valid(points: Seq<ControlPoint>, next_id: u64)
    requires
        valid_points(points, next_id),
    ensures
        valid_points(sort_by_phase(points), next_id),
        is_sorted(sort_by_phase(points)),
        sort_by_phase(points)[0] == points[0],
        sort_by_phase(points).last() == points.last(),
{
    let out = sort_by_phase(points);
    let front = points.drop_last();
    let head = sort_by_phase(front);
    let p = points.last();
    lemma_sort_permutes(points);
    lemma_sort_permutes(front);
    lemma_sort_keeps_first(points);
    // Every point before the end point lies strictly inside the cycle, so the
    // end point goes last.
    assert forall|k: int| 0 <= k < head.len() implies (#[trigger] head[k]).phase < CYCLE by {
        assert(front.contains(head[k]));
        let w = choose|w: int| 0 <= w < front.len() && front[w] == head[k];
        assert(points[w] == head[k]);
    }
    assert(head.last().phase <= p.phase);
    assert(insert_position(head, p.phase) == head.len());
    assert(out =~= head.push(p));
    assert forall|i: int| 0 <= i < out.len() implies (#[trigger] out[i]).level
        <= crate::channel::LEVEL_SPAN && out[i].id < next_id by {
        assert(points.contains(out[i]));
    }
    assert forall|i: int, j: int| 0 <= i < out.len() && 0 <= j < out.len() && i != j implies (
    #[trigger] out[i]).id != (#[trigger] out[j]).id by {
        lemma_sort_keeps_ids_apart(points);
    }
}

/// Whether no two points share an id.
pub open spec fn ids_apart(points: Seq<ControlPoint>) -> bool {
    forall|i: int, j: int|
        0 <= i < points.len() && 0 <= j < points.len() && i != j ==> (#[trigger] points[i]).id != (
        #[trigger] points[j]).id
}

/// Sorting does not bring two points of one id together where there were none.
pub proof fn lemma_sort_keeps_ids_apart(points: Seq<ControlPoint>)
    requires
        ids_apart(points),
    ensures
        ids_apart(sort_by_phase(points)),
    decreases points.len(),
{
    let out = sort_by_phase(points);
    if points.len() > 0 {
        let front = points.drop_last();
        let head = sort_by_phase(front);
        let p = points.last();
        let j = insert_position(head, p.phase);
        assert forall|a: int, b: int|
            0 <= a < front.len() && 0 <= b < front.len() && a != b implies (#[trigger] front[a]).id
            != (#[trigger] front[b]).id by {
            assert(front[a] == points[a] && front[b] == points[b]);
        }
        lemma_sort_keeps_ids_apart(front);
        lemma_sort_permutes(front);
        lemma_insert_position(head, p.phase);
        assert forall|k: int| 0 <= k < head.len() implies (#[trigger] head[k]).id != p.id by {
            assert(front.contains(head[k]));
            let w = choose|w: int| 0 <= w < front.len() && front[w] == head[k];
            assert(points[w] == head[k]);
            assert(points[points.len() - 1] == p);
        }
        assert forall|a: int, b: int|
            0 <= a < out.len() && 0 <= b < out.len() && a != b implies (#[trigger] out[a]).id != (
            #[trigger] out[b]).id by {
            let ha = if a < j {
                a
            } else {
                a - 1
            };
            let hb = if b < j {
                b
            } else {
                b - 1
            };
            if a == j {
                assert(out[b] == head[hb]);
            } else if b == j {
                assert(out[a] == head[ha]);
            } else {
                assert(out[a] == head[ha] && out[b] == head[hb]);
            }
        }
    }
}

} // verus!
