//! The order in which service units are shown: the unit with the fewest
//! records first.

use crate::report::{LogReport, ServiceCount};
use core::cmp::Ordering;
use vstd::prelude::*;

verus! {

impl ServiceCount {
    /// Compares two units by their records, added up from the counts by
    /// priority.
    pub fn compare_count(&self, other: &Self) -> (r: Ordering)
        ensures
            r is Less <==> self@.histogram_total() < other@.histogram_total(),
            r is Equal <==> self@.histogram_total() == other@.histogram_total(),
            r is Greater <==> self@.histogram_total() > other@.histogram_total(),
    {
        let a: u128 = self.total_line_count();
        let b: u128 = other.total_line_count();
        if a < b {
            Ordering::Less
        } else if a > b {
            Ordering::Greater
        } else {
            Ordering::Equal
        }
    }
}

/// Whether the unit at `a` is shown before the unit at `b`: it has fewer
/// records, or as many and stands before it.
pub open spec fn shown_before(totals: Seq<nat>, a: int, b: int) -> bool {
    totals[a] < totals[b] || (totals[a] == totals[b] && a < b)
}

/// Whether `order` lists each of the first `n` positions once, such that
/// every position is shown before those behind it.
pub open spec fn is_ranking(order: Seq<usize>, totals: Seq<nat>, n: int) -> bool {
    &&& order.len() == n
    &&& forall|i: int| 0 <= i < order.len() ==> (#[trigger] order[i]) < n
    &&& forall|i: int, j: int|
        0 <= i < j < order.len() ==> shown_before(
            totals,
            (#[trigger] order[i]) as int,
            (#[trigger] order[j]) as int,
        )
}

impl LogReport {
    /// The records of each unit, added up from its counts by priority, in
    /// the order in which the units stand in the report.
    pub open spec fn unit_totals(&self) -> Seq<nat> {
        Seq::new(self.service.values@.len(), |i: int| self.service.values@[i]@.histogram_total())
    }

    /// The positions of the service units in the order in which they are
    /// shown: ascending by records, units with as many records in the order
    /// in which they stand in the report.
    pub fn ranked(&self) -> (order: Vec<usize>)
        ensures
            is_ranking(order@, self.unit_totals(), self.service.values@.len() as int),
    {
        let n: usize = self.service.values.len();
        let ghost goal = self.unit_totals();
        let mut totals: Vec<u128> = Vec::new();
        let mut i: usize = 0;
        while i < n
            invariant
                i <= n,
                n == self.service.values@.len(),
                goal == self.unit_totals(),
                totals@.len() == i,
                forall|j: int| 0 <= j < i ==> (#[trigger] totals@[j]) == goal[j],
            decreases n - i,
        {
            totals.push(self.service.values[i].total_line_count());
            i = i + 1;
        }
        let mut order: Vec<usize> = Vec::new();
        let mut next: usize = 0;
        while next < n
            invariant
                next <= n,
                totals@.len() == n,
                goal.len() == n,
                forall|j: int| 0 <= j < n ==> (#[trigger] totals@[j]) == goal[j],
                is_ranking(order@, goal, next as int),
            decreases n - next,
        {
            let mut at: usize = order.len();
            while at > 0 && totals[order[at - 1]] > totals[next]
                invariant
                    at <= order@.len(),
                    next < n,
                    totals@.len() == n,
                    goal.len() == n,
                    forall|j: int| 0 <= j < n ==> (#[trigger] totals@[j]) == goal[j],
                    is_ranking(order@, goal, next as int),
                    forall|j: int|
                        at <= j < order@.len() ==> goal[(#[trigger] order@[j]) as int]
                            > goal[next as int],
                decreases at,
            {
                at = at - 1;
            }
            let ghost before = order@;
            order.insert(at, next);
            proof {
                let after = order@;
                assert forall|i: int, j: int| 0 <= i < j < after.len() implies shown_before(
                    goal,
                    (#[trigger] after[i]) as int,
                    (#[trigger] after[j]) as int,
                ) by {
                    if j < at {
                        assert(after[i] == before[i] && after[j] == before[j]);
                    } else if j == at {
                        assert(after[i] == before[i]);
                        if at > 0 {
                            assert(i == at - 1 || shown_before(
                                goal,
                                before[i] as int,
                                before[at - 1] as int,
                            ));
                        }
                    } else if i < at {
                        assert(after[i] == before[i] && after[j] == before[j - 1]);
                    } else if i == at {
                        assert(after[j] == before[j - 1]);
                    } else {
                        assert(after[i] == before[i - 1] && after[j] == before[j - 1]);
                    }
                }
                assert forall|i: int| 0 <= i < after.len() implies (#[trigger] after[i]) < next
                    + 1 by {
                    if i < at {
                        assert(after[i] == before[i]);
                    } else if i > at {
                        assert(after[i] == before[i - 1]);
                    }
                }
            }
            next = next + 1;
        }
        order
    }
}

} // verus!
