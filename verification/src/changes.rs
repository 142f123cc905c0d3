//! What changed between two refreshes.

use crate::merged::MergedRow;
use crate::prs::PrRow;
use crate::status::Status;
use std::collections::HashSet;
use vstd::prelude::*;

verus! {

broadcast use vstd::std_specs::hash::group_hash_axioms;

/// The PRs whose status changed, and those that merged, since the last refresh.
pub struct Changes {
    pub status_changed: HashSet<i64>,
    pub newly_merged: HashSet<i64>,
}

impl Default for Changes {
    fn default() -> (c: Self)
        ensures
            c.status_changed@ == Set::<i64>::empty(),
            c.newly_merged@ == Set::<i64>::empty(),
    {
        Changes { status_changed: HashSet::new(), newly_merged: HashSet::new() }
    }
}

impl Changes {
    /// Whether anything changed.
    pub fn any(&self) -> (r: bool)
        ensures
            r == !(self.status_changed@.is_empty() && self.newly_merged@.is_empty()),
    {
        !self.status_changed.is_empty() || !self.newly_merged.is_empty()
    }
}

/// What a refresh is compared by: the status of each open PR, and which PRs
/// merged.
pub struct Tracker {
    pub statuses: Vec<(i64, Option<Status>)>,
    pub merged: Vec<i64>,
}

/// The number and status of each PR.
pub open spec fn statuses_of(rows: Seq<PrRow>) -> Seq<(i64, Option<Status>)> {
    Seq::new(rows.len(), |i: int| (rows[i].number, rows[i].status))
}

/// The number of each merged PR.
pub open spec fn numbers_of(rows: Seq<MergedRow>) -> Seq<i64> {
    Seq::new(rows.len(), |i: int| rows[i].number)
}

/// The status under which PR `n` is listed first, where it is listed.
pub open spec fn listed(statuses: Seq<(i64, Option<Status>)>, n: i64) -> Option<Option<Status>>
    decreases statuses.len(),
{
    if statuses.len() == 0 {
        None
    } else if statuses[0].0 == n {
        Some(statuses[0].1)
    } else {
        listed(statuses.drop_first(), n)
    }
}

/// Whether the status of PR `n` changed: it is listed on both sides, under
/// another status.
pub open spec fn flipped(
    now: Seq<(i64, Option<Status>)>,
    before: Seq<(i64, Option<Status>)>,
    n: i64,
) -> bool {
    listed(now, n) is Some && listed(before, n) is Some && listed(now, n) != listed(before, n)
}

/// Looks up the status of a PR.
fn look_up(statuses: &Vec<(i64, Option<Status>)>, n: i64) -> (r: Option<Option<Status>>)
    ensures
        r == listed(statuses@, n),
{
    let mut i: usize = 0;
    assert(statuses@.skip(0) =~= statuses@);
    while i < statuses.len()
        invariant
            i <= statuses@.len(),
            listed(statuses@, n) == listed(statuses@.skip(i as int), n),
        decreases statuses@.len() - i,
    {
        assert(statuses@.skip(i as int).drop_first() =~= statuses@.skip(i + 1));
        if statuses[i].0 == n {
            return Some(statuses[i].1);
        }
        i += 1;
    }
    None
}

/// A PR that is listed is one of those listed.
proof fn a_listed_pr_is_held(statuses: Seq<(i64, Option<Status>)>, n: i64)
    ensures
        listed(statuses, n) is Some <==> exists|i: int|
            0 <= i < statuses.len() && (#[trigger] statuses[i]).0 == n,
    decreases statuses.len(),
{
    if statuses.len() > 0 {
        let rest = statuses.drop_first();
        a_listed_pr_is_held(rest, n);
        if listed(rest, n) is Some {
            let i = choose|i: int| 0 <= i < rest.len() && (#[trigger] rest[i]).0 == n;
            assert(statuses[i + 1].0 == n);
        }
        if exists|i: int| 0 <= i < statuses.len() && (#[trigger] statuses[i]).0 == n {
            let i = choose|i: int| 0 <= i < statuses.len() && (#[trigger] statuses[i]).0 == n;
            if i > 0 {
                assert(rest[i - 1].0 == n);
            }
        }
    }
}

impl Tracker {
    /// What the sections of a refresh are compared by. A section that is
    /// switched off lists nothing.
    pub fn build(prs: Option<&[PrRow]>, merged: Option<&[MergedRow]>) -> (t: Self)
        ensures
            t.statuses@ == (match prs {
                Some(rows) => statuses_of(rows@),
                None => Seq::empty(),
            }),
            t.merged@ == (match merged {
                Some(rows) => numbers_of(rows@),
                None => Seq::empty(),
            }),
    {
        let mut statuses: Vec<(i64, Option<Status>)> = Vec::new();
        match prs {
            Some(rows) => {
                let mut i: usize = 0;
                while i < rows.len()
                    invariant
                        i <= rows@.len(),
                        statuses@ == statuses_of(rows@.take(i as int)),
                    decreases rows@.len() - i,
                {
                    statuses.push((rows[i].number, rows[i].status));
                    assert(statuses@ =~= statuses_of(rows@.take(i + 1)));
                    i += 1;
                }
                assert(rows@.take(rows@.len() as int) =~= rows@);
            },
            None => {},
        }
        let mut numbers: Vec<i64> = Vec::new();
        match merged {
            Some(rows) => {
                let mut i: usize = 0;
                while i < rows.len()
                    invariant
                        i <= rows@.len(),
                        numbers@ == numbers_of(rows@.take(i as int)),
                    decreases rows@.len() - i,
                {
                    numbers.push(rows[i].number);
                    assert(numbers@ =~= numbers_of(rows@.take(i + 1)));
                    i += 1;
                }
                assert(rows@.take(rows@.len() as int) =~= rows@);
            },
            None => {},
        }
        Tracker { statuses, merged: numbers }
    }

    /// What changed since `prev`: the PRs whose status flipped, and those that
    /// merged.
    pub fn diff(&self, prev: &Tracker) -> (c: Changes)
        ensures
            forall|n: i64| #[trigger]
                c.status_changed@.contains(n) <==> flipped(self.statuses@, prev.statuses@, n),
            forall|n: i64| #[trigger]
                c.newly_merged@.contains(n) <==> self.merged@.contains(n)
                    && !prev.merged@.contains(n),
    {
        let mut status_changed: HashSet<i64> = HashSet::new();
        let mut i: usize = 0;
        while i < self.statuses.len()
            invariant
                i <= self.statuses@.len(),
                forall|n: i64| #[trigger]
                    status_changed@.contains(n) <==> flipped(self.statuses@, prev.statuses@, n)
                        && exists|j: int| 0 <= j < i && (#[trigger] self.statuses@[j]).0 == n,
            decreases self.statuses@.len() - i,
        {
            let n: i64 = self.statuses[i].0;
            let ghost before = status_changed@;
            let changed: bool = match (look_up(&self.statuses, n), look_up(&prev.statuses, n)) {
                (Some(now), Some(was)) => now != was,
                _ => false,
            };
            if changed {
                status_changed.insert(n);
            }
            assert forall|m: i64| #[trigger] status_changed@.contains(m) <==> flipped(
                self.statuses@,
                prev.statuses@,
                m,
            ) && exists|j: int| 0 <= j < i + 1 && (#[trigger] self.statuses@[j]).0 == m by {
                if m == n {
                    assert(self.statuses@[i as int].0 == m);
                } else {
                    assert(status_changed@.contains(m) <==> before.contains(m));
                }
            }
            i += 1;
        }
        assert forall|n: i64| #[trigger] status_changed@.contains(n) <==> flipped(
            self.statuses@,
            prev.statuses@,
            n,
        ) by {
            a_listed_pr_is_held(self.statuses@, n);
        }
        let mut newly_merged: HashSet<i64> = HashSet::new();
        let mut k: usize = 0;
        while k < self.merged.len()
            invariant
                k <= self.merged@.len(),
                forall|n: i64| #[trigger]
                    newly_merged@.contains(n) <==> self.merged@.take(k as int).contains(n)
                        && !prev.merged@.contains(n),
            decreases self.merged@.len() - k,
        {
            let n: i64 = self.merged[k];
            let ghost before = newly_merged@;
            if !holds(&prev.merged, n) {
                newly_merged.insert(n);
            }
            assert forall|m: i64| #[trigger] newly_merged@.contains(m) <==> self.merged@.take(
                k + 1,
            ).contains(m) && !prev.merged@.contains(m) by {
                let small = self.merged@.take(k as int);
                let large = self.merged@.take(k + 1);
                assert(large =~= small.push(n));
                assert(large[k as int] == n);
                if small.contains(m) {
                    let j = choose|j: int| 0 <= j < small.len() && small[j] == m;
                    assert(large[j] == m);
                }
                if large.contains(m) && m != n {
                    let j = choose|j: int| 0 <= j < large.len() && large[j] == m;
                    assert(small[j] == m);
                }
                if m != n {
                    assert(newly_merged@.contains(m) <==> before.contains(m));
                }
            }
            k += 1;
        }
        assert(self.merged@.take(self.merged@.len() as int) =~= self.merged@);
        Changes { status_changed, newly_merged }
    }
}

/// Whether a list of numbers holds `n`.
fn holds(numbers: &Vec<i64>, n: i64) -> (r: bool)
    ensures
        r == numbers@.contains(n),
{
    let mut i: usize = 0;
    while i < numbers.len()
        invariant
            i <= numbers@.len(),
            forall|j: int| 0 <= j < i ==> numbers@[j] != n,
        decreases numbers@.len() - i,
    {
        if numbers[i] == n {
            return true;
        }
        i += 1;
    }
    false
}

/// A refresh that brings the same rows changes nothing, so it does not ring.
pub proof fn the_same_rows_change_nothing(statuses: Seq<(i64, Option<Status>)>, n: i64)
    ensures
        !flipped(statuses, statuses, n),
{
}

/// A PR that was not listed before, or is not listed now, has no changed status.
pub proof fn only_a_pr_seen_twice_changes(
    now: Seq<(i64, Option<Status>)>,
    before: Seq<(i64, Option<Status>)>,
    n: i64,
)
    requires
        flipped(now, before, n),
    ensures
        exists|i: int| 0 <= i < now.len() && (#[trigger] now[i]).0 == n,
        exists|i: int| 0 <= i < before.len() && (#[trigger] before[i]).0 == n,
{
    a_listed_pr_is_held(now, n);
    a_listed_pr_is_held(before, n);
}

/// Whether row `i` is the only one of its PR.
pub open spec fn listed_once(rows: Seq<PrRow>, i: int) -> bool {
    &&& 0 <= i < rows.len()
    &&& forall|k: int|
        0 <= k < rows.len() && k != i ==> (#[trigger] rows[k]).number != rows[i].number
}

/// A PR that is listed once is listed under its status.
proof fn a_status_is_looked_up(rows: Seq<PrRow>, i: int)
    requires
        listed_once(rows, i),
    ensures
        listed(statuses_of(rows), rows[i].number) == Some(rows[i].status),
    decreases rows.len(),
{
    if i > 0 {
        let rest = rows.drop_first();
        assert(statuses_of(rows).drop_first() =~= statuses_of(rest));
        assert(rows[0].number != rows[i].number);
        assert(rest[i - 1] == rows[i]);
        assert forall|k: int| 0 <= k < rest.len() && k != i - 1 implies (
        #[trigger] rest[k]).number != rest[i - 1].number by {
            assert(rest[k] == rows[k + 1]);
        }
        a_status_is_looked_up(rest, i - 1);
    }
}

/// Any other status is a change: a PR that each of two refreshes lists once is
/// among the changed ones if and only if its two statuses differ, whatever they
/// are. `c` is what changed from the refresh with the rows `before` to the one
/// with the rows `now`.
pub proof fn any_other_status_is_a_change(
    now: &[PrRow],
    before: &[PrRow],
    merged: Option<&[MergedRow]>,
    merged_before: Option<&[MergedRow]>,
    t: Tracker,
    prev: Tracker,
    c: Changes,
    i: int,
    j: int,
)
    requires
        call_ensures(Tracker::build, (Some(now), merged), t),
        call_ensures(Tracker::build, (Some(before), merged_before), prev),
        call_ensures(Tracker::diff, (&t, &prev), c),
        listed_once(now@, i),
        listed_once(before@, j),
        now@[i].number == before@[j].number,
    ensures
        c.status_changed@.contains(now@[i].number) <==> now@[i].status != before@[j].status,
{
    a_status_is_looked_up(now@, i);
    a_status_is_looked_up(before@, j);
}

/// A PR that only one of two refreshes lists has no changed status, and a section
/// that is switched off has none either.
pub proof fn a_new_pr_is_no_change(
    now: Option<&[PrRow]>,
    before: Option<&[PrRow]>,
    merged: Option<&[MergedRow]>,
    merged_before: Option<&[MergedRow]>,
    t: Tracker,
    prev: Tracker,
    c: Changes,
    n: i64,
)
    requires
        call_ensures(Tracker::build, (now, merged), t),
        call_ensures(Tracker::build, (before, merged_before), prev),
        call_ensures(Tracker::diff, (&t, &prev), c),
        c.status_changed@.contains(n),
    ensures
        now is Some && exists|i: int| 0 <= i < now->0@.len() && (#[trigger] now->0@[i]).number == n,
        before is Some && exists|i: int|
            0 <= i < before->0@.len() && (#[trigger] before->0@[i]).number == n,
{
    a_listed_pr_is_held(t.statuses@, n);
    a_listed_pr_is_held(prev.statuses@, n);
    let i = choose|i: int| 0 <= i < t.statuses@.len() && (#[trigger] t.statuses@[i]).0 == n;
    let j = choose|j: int| 0 <= j < prev.statuses@.len() && (#[trigger] prev.statuses@[j]).0 == n;
    assert(now->0@[i].number == n);
    assert(before->0@[j].number == n);
}

/// The PRs whose status changed are the same in either direction: what changed
/// from one refresh to another changed back from that one to this.
pub proof fn a_status_changes_back(a: Tracker, b: Tracker, there: Changes, back: Changes)
    requires
        call_ensures(Tracker::diff, (&a, &b), there),
        call_ensures(Tracker::diff, (&b, &a), back),
    ensures
        there.status_changed@ == back.status_changed@,
{
    assert forall|n: i64| #[trigger] there.status_changed@.contains(n)
        == back.status_changed@.contains(n) by {
        assert(flipped(a.statuses@, b.statuses@, n) == flipped(b.statuses@, a.statuses@, n));
    }
    assert(there.status_changed@ =~= back.status_changed@);
}

/// A PR is newly merged if and only if it is among the merged PRs of this refresh
/// and was not among those of the one before.
pub proof fn a_pr_merges_once(
    merged: &[MergedRow],
    merged_before: &[MergedRow],
    now: Option<&[PrRow]>,
    before: Option<&[PrRow]>,
    t: Tracker,
    prev: Tracker,
    c: Changes,
    n: i64,
)
    requires
        call_ensures(Tracker::build, (now, Some(merged)), t),
        call_ensures(Tracker::build, (before, Some(merged_before)), prev),
        call_ensures(Tracker::diff, (&t, &prev), c),
    ensures
        c.newly_merged@.contains(n) <==> (exists|i: int|
            0 <= i < merged@.len() && (#[trigger] merged@[i]).number == n) && (forall|i: int|
            0 <= i < merged_before@.len() ==> (#[trigger] merged_before@[i]).number != n),
{
    assert forall|i: int| 0 <= i < merged@.len() implies t.merged@.contains(
        (#[trigger] merged@[i]).number,
    ) by {
        assert(t.merged@[i] == merged@[i].number);
    }
    assert forall|i: int| 0 <= i < merged_before@.len() implies prev.merged@.contains(
        (#[trigger] merged_before@[i]).number,
    ) by {
        assert(prev.merged@[i] == merged_before@[i].number);
    }
    if t.merged@.contains(n) {
        let i = choose|i: int| 0 <= i < t.merged@.len() && t.merged@[i] == n;
        assert(merged@[i].number == n);
    }
    if prev.merged@.contains(n) {
        let i = choose|i: int| 0 <= i < prev.merged@.len() && prev.merged@[i] == n;
        assert(merged_before@[i].number == n);
    }
}

/// The bell rings if and only if the status of some PR changed or some PR merged.
pub proof fn any_change_rings(c: Changes, rings: bool)
    requires
        call_ensures(Changes::any, (&c,), rings),
    ensures
        rings <==> exists|n: i64|
            #![trigger c.status_changed@.contains(n)]
            #![trigger c.newly_merged@.contains(n)]
            c.status_changed@.contains(n) || c.newly_merged@.contains(n),
{
    if rings {
        if !c.status_changed@.is_empty() {
            let n = c.status_changed@.choose();
            assert(c.status_changed@.contains(n));
        } else {
            let n = c.newly_merged@.choose();
            assert(c.newly_merged@.contains(n));
        }
    }
}

} // verus!
