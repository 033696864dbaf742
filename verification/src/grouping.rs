//! Samples of power grouped into spans of five minutes.

use vstd::prelude::*;
use crate::production::ProductionValues;
use crate::time::truncated;

verus! {

/// Length of a group, in seconds.
pub const GROUP_SECONDS: u64 = 300;

/// Start of the group that holds `t`.
pub open spec fn group_of(t: u64) -> int {
    truncated(t as int, GROUP_SECONDS as int)
}

/// Sum of the power of those of the first `n` samples that fall in the
/// group that starts at `key`.
pub open spec fn group_sum(data: Seq<ProductionValues>, n: int, key: int) -> int
    decreases n,
{
    if n <= 0 {
        0
    } else if group_of(data[n - 1].valid_time) == key {
        group_sum(data, n - 1, key) + data[n - 1].power
    } else {
        group_sum(data, n - 1, key)
    }
}

/// Number of those of the first `n` samples that fall in the group that
/// starts at `key`.
pub open spec fn group_count(data: Seq<ProductionValues>, n: int, key: int) -> int
    decreases n,
{
    if n <= 0 {
        0
    } else if group_of(data[n - 1].valid_time) == key {
        group_count(data, n - 1, key) + 1
    } else {
        group_count(data, n - 1, key)
    }
}

/// A group while it is filled.
#[derive(Clone, Copy, Debug)]
pub struct Group {
    pub time: u64,
    pub sum: u128,
    pub count: u64,
}

/// There is a group that starts at `key`.
pub open spec fn has_group(groups: Seq<Group>, key: int) -> bool {
    exists|i: int| 0 <= i < groups.len() && (#[trigger] groups[i]).time == key
}

/// There is a value stamped with `key`.
pub open spec fn has_value(r: Seq<ProductionValues>, key: int) -> bool {
    exists|i: int| 0 <= i < r.len() && (#[trigger] r[i]).valid_time == key
}

/// The groups are in order of time, each holds the sum and the number of
/// the samples among the first `n` that fall into it, which is at least
/// one, and there is a group for each of these samples.
pub open spec fn groups_hold(groups: Seq<Group>, data: Seq<ProductionValues>, n: int) -> bool {
    &&& forall|i: int, j: int|
        0 <= i < j < groups.len() ==> (#[trigger] groups[i]).time < (#[trigger] groups[j]).time
    &&& forall|i: int|
        0 <= i < groups.len() ==> {
            &&& (#[trigger] groups[i]).count >= 1
            &&& groups[i].count == group_count(data, n, groups[i].time as int)
            &&& groups[i].sum == group_sum(data, n, groups[i].time as int)
        }
    &&& forall|k: int|
        0 <= k < n ==> has_group(groups, group_of((#[trigger] data[k]).valid_time))
}

/// `r` holds the samples grouped: one value for each span of five minutes
/// into which a sample falls, the mean of the samples that fall into it,
/// rounded down, stamped with the start of the span; in order of time.
pub open spec fn grouped(data: Seq<ProductionValues>, r: Seq<ProductionValues>) -> bool {
    let n = data.len() as int;
    &&& forall|i: int, j: int|
        0 <= i < j < r.len() ==> (#[trigger] r[i]).valid_time < (#[trigger] r[j]).valid_time
    &&& forall|i: int|
        0 <= i < r.len() ==> {
            &&& group_count(data, n, (#[trigger] r[i]).valid_time as int) >= 1
            &&& r[i].power == group_sum(data, n, r[i].valid_time as int) / group_count(
                data,
                n,
                r[i].valid_time as int,
            )
        }
    &&& forall|k: int| 0 <= k < n ==> has_value(r, group_of((#[trigger] data[k]).valid_time))
}

/// A group holds no more samples than there are, and its sum is no more
/// than as many times the greatest value.
proof fn lemma_group_bounds(data: Seq<ProductionValues>, n: int, key: int)
    requires
        0 <= n <= data.len(),
    ensures
        0 <= group_count(data, n, key) <= n,
        0 <= group_sum(data, n, key) <= group_count(data, n, key) * u64::MAX,
    decreases n,
{
    if n > 0 {
        lemma_group_bounds(data, n - 1, key);
        let c = group_count(data, n - 1, key);
        assert((c + 1) * u64::MAX == c * u64::MAX + u64::MAX) by (nonlinear_arith);
    }
}

/// Finds the place of the group that starts at `key`: the first group that
/// starts no earlier.
fn find_place(groups: &Vec<Group>, key: u64) -> (p: usize)
    requires
        forall|i: int, j: int|
            0 <= i < j < groups@.len() ==> (#[trigger] groups@[i]).time < (
            #[trigger] groups@[j]).time,
    ensures
        p <= groups@.len(),
        forall|i: int| 0 <= i < p ==> (#[trigger] groups@[i]).time < key,
        forall|i: int| p <= i < groups@.len() ==> (#[trigger] groups@[i]).time >= key,
{
    let n = groups.len();
    let mut p: usize = 0;
    while p < n && groups[p].time < key
        invariant
            n == groups@.len(),
            p <= n,
            forall|i: int, j: int|
                0 <= i < j < groups@.len() ==> (#[trigger] groups@[i]).time < (
                #[trigger] groups@[j]).time,
            forall|i: int| 0 <= i < p ==> (#[trigger] groups@[i]).time < key,
        decreases n - p,
    {
        p += 1;
    }
    p
}

/// Takes one sample into the groups.
fn take_in(groups: &mut Vec<Group>, data: &Vec<ProductionValues>, n: usize)
    requires
        n < data@.len(),
        groups_hold(old(groups)@, data@, n as int),
    ensures
        groups_hold(final(groups)@, data@, n + 1),
{
    let d = data[n];
    let key: u64 = d.valid_time - d.valid_time % GROUP_SECONDS;
    let ghost before = groups@;
    let p = find_place(groups, key);
    proof {
        lemma_group_bounds(data@, n as int, key as int);
    }
    if p < groups.len() && groups[p].time == key {
        let g = groups[p];
        assert(before[p as int].count == group_count(data@, n as int, key as int));
        assert(before[p as int].sum == group_sum(data@, n as int, key as int));
        assert(g.sum + d.power <= (g.count + 1) * u64::MAX) by (nonlinear_arith)
            requires
                g.sum <= g.count * u64::MAX,
                d.power <= u64::MAX,
        ;
        let len = data.len();
        assert(g.count <= n < len <= usize::MAX <= u64::MAX);
        groups.set(p, Group { time: key, sum: g.sum + d.power as u128, count: g.count + 1 });
        proof {
            let after = groups@;
            assert forall|i: int| 0 <= i < after.len() implies {
                &&& (#[trigger] after[i]).count >= 1
                &&& after[i].count == group_count(data@, n + 1, after[i].time as int)
                &&& after[i].sum == group_sum(data@, n + 1, after[i].time as int)
            } by {
                if i != p {
                    assert(after[i] == before[i]);
                    if i < p {
                        assert(before[i].time < key);
                    } else {
                        assert(before[p as int].time < before[i].time);
                    }
                }
            }
            assert forall|i: int, j: int| 0 <= i < j < after.len() implies (
            #[trigger] after[i]).time < (#[trigger] after[j]).time by {
                assert(after[i].time == before[i].time);
                assert(after[j].time == before[j].time);
            }
            assert forall|k: int| 0 <= k < n + 1 implies has_group(
                after,
                group_of((#[trigger] data@[k]).valid_time),
            ) by {
                if k < n {
                    assert(has_group(before, group_of(data@[k].valid_time)));
                    let i = choose|i: int|
                        0 <= i < before.len() && (#[trigger] before[i]).time == group_of(
                            data@[k].valid_time,
                        );
                    assert(after[i].time == before[i].time);
                } else {
                    assert(after[p as int].time == key);
                }
            }
        }
    } else {
        groups.insert(p, Group { time: key, sum: d.power as u128, count: 1 });
        proof {
            let after = groups@;
            assert(after == before.insert(p as int, Group { time: key, sum: d.power as u128, count: 1 }));
            assert forall|i: int| 0 <= i < after.len() implies {
                &&& (#[trigger] after[i]).count >= 1
                &&& after[i].count == group_count(data@, n + 1, after[i].time as int)
                &&& after[i].sum == group_sum(data@, n + 1, after[i].time as int)
            } by {
                if i < p {
                    assert(after[i] == before[i]);
                    assert(before[i].time < key);
                } else if i > p {
                    assert(after[i] == before[i - 1]);
                    assert(before[i - 1].time >= key);
                    assert(before[i - 1].time != key);
                } else {
                    lemma_group_absent(data@, n as int, key as int, before);
                }
            }
            assert forall|i: int, j: int| 0 <= i < j < after.len() implies (
            #[trigger] after[i]).time < (#[trigger] after[j]).time by {
                if j < p {
                    assert(after[i] == before[i]);
                    assert(after[j] == before[j]);
                } else if j == p {
                    assert(after[i] == before[i]);
                } else if i < p {
                    assert(after[i] == before[i]);
                    assert(after[j] == before[j - 1]);
                } else if i == p {
                    assert(after[j] == before[j - 1]);
                    assert(before[j - 1].time >= key);
                    assert(before[j - 1].time != key);
                } else {
                    assert(after[i] == before[i - 1]);
                    assert(after[j] == before[j - 1]);
                }
            }
            assert forall|k: int| 0 <= k < n + 1 implies has_group(
                after,
                group_of((#[trigger] data@[k]).valid_time),
            ) by {
                if k < n {
                    assert(has_group(before, group_of(data@[k].valid_time)));
                    let i = choose|i: int|
                        0 <= i < before.len() && (#[trigger] before[i]).time == group_of(
                            data@[k].valid_time,
                        );
                    if i < p {
                        assert(after[i] == before[i]);
                    } else {
                        assert(after[i + 1] == before[i]);
                    }
                } else {
                    assert(after[p as int].time == key);
                }
            }
        }
    }
}

/// No sample among the first `n` falls into a group for which there is no
/// entry among the groups that hold these samples.
proof fn lemma_group_absent(data: Seq<ProductionValues>, n: int, key: int, groups: Seq<Group>)
    requires
        groups_hold(groups, data, n),
        0 <= n <= data.len(),
        forall|i: int| 0 <= i < groups.len() ==> (#[trigger] groups[i]).time != key,
    ensures
        group_count(data, n, key) == 0,
        group_sum(data, n, key) == 0,
    decreases n,
{
    lemma_group_absent_upto(data, n, n, key, groups);
}

/// As [`lemma_group_absent`], for the first `m` of the `n` samples.
proof fn lemma_group_absent_upto(
    data: Seq<ProductionValues>,
    n: int,
    m: int,
    key: int,
    groups: Seq<Group>,
)
    requires
        groups_hold(groups, data, n),
        0 <= m <= n <= data.len(),
        forall|i: int| 0 <= i < groups.len() ==> (#[trigger] groups[i]).time != key,
    ensures
        group_count(data, m, key) == 0,
        group_sum(data, m, key) == 0,
    decreases m,
{
    if m > 0 {
        assert(has_group(groups, group_of(data[m - 1].valid_time)));
        lemma_group_absent_upto(data, n, m - 1, key, groups);
    }
}

/// Returns the samples grouped by every five minutes: the mean of each
/// group, in order of time.
pub fn group_on_time(data: &Vec<ProductionValues>) -> (r: Vec<ProductionValues>)
    ensures
        grouped(data@, r@),
{
    let mut groups: Vec<Group> = Vec::new();
    let n = data.len();
    let mut k: usize = 0;
    while k < n
        invariant
            n == data@.len(),
            k <= n,
            groups_hold(groups@, data@, k as int),
        decreases n - k,
    {
        take_in(&mut groups, data, k);
        k += 1;
    }
    let mut r: Vec<ProductionValues> = Vec::new();
    let m = groups.len();
    let mut i: usize = 0;
    while i < m
        invariant
            n == data@.len(),
            m == groups@.len(),
            i <= m,
            r@.len() == i,
            groups_hold(groups@, data@, n as int),
            forall|j: int|
                0 <= j < i ==> (#[trigger] r@[j]).valid_time == groups@[j].time && r@[j].power
                    == groups@[j].sum / (groups@[j].count as u128),
        decreases m - i,
    {
        let g = groups[i];
        proof {
            lemma_group_bounds(data@, n as int, g.time as int);
            assert(groups@[i as int].count >= 1);
            assert(g.sum as int / g.count as int <= u64::MAX) by (nonlinear_arith)
                requires
                    0 <= g.sum <= g.count * u64::MAX,
                    g.count >= 1,
            ;
        }
        r.push(ProductionValues { valid_time: g.time, power: (g.sum / (g.count as u128)) as u64 });
        i += 1;
    }
    proof {
        assert forall|a: int, b: int| 0 <= a < b < r@.len() implies (#[trigger] r@[a]).valid_time < (
        #[trigger] r@[b]).valid_time by {
            assert(groups@[a].time < groups@[b].time);
        }
        assert forall|j: int| 0 <= j < r@.len() implies {
            &&& group_count(data@, n as int, (#[trigger] r@[j]).valid_time as int) >= 1
            &&& r@[j].power == group_sum(data@, n as int, r@[j].valid_time as int) / group_count(
                data@,
                n as int,
                r@[j].valid_time as int,
            )
        } by {
            assert(groups@[j].count >= 1);
        }
        assert forall|q: int| 0 <= q < n implies has_value(
            r@,
            group_of((#[trigger] data@[q]).valid_time),
        ) by {
            assert(has_group(groups@, group_of(data@[q].valid_time)));
            let j = choose|j: int|
                0 <= j < groups@.len() && (#[trigger] groups@[j]).time == group_of(
                    data@[q].valid_time,
                );
            assert(r@[j].valid_time == groups@[j].time);
        }
    }
    r
}

} // verus!
