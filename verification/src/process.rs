//! Per-process memory aggregation.
//!
//! The process table is read whole every cycle: records are grouped by
//! process name in first-seen order, memory is summed per name (saturating
//! at `u64::MAX`), the groups are sorted by descending total, and the list
//! is cut to the top K. Ties in total memory keep first-seen order: the
//! sort is a stable insertion sort, stated exactly by `spec_sort_desc`.

use crate::rounding::spec_sat_add_u64;
use vstd::prelude::*;

verus! {

/// One row of the process table: a process name and its resident memory.
pub struct ProcessRecord {
    pub name: String,
    pub memory_bytes: u64,
}

/// One distinct process name with the summed memory of all its processes.
pub struct ProcessAggregate {
    pub name: String,
    pub total_memory_bytes: u64,
}

/// The table as a sequence of (name, memory) pairs.
pub open spec fn records_view(s: Seq<ProcessRecord>) -> Seq<(Seq<char>, int)> {
    s.map_values(|r: ProcessRecord| (r.name@, r.memory_bytes as int))
}

/// The aggregate list as a sequence of (name, total) pairs.
pub open spec fn aggregates_view(s: Seq<ProcessAggregate>) -> Seq<(Seq<char>, int)> {
    s.map_values(|a: ProcessAggregate| (a.name@, a.total_memory_bytes as int))
}

/// No name occurs twice.
pub open spec fn spec_distinct_names(g: Seq<(Seq<char>, int)>) -> bool {
    forall|i: int, j: int| 0 <= i < j < g.len() ==> g[i].0 != g[j].0
}

/// Totals never increase from left to right.
pub open spec fn spec_sorted_desc(s: Seq<(Seq<char>, int)>) -> bool {
    forall|i: int, j: int| 0 <= i < j < s.len() ==> s[i].1 >= s[j].1
}

/// One record folded into the group list: an existing name has the memory
/// added to its total, a new name is appended.
pub open spec fn spec_group_step(g: Seq<(Seq<char>, int)>, rec: (Seq<char>, int)) -> Seq<
    (Seq<char>, int),
> {
    if exists|j: int| 0 <= j < g.len() && g[j].0 == rec.0 {
        let j = choose|j: int| 0 <= j < g.len() && g[j].0 == rec.0;
        g.update(j, (rec.0, spec_sat_add_u64(g[j].1, rec.1)))
    } else {
        g.push(rec)
    }
}

/// The whole table grouped by name, in first-seen order.
pub open spec fn spec_group(s: Seq<(Seq<char>, int)>) -> Seq<(Seq<char>, int)>
    decreases s.len(),
{
    if s.len() == 0 {
        Seq::empty()
    } else {
        spec_group_step(spec_group(s.drop_last()), s.last())
    }
}

/// `x` placed into the descending list `s`, before the first entry whose
/// total does not exceed `x`'s. The sort below inserts earlier entries
/// into the already-sorted later ones, so among equal totals an earlier
/// entry lands in front: first-seen order is kept.
pub open spec fn spec_insert_desc(x: (Seq<char>, int), s: Seq<(Seq<char>, int)>) -> Seq<
    (Seq<char>, int),
>
    decreases s.len(),
{
    if s.len() == 0 {
        seq![x]
    } else if x.1 >= s.first().1 {
        seq![x] + s
    } else {
        seq![s.first()] + spec_insert_desc(x, s.drop_first())
    }
}

/// Stable insertion sort by descending total.
pub open spec fn spec_sort_desc(s: Seq<(Seq<char>, int)>) -> Seq<(Seq<char>, int)>
    decreases s.len(),
{
    if s.len() == 0 {
        s
    } else {
        spec_insert_desc(s.first(), spec_sort_desc(s.drop_first()))
    }
}

/// The first `k` entries, or all of them when there are fewer.
pub open spec fn spec_take_top(s: Seq<(Seq<char>, int)>, k: int) -> Seq<(Seq<char>, int)> {
    if k <= s.len() {
        s.subrange(0, k)
    } else {
        s
    }
}

/// The full aggregation: group by name, sort by descending total with
/// first-seen tie-break, keep the top `k`.
pub open spec fn spec_aggregate(s: Seq<(Seq<char>, int)>, k: int) -> Seq<(Seq<char>, int)> {
    spec_take_top(spec_sort_desc(spec_group(s)), k)
}

/// Some entry carries `n`.
pub open spec fn spec_has_name(s: Seq<(Seq<char>, int)>, n: Seq<char>) -> bool {
    exists|i: int| 0 <= i < s.len() && s[i].0 == n
}

/// Insertion keeps the list sorted, grows it by one, and adds no entry
/// but `x`.
pub proof fn lemma_insert_desc_props(x: (Seq<char>, int), s: Seq<(Seq<char>, int)>)
    requires
        spec_sorted_desc(s),
    ensures
        spec_sorted_desc(spec_insert_desc(x, s)),
        spec_insert_desc(x, s).len() == s.len() + 1,
        forall|t: int|
            0 <= t < spec_insert_desc(x, s).len() ==> (spec_insert_desc(x, s)[t] == x
                || s.contains(spec_insert_desc(x, s)[t])),
    decreases s.len(),
{
    let r = spec_insert_desc(x, s);
    if s.len() == 0 {
    } else if x.1 >= s.first().1 {
    } else {
        let rest = s.drop_first();
        assert(spec_sorted_desc(rest));
        lemma_insert_desc_props(x, rest);
        let inner = spec_insert_desc(x, rest);
        assert(forall|t: int| 0 <= t < inner.len() ==> #[trigger] inner[t].1 <= s.first().1) by {
            assert forall|t: int| 0 <= t < inner.len() implies #[trigger] inner[t].1
                <= s.first().1 by {
                if inner[t] == x {
                } else {
                    let w = choose|w: int| 0 <= w < rest.len() && rest[w] == inner[t];
                    assert(s[w + 1] == rest[w]);
                }
            }
        }
        assert(forall|t: int|
            0 <= t < r.len() ==> (r[t] == x || s.contains(r[t]))) by {
            assert forall|t: int| 0 <= t < r.len() implies (r[t] == x || s.contains(r[t])) by {
                if t == 0 {
                    assert(s.contains(s.first())) by {
                        assert(s[0] == s.first());
                    }
                } else {
                    assert(r[t] == inner[t - 1]);
                    if inner[t - 1] == x {
                    } else {
                        let w = choose|w: int| 0 <= w < rest.len() && rest[w] == inner[t - 1];
                        assert(s[w + 1] == rest[w]);
                    }
                }
            }
        }
    }
}

/// Inserting a fresh name keeps names distinct; the names afterwards are
/// the old ones and `x`'s.
pub proof fn lemma_insert_desc_distinct(x: (Seq<char>, int), s: Seq<(Seq<char>, int)>)
    requires
        spec_distinct_names(s),
        !spec_has_name(s, x.0),
    ensures
        spec_distinct_names(spec_insert_desc(x, s)),
        forall|n: Seq<char>|
            #[trigger] spec_has_name(spec_insert_desc(x, s), n) <==> (n == x.0 || spec_has_name(
                s,
                n,
            )),
    decreases s.len(),
{
    let r = spec_insert_desc(x, s);
    if s.len() == 0 {
        assert(r[0] == x);
        assert forall|n: Seq<char>| #[trigger]
            spec_has_name(r, n) <==> (n == x.0 || spec_has_name(s, n)) by {
            if n == x.0 {
                assert(r[0].0 == n);
            }
        }
    } else if x.1 >= s.first().1 {
        assert(r == seq![x] + s);
        assert forall|i: int, j: int| 0 <= i < j < r.len() implies r[i].0 != r[j].0 by {
            assert(r[j] == s[j - 1]);
            if i == 0 {
                assert(spec_has_name(s, s[j - 1].0));
            } else {
                assert(r[i] == s[i - 1]);
            }
        }
        assert forall|n: Seq<char>| #[trigger]
            spec_has_name(r, n) <==> (n == x.0 || spec_has_name(s, n)) by {
            if spec_has_name(r, n) {
                let i = choose|i: int| 0 <= i < r.len() && r[i].0 == n;
                if i > 0 {
                    assert(s[i - 1].0 == n);
                }
            }
            if n == x.0 {
                assert(r[0].0 == n);
            }
            if spec_has_name(s, n) {
                let i = choose|i: int| 0 <= i < s.len() && s[i].0 == n;
                assert(r[i + 1].0 == n);
            }
        }
    } else {
        let rest = s.drop_first();
        assert(spec_distinct_names(rest)) by {
            assert(forall|i: int, j: int|
                0 <= i < j < rest.len() ==> rest[i] == s[i + 1] && rest[j] == s[j + 1]);
        }
        assert(!spec_has_name(rest, x.0)) by {
            if spec_has_name(rest, x.0) {
                let i = choose|i: int| 0 <= i < rest.len() && rest[i].0 == x.0;
                assert(s[i + 1].0 == x.0);
            }
        }
        lemma_insert_desc_distinct(x, rest);
        let inner = spec_insert_desc(x, rest);
        assert(r == seq![s.first()] + inner);
        assert(!spec_has_name(rest, s.first().0)) by {
            if spec_has_name(rest, s.first().0) {
                let i = choose|i: int| 0 <= i < rest.len() && rest[i].0 == s.first().0;
                assert(s[i + 1].0 == s[0].0);
            }
        }
        assert forall|i: int, j: int| 0 <= i < j < r.len() implies r[i].0 != r[j].0 by {
            assert(r[j] == inner[j - 1]);
            assert(spec_has_name(inner, inner[j - 1].0));
            if i > 0 {
                assert(r[i] == inner[i - 1]);
                assert(spec_has_name(inner, inner[i - 1].0));
            } else {
                if inner[j - 1].0 == s.first().0 {
                    assert(s[0].0 == s.first().0);
                }
            }
        }
        assert forall|n: Seq<char>| #[trigger]
            spec_has_name(r, n) <==> (n == x.0 || spec_has_name(s, n)) by {
            if spec_has_name(r, n) {
                let i = choose|i: int| 0 <= i < r.len() && r[i].0 == n;
                if i == 0 {
                    assert(s[0].0 == n);
                } else {
                    assert(inner[i - 1].0 == n);
                    assert(spec_has_name(inner, n));
                    if n != x.0 {
                        let w = choose|w: int| 0 <= w < rest.len() && rest[w].0 == n;
                        assert(s[w + 1].0 == n);
                    }
                }
            }
            if n == x.0 {
                assert(spec_has_name(inner, n));
                let w = choose|w: int| 0 <= w < inner.len() && inner[w].0 == n;
                assert(r[w + 1].0 == n);
            }
            if spec_has_name(s, n) {
                let i = choose|i: int| 0 <= i < s.len() && s[i].0 == n;
                if i == 0 {
                    assert(r[0].0 == n);
                } else {
                    assert(rest[i - 1].0 == n);
                    assert(spec_has_name(rest, n));
                    assert(spec_has_name(inner, n));
                    let w = choose|w: int| 0 <= w < inner.len() && inner[w].0 == n;
                    assert(r[w + 1].0 == n);
                }
            }
        }
    }
}

/// Sorting a distinct-name list keeps its names distinct.
pub proof fn lemma_sort_desc_distinct(s: Seq<(Seq<char>, int)>)
    requires
        spec_distinct_names(s),
    ensures
        spec_distinct_names(spec_sort_desc(s)),
        forall|n: Seq<char>|
            #[trigger] spec_has_name(spec_sort_desc(s), n) <==> spec_has_name(s, n),
    decreases s.len(),
{
    if s.len() > 0 {
        let rest = s.drop_first();
        assert(spec_distinct_names(rest)) by {
            assert(forall|i: int, j: int|
                0 <= i < j < rest.len() ==> rest[i] == s[i + 1] && rest[j] == s[j + 1]);
        }
        lemma_sort_desc_distinct(rest);
        let sorted = spec_sort_desc(rest);
        assert(!spec_has_name(sorted, s.first().0)) by {
            if spec_has_name(sorted, s.first().0) {
                assert(spec_has_name(rest, s.first().0));
                let i = choose|i: int| 0 <= i < rest.len() && rest[i].0 == s.first().0;
                assert(s[i + 1].0 == s[0].0);
            }
        }
        lemma_insert_desc_distinct(s.first(), sorted);
        assert forall|n: Seq<char>| #[trigger]
            spec_has_name(spec_sort_desc(s), n) <==> spec_has_name(s, n) by {
            if spec_has_name(spec_sort_desc(s), n) {
                if n == s.first().0 {
                    assert(s[0].0 == n);
                } else {
                    assert(spec_has_name(rest, n));
                    let i = choose|i: int| 0 <= i < rest.len() && rest[i].0 == n;
                    assert(s[i + 1].0 == n);
                }
            }
            if spec_has_name(s, n) {
                let i = choose|i: int| 0 <= i < s.len() && s[i].0 == n;
                if i == 0 {
                    assert(n == s.first().0);
                } else {
                    assert(rest[i - 1].0 == n);
                    assert(spec_has_name(rest, n));
                }
            }
        }
    }
}

/// Sorting keeps the length and yields a descending list whose entries
/// all come from the input.
pub proof fn lemma_sort_desc_props(s: Seq<(Seq<char>, int)>)
    ensures
        spec_sorted_desc(spec_sort_desc(s)),
        spec_sort_desc(s).len() == s.len(),
        forall|t: int|
            0 <= t < spec_sort_desc(s).len() ==> s.contains(spec_sort_desc(s)[t]),
    decreases s.len(),
{
    if s.len() > 0 {
        let rest = s.drop_first();
        lemma_sort_desc_props(rest);
        lemma_insert_desc_props(s.first(), spec_sort_desc(rest));
        let r = spec_sort_desc(s);
        assert forall|t: int| 0 <= t < r.len() implies s.contains(r[t]) by {
            if r[t] == s.first() {
                assert(s[0] == s.first());
            } else {
                let w = choose|w: int|
                    0 <= w < spec_sort_desc(rest).len() && spec_sort_desc(rest)[w] == r[t];
                let v = choose|v: int| 0 <= v < rest.len() && rest[v] == r[t];
                assert(s[v + 1] == rest[v]);
            }
        }
    }
}

/// Aggregation is a function of the table and `k` alone: two aggregations
/// of the same input are identical, entry for entry.
pub proof fn lemma_aggregate_deterministic(
    r1: Seq<(Seq<char>, int)>,
    r2: Seq<(Seq<char>, int)>,
    s: Seq<(Seq<char>, int)>,
    k: int,
)
    requires
        r1 == spec_aggregate(s, k),
        r2 == spec_aggregate(s, k),
    ensures
        r1 == r2,
{
}

/// Index of the entry carrying `name`, if any.
fn find_name(groups: &Vec<ProcessAggregate>, name: &String) -> (r: Option<usize>)
    ensures
        match r {
            Some(j) => j < groups@.len() && groups@[j as int].name@ == name@,
            None => forall|t: int| 0 <= t < groups@.len() ==> groups@[t].name@ != name@,
        },
{
    let mut j: usize = 0;
    while j < groups.len()
        invariant
            j <= groups@.len(),
            forall|t: int| 0 <= t < j ==> groups@[t].name@ != name@,
        decreases groups@.len() - j,
    {
        if groups[j].name == *name {
            return Some(j);
        }
        j += 1;
    }
    None
}

/// `x` inserted into the descending list `v` as `spec_insert_desc` says.
fn insert_desc(x: ProcessAggregate, v: Vec<ProcessAggregate>) -> (r: Vec<ProcessAggregate>)
    ensures
        aggregates_view(r@) == spec_insert_desc(
            (x.name@, x.total_memory_bytes as int),
            aggregates_view(v@),
        ),
    decreases v@.len(),
{
    let ghost xv = (x.name@, x.total_memory_bytes as int);
    let ghost vv = aggregates_view(v@);
    if v.len() == 0 {
        let mut r: Vec<ProcessAggregate> = Vec::new();
        r.push(x);
        proof {
            assert(aggregates_view(r@) =~= seq![xv]);
        }
        r
    } else if x.total_memory_bytes >= v[0].total_memory_bytes {
        let mut r = v;
        r.insert(0, x);
        proof {
            assert(aggregates_view(r@) =~= seq![xv] + vv);
        }
        r
    } else {
        let mut v = v;
        let first = v.remove(0);
        let ghost fv = (first.name@, first.total_memory_bytes as int);
        proof {
            assert(aggregates_view(v@) =~= vv.drop_first());
        }
        let inner = insert_desc(x, v);
        let mut r = inner;
        r.insert(0, first);
        proof {
            assert(aggregates_view(r@) =~= seq![fv] + spec_insert_desc(xv, vv.drop_first()));
        }
        r
    }
}

/// `v` sorted by descending total, stably, as `spec_sort_desc` says.
fn sort_desc(v: Vec<ProcessAggregate>) -> (r: Vec<ProcessAggregate>)
    ensures
        aggregates_view(r@) == spec_sort_desc(aggregates_view(v@)),
    decreases v@.len(),
{
    let ghost vv = aggregates_view(v@);
    if v.len() == 0 {
        v
    } else {
        let mut v = v;
        let first = v.remove(0);
        proof {
            assert(aggregates_view(v@) =~= vv.drop_first());
            assert((first.name@, first.total_memory_bytes as int) == vv.first());
        }
        let sorted = sort_desc(v);
        insert_desc(first, sorted)
    }
}

/// Groups live processes by name, sums their memory, and keeps the top-K
/// consumers.
pub struct ProcessAggregator;

impl ProcessAggregator {
    /// The top `k` aggregated memory consumers of the table, descending.
    ///
    /// The result is pinned entry for entry by `spec_aggregate`: grouping
    /// in first-seen order with saturating sums, a stable descending sort,
    /// truncation to `k`.
    pub fn aggregate(records: &Vec<ProcessRecord>, k: usize) -> (r: Vec<ProcessAggregate>)
        ensures
            aggregates_view(r@) == spec_aggregate(records_view(records@), k as int),
            r@.len() <= k,
            forall|i: int, j: int|
                0 <= i < j < r@.len() ==> r@[i].total_memory_bytes >= r@[j].total_memory_bytes,
            forall|i: int, j: int| 0 <= i < j < r@.len() ==> r@[i].name@ != r@[j].name@,
    {
        let ghost rv = records_view(records@);
        let mut groups: Vec<ProcessAggregate> = Vec::new();
        let mut idx: usize = 0;
        while idx < records.len()
            invariant
                idx <= records@.len(),
                rv == records_view(records@),
                aggregates_view(groups@) == spec_group(rv.take(idx as int)),
                spec_distinct_names(aggregates_view(groups@)),
            decreases records@.len() - idx,
        {
            let ghost g = aggregates_view(groups@);
            let ghost rec = rv[idx as int];
            proof {
                assert(rv.take(idx as int + 1).drop_last() =~= rv.take(idx as int));
                assert(rv.take(idx as int + 1).last() == rec);
            }
            let mem = records[idx].memory_bytes;
            match find_name(&groups, &records[idx].name) {
                Some(j) => {
                    let new_total = groups[j].total_memory_bytes.saturating_add(mem);
                    let nm = groups[j].name.clone();
                    groups[j] = ProcessAggregate { name: nm, total_memory_bytes: new_total };
                    proof {
                        assert(g[j as int].0 == rec.0);
                        assert(exists|t: int| 0 <= t < g.len() && g[t].0 == rec.0);
                        let j0 = choose|t: int| 0 <= t < g.len() && g[t].0 == rec.0;
                        if j0 != j as int {
                            assert(false);
                        }
                        assert(aggregates_view(groups@) =~= g.update(
                            j as int,
                            (rec.0, spec_sat_add_u64(g[j as int].1, rec.1)),
                        ));
                        assert(forall|a: int, b: int|
                            0 <= a < b < aggregates_view(groups@).len()
                                ==> aggregates_view(groups@)[a].0 == g[a].0 && aggregates_view(
                                groups@,
                            )[b].0 == g[b].0);
                    }
                },
                None => {
                    let nm = records[idx].name.clone();
                    groups.push(ProcessAggregate { name: nm, total_memory_bytes: mem });
                    proof {
                        assert(aggregates_view(groups@) =~= g.push(rec));
                    }
                },
            }
            idx += 1;
        }
        proof {
            assert(rv.take(rv.len() as int) =~= rv);
            lemma_sort_desc_props(aggregates_view(groups@));
            lemma_sort_desc_distinct(aggregates_view(groups@));
        }
        let mut sorted = sort_desc(groups);
        sorted.truncate(k);
        proof {
            let full = spec_sort_desc(spec_group(rv));
            if k as int <= full.len() {
                assert(aggregates_view(sorted@) =~= full.subrange(0, k as int));
            }
            let sv = aggregates_view(sorted@);
            assert forall|i: int, j: int|
                0 <= i < j < sorted@.len() implies sorted@[i].total_memory_bytes
                >= sorted@[j].total_memory_bytes by {
                assert(sv[i].1 == sorted@[i].total_memory_bytes as int);
                assert(sv[j].1 == sorted@[j].total_memory_bytes as int);
                assert(sv[i].1 >= sv[j].1);
            }
            assert forall|i: int, j: int|
                0 <= i < j < sorted@.len() implies sorted@[i].name@ != sorted@[j].name@ by {
                assert(sv[i].0 == sorted@[i].name@);
                assert(sv[j].0 == sorted@[j].name@);
                assert(sv[i].0 != sv[j].0);
            }
        }
        sorted
    }
}

} // verus!
