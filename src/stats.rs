//! Per-pattern statistics: a list of (pattern, count, size) with distinct
//! patterns, kept in order of first match.
use vstd::prelude::*;

verus! {

/// Count and total size of the entries attributed to one pattern.
#[derive(Debug, Clone)]
pub struct PatternStat {
    pub pattern: String,
    pub count: i32,
    pub size: u64,
}

pub open spec fn stat_view(s: PatternStat) -> (Seq<char>, int, int) {
    (s.pattern@, s.count as int, s.size as int)
}

pub open spec fn stat_views(s: Seq<PatternStat>) -> Seq<(Seq<char>, int, int)> {
    s.map_values(|x: PatternStat| stat_view(x))
}

pub open spec fn seq_sum(s: Seq<int>) -> int
    decreases s.len(),
{
    if s.len() == 0 {
        0
    } else {
        seq_sum(s.drop_last()) + s.last()
    }
}

pub open spec fn counts(s: Seq<(Seq<char>, int, int)>) -> Seq<int> {
    s.map_values(|x: (Seq<char>, int, int)| x.1)
}

pub open spec fn sizes(s: Seq<(Seq<char>, int, int)>) -> Seq<int> {
    s.map_values(|x: (Seq<char>, int, int)| x.2)
}

/// No pattern appears twice, and every entry counts at least one item.
pub open spec fn stats_wf(s: Seq<(Seq<char>, int, int)>) -> bool {
    &&& forall|i: int, j: int| 0 <= i < j < s.len() ==> (#[trigger] s[i]).0 != (#[trigger] s[j]).0
    &&& forall|i: int| 0 <= i < s.len() ==> (#[trigger] s[i]).1 >= 1 && s[i].2 >= 0
}

pub open spec fn has_pattern(s: Seq<(Seq<char>, int, int)>, p: Seq<char>) -> bool {
    exists|i: int| 0 <= i < s.len() && (#[trigger] s[i]).0 == p
}

/// The statistics after one more item of the given size is attributed to `p`.
pub open spec fn stat_added(s: Seq<(Seq<char>, int, int)>, p: Seq<char>, size: int) -> Seq<
    (Seq<char>, int, int),
> {
    if has_pattern(s, p) {
        let i = choose|i: int| 0 <= i < s.len() && (#[trigger] s[i]).0 == p;
        s.update(i, (p, s[i].1 + 1, s[i].2 + size))
    } else {
        s.push((p, 1, size))
    }
}

pub proof fn lemma_sum_push(s: Seq<int>, x: int)
    ensures
        seq_sum(s.push(x)) == seq_sum(s) + x,
{
    assert(s.push(x).drop_last() =~= s);
}

pub proof fn lemma_sum_update(s: Seq<int>, i: int, x: int)
    requires
        0 <= i < s.len(),
    ensures
        seq_sum(s.update(i, x)) == seq_sum(s) - s[i] + x,
    decreases s.len(),
{
    if i == s.len() - 1 {
        assert(s.update(i, x).drop_last() =~= s.drop_last());
    } else {
        lemma_sum_update(s.drop_last(), i, x);
        assert(s.update(i, x).drop_last() =~= s.drop_last().update(i, x));
    }
}

pub proof fn lemma_elem_le_sum(s: Seq<int>, i: int)
    requires
        0 <= i < s.len(),
        forall|j: int| 0 <= j < s.len() ==> s[j] >= 0,
    ensures
        s[i] <= seq_sum(s),
    decreases s.len(),
{
    lemma_sum_nonneg(s.drop_last());
    if i < s.len() - 1 {
        lemma_elem_le_sum(s.drop_last(), i);
    }
}

pub proof fn lemma_sum_nonneg(s: Seq<int>)
    requires
        forall|j: int| 0 <= j < s.len() ==> s[j] >= 0,
    ensures
        seq_sum(s) >= 0,
    decreases s.len(),
{
    if s.len() > 0 {
        lemma_sum_nonneg(s.drop_last());
    }
}

/// After attributing one item of the given size, the counts sum to one more
/// and the sizes to `size` more.
pub proof fn lemma_stat_added_sums(s: Seq<(Seq<char>, int, int)>, p: Seq<char>, size: int)
    requires
        stats_wf(s),
        size >= 0,
    ensures
        stats_wf(stat_added(s, p, size)),
        seq_sum(counts(stat_added(s, p, size))) == seq_sum(counts(s)) + 1,
        seq_sum(sizes(stat_added(s, p, size))) == seq_sum(sizes(s)) + size,
{
    let r = stat_added(s, p, size);
    if has_pattern(s, p) {
        let i = choose|i: int| 0 <= i < s.len() && (#[trigger] s[i]).0 == p;
        assert(counts(r) =~= counts(s).update(i, s[i].1 + 1));
        assert(sizes(r) =~= sizes(s).update(i, s[i].2 + size));
        lemma_sum_update(counts(s), i, s[i].1 + 1);
        lemma_sum_update(sizes(s), i, s[i].2 + size);
    } else {
        assert(counts(r) =~= counts(s).push(1));
        assert(sizes(r) =~= sizes(s).push(size));
        lemma_sum_push(counts(s), 1);
        lemma_sum_push(sizes(s), size);
    }
}

/// Attributes one item of the given size to `pattern`.
pub fn add_stat(stats: &mut Vec<PatternStat>, pattern: String, size: u64)
    requires
        stats_wf(stat_views(old(stats)@)),
        seq_sum(counts(stat_views(old(stats)@))) + 1 <= i32::MAX,
        seq_sum(sizes(stat_views(old(stats)@))) + size <= u64::MAX,
    ensures
        stat_views(final(stats)@) == stat_added(stat_views(old(stats)@), pattern@, size as int),
{
    let ghost s = stat_views(stats@);
    let mut i: usize = 0;
    while i < stats.len()
        invariant
            i <= stats@.len(),
            *stats == *old(stats),
            s == stat_views(stats@),
            stats_wf(s),
            seq_sum(counts(s)) + 1 <= i32::MAX,
            seq_sum(sizes(s)) + size <= u64::MAX,
            forall|j: int| 0 <= j < i ==> (#[trigger] s[j]).0 != pattern@,
        decreases stats@.len() - i,
    {
        if stats[i].pattern == pattern {
            proof {
                assert(s[i as int].0 == pattern@);
                assert forall|j: int| 0 <= j < s.len() implies (#[trigger] counts(s)[j]) >= 0
                    && sizes(s)[j] >= 0 by {
                    assert(s[j].1 >= 1);
                }
                lemma_elem_le_sum(counts(s), i as int);
                lemma_elem_le_sum(sizes(s), i as int);
                assert(has_pattern(s, pattern@));
                let k = choose|k: int| 0 <= k < s.len() && (#[trigger] s[k]).0 == pattern@;
                if k != i as int {
                    if k < i as int {
                        assert(s[k].0 != s[i as int].0);
                    } else {
                        assert(s[i as int].0 != s[k].0);
                    }
                }
            }
            let updated = PatternStat {
                pattern,
                count: stats[i].count + 1,
                size: stats[i].size + size,
            };
            stats.set(i, updated);
            assert(stat_views(stats@) =~= stat_added(s, updated.pattern@, size as int));
            return;
        }
        i += 1;
    }
    proof {
        assert(!has_pattern(s, pattern@));
    }
    stats.push(PatternStat { pattern, count: 1, size });
    assert(stat_views(stats@) =~= stat_added(s, pattern@, size as int));
}

} // verus!
