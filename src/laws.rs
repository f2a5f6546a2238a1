//! Properties of whole runs, stated over the model of a walk: the sequence of
//! entries visited, each with the metadata match handling would read.
use crate::entry::{removal_of, Action, Decision, EntryInfo, EntryKind, EntryMeta, Removal};
use crate::glob::{any_match, first_match, views};
use crate::job::{no_totals, CleaningJob, Totals, BROKEN_SYMLINK_TAG};
use crate::path::{lexically_rejected, opt_view, within};
use crate::stats::{counts, seq_sum, stat_views};
use vstd::prelude::*;

verus! {

/// The aggregates after the walk visits one entry: a selected entry goes
/// through match handling, any other leaves them unchanged.
pub open spec fn visit(
    job: CleaningJob,
    base: Seq<char>,
    t: Totals,
    e: (EntryInfo, EntryMeta),
) -> Totals {
    match job.decision(base, e.0) {
        Decision::Selected(p) => job.recorded(t, e.0.path@, p, e.1),
        _ => t,
    }
}

/// The aggregates after the walk visits the entries in order.
pub open spec fn walk(
    job: CleaningJob,
    base: Seq<char>,
    t: Totals,
    es: Seq<(EntryInfo, EntryMeta)>,
) -> Totals
    decreases es.len(),
{
    if es.len() == 0 {
        t
    } else {
        visit(job, base, walk(job, base, t, es.drop_last()), es.last())
    }
}

/// The entries that the walk asks to remove as it goes, in order.
pub open spec fn removed_during(
    job: CleaningJob,
    base: Seq<char>,
    t: Totals,
    es: Seq<(EntryInfo, EntryMeta)>,
) -> Seq<(Seq<char>, EntryKind)>
    decreases es.len(),
{
    if es.len() == 0 {
        Seq::empty()
    } else {
        let before = removed_during(job, base, t, es.drop_last());
        let u = walk(job, base, t, es.drop_last());
        let e = es.last();
        match job.decision(base, e.0) {
            Decision::Selected(p) => if job.action(u, e.1) is DeleteNow {
                before.push((e.0.path@, e.1.kind))
            } else {
                before
            },
            _ => before,
        }
    }
}

/// The two jobs are configured alike but for the dry-run flag.
pub open spec fn differ_only_in_dry_run(a: CleaningJob, b: CleaningJob) -> bool {
    &&& a.path == b.path
    &&& a.patterns == b.patterns
    &&& a.exclude_patterns == b.exclude_patterns
    &&& a.skip_confirmation == b.skip_confirmation
    &&& a.include_symlinks == b.include_symlinks
    &&& a.remove_broken_symlinks == b.remove_broken_symlinks
    &&& a.stats_mode == b.stats_mode
    &&& a.older_than_secs == b.older_than_secs
    &&& a.show_progress == b.show_progress
    &&& a.json_mode == b.json_mode
}

/// The counted parts of two aggregates agree.
pub open spec fn same_counts(x: Totals, y: Totals) -> bool {
    x.counter == y.counter && x.size == y.size && x.stats == y.stats && x.matches == y.matches
}

/// Dry-run equivalence: over the same walk, a dry run and a real run with
/// the same configuration count the same entries, sizes, statistics and
/// match records (and queue the same entries when confirmation is asked
/// for); when confirmation is skipped, the dry run queues exactly the
/// entries that the real run removes as it walks; and a dry run never asks
/// for a removal, during the walk or after it.
pub proof fn lemma_dry_run_equivalence(
    a: CleaningJob,
    b: CleaningJob,
    base: Seq<char>,
    t: Totals,
    es: Seq<(EntryInfo, EntryMeta)>,
)
    requires
        differ_only_in_dry_run(a, b),
    ensures
        same_counts(walk(a, base, t, es), walk(b, base, t, es)),
        !a.skip_confirmation ==> walk(a, base, t, es).targets == walk(b, base, t, es).targets,
        a.dry_run && !b.dry_run && a.skip_confirmation ==> walk(a, base, t, es).targets
            == t.targets + removed_during(b, base, t, es),
        a.dry_run ==> forall|u: Totals, m: EntryMeta| !(#[trigger] a.action(u, m) is DeleteNow),
    decreases es.len(),
{
    if es.len() > 0 {
        lemma_dry_run_equivalence(a, b, base, t, es.drop_last());
        assert(a.decision(base, es.last().0) == b.decision(base, es.last().0));
        if a.dry_run && !b.dry_run && a.skip_confirmation {
            let tb = walk(b, base, t, es.drop_last());
            let before = removed_during(b, base, t, es.drop_last());
            let e = es.last();
            match a.decision(base, e.0) {
                Decision::Selected(p) => {
                    if b.action(tb, e.1) is DeleteNow {
                        assert(t.targets + before.push((e.0.path@, e.1.kind)) =~= (t.targets
                            + before).push((e.0.path@, e.1.kind)));
                    }
                },
                _ => {},
            }
        }
    }
}

/// The statistics sum: in statistics mode, the per-pattern counts of a job
/// add up to its counter, and the per-pattern sizes to its total size.
pub proof fn lemma_stats_sum(job: CleaningJob)
    requires
        job.wf(),
        job.stats_mode,
    ensures
        seq_sum(counts(stat_views(job.stats@))) == job.counter,
        seq_sum(crate::stats::sizes(stat_views(job.stats@))) == job.size,
{
}

/// Only matching entries are selected: a selected entry either matches an
/// inclusion pattern and no exclusion pattern, or is a broken symlink that
/// the job removes.
pub proof fn lemma_only_matching_selected(job: CleaningJob, base: Seq<char>, e: EntryInfo)
    requires
        job.decision(base, e) is Selected,
    ensures
        (any_match(views(job.patterns@), e.path@) && !any_match(
            views(job.exclude_patterns@),
            e.path@,
        )) || (job.remove_broken_symlinks && e.is_symlink && e.broken_link),
{
}

/// Matching files are selected: a regular file (not a link) that an
/// inclusion pattern matches, no exclusion pattern matches, and that lies
/// inside the root is selected and attributed to the first pattern that
/// matches it; match handling then counts it (when old enough) and removes
/// it on its own, at once or in the deletion phase.
pub proof fn lemma_matching_file_selected(
    job: CleaningJob,
    base: Seq<char>,
    e: EntryInfo,
    t: Totals,
    m: EntryMeta,
)
    requires
        !e.is_symlink,
        !lexically_rejected(e.path@),
        any_match(views(job.patterns@), e.path@),
        !any_match(views(job.exclude_patterns@), e.path@),
        match opt_view(e.canonical) {
            Some(c) => within(c, base),
            None => true,
        },
        m.kind == EntryKind::File,
    ensures
        first_match(views(job.patterns@), e.path@) matches Some(p) && job.decision(base, e)
            == Decision::Selected(p),
        job.deletes_eagerly() && !(job.action(t, m) is TooRecent) && !(job.action(
            t,
            m,
        ) is Overflow) ==> job.action(t, m) == Action::DeleteNow(Removal::RemoveFile),
{
    let pats = views(job.patterns@);
    let i = choose|i: int| 0 <= i < pats.len() && crate::glob::glob_matches(#[trigger] pats[i], e.path@);
    assert(any_match(pats, e.path@));
    assert(removal_of(m.kind) == Removal::RemoveFile);
}

/// Exclusion overrides inclusion: an entry that an exclusion pattern
/// matches is never selected, whatever the inclusion patterns (broken
/// symlinks removed as such are not judged by patterns at all).
pub proof fn lemma_exclusion_overrides(job: CleaningJob, base: Seq<char>, e: EntryInfo)
    requires
        any_match(views(job.exclude_patterns@), e.path@),
        !(job.remove_broken_symlinks && e.is_symlink && e.broken_link),
    ensures
        !(job.decision(base, e) is Selected),
{
}

/// Path containment: a selected entry never has a parent-escaping path,
/// and a selected entry that is not a link lies inside the canonical root
/// whenever its canonical form is known.
pub proof fn lemma_selected_within_root(job: CleaningJob, base: Seq<char>, e: EntryInfo)
    requires
        job.decision(base, e) is Selected,
    ensures
        !lexically_rejected(e.path@),
        !e.is_symlink ==> match opt_view(e.canonical) {
            Some(c) => within(c, base),
            None => true,
        },
{
}

/// Broken symlinks: when they are to be removed, a broken symlink with an
/// acceptable path is selected under its own tag, whatever the inclusion
/// and exclusion patterns.
pub proof fn lemma_broken_symlink_selected(job: CleaningJob, base: Seq<char>, e: EntryInfo)
    requires
        job.remove_broken_symlinks,
        e.is_symlink,
        e.broken_link,
        !lexically_rejected(e.path@),
    ensures
        job.decision(base, e) == Decision::Selected(BROKEN_SYMLINK_TAG@),
{
}

/// Idempotence: when every entry of a second walk is one the first walk
/// saw and did not select (everything selected is gone), the second run
/// counts nothing and queues nothing.
pub proof fn lemma_second_run_finds_nothing(
    job: CleaningJob,
    base: Seq<char>,
    first: Seq<(EntryInfo, EntryMeta)>,
    second: Seq<(EntryInfo, EntryMeta)>,
)
    requires
        forall|i: int|
            0 <= i < second.len() ==> first.contains(#[trigger] second[i]) && !(job.decision(
                base,
                second[i].0,
            ) is Selected),
    ensures
        walk(job, base, no_totals(), second) == no_totals(),
    decreases second.len(),
{
    if second.len() > 0 {
        let rest = second.drop_last();
        assert forall|i: int| 0 <= i < rest.len() implies first.contains(#[trigger] rest[i])
            && !(job.decision(base, rest[i].0) is Selected) by {
            assert(rest[i] == second[i]);
        }
        lemma_second_run_finds_nothing(job, base, first, rest);
        assert(second.last() == second[second.len() - 1]);
    }
}

} // verus!
