//! The cleaning job: its configuration, the run aggregates, the per-entry
//! decisions of the walk and the deletion plan.
use crate::entry::{
    entry_size, old_enough, passes_age_filter, removal_for, removal_of, size_of, Action,
    Decision, Deletion, EntryInfo, EntryKind, EntryMeta, Verdict,
};
use crate::error::{CleanError, FailedDeletion};
use crate::glob::{any_match, compiles, first_match, glob_valid, views, PatternMatcher};
use crate::path::{is_safe, lexically_rejected, lexically_unsafe, opt_view, should_process};
use crate::stats::{
    add_stat, counts, lemma_stat_added_sums, seq_sum, sizes, stat_added, stat_views, stats_wf,
    PatternStat,
};
use vstd::prelude::*;

verus! {

/// The attribution tag of an entry selected as a broken symlink.
pub const BROKEN_SYMLINK_TAG: &'static str = "broken-symlink";

/// The attribution tag used when no inclusion pattern can be named.
pub const UNKNOWN_TAG: &'static str = "unknown";

/// An entry queued for the deletion phase.
#[derive(Debug, Clone)]
pub struct Target {
    pub path: String,
    pub kind: EntryKind,
}

/// A matched entry, as recorded for structured output.
#[derive(Debug, Clone)]
pub struct MatchRecord {
    pub path: String,
    pub size: u64,
    pub pattern: String,
}

/// The totals of a run, for structured output.
#[derive(Debug, Clone)]
pub struct Summary {
    pub total_count: i32,
    pub total_size: u64,
    pub dry_run: bool,
}

/// The compiled inclusion patterns and, when there are any, exclusion patterns.
pub struct Matchers {
    pub inclusion: PatternMatcher,
    pub exclusion: Option<PatternMatcher>,
}

/// The model of the run aggregates.
pub struct Totals {
    pub counter: int,
    pub size: int,
    pub stats: Seq<(Seq<char>, int, int)>,
    pub matches: Seq<(Seq<char>, int, Seq<char>)>,
    pub targets: Seq<(Seq<char>, EntryKind)>,
}

/// Aggregates before any entry has been recorded.
pub open spec fn no_totals() -> Totals {
    Totals {
        counter: 0,
        size: 0,
        stats: Seq::empty(),
        matches: Seq::empty(),
        targets: Seq::empty(),
    }
}

pub open spec fn match_view(m: MatchRecord) -> (Seq<char>, int, Seq<char>) {
    (m.path@, m.size as int, m.pattern@)
}

pub open spec fn target_view(t: Target) -> (Seq<char>, EntryKind) {
    (t.path@, t.kind)
}

pub open spec fn failure_view(f: FailedDeletion) -> (Seq<char>, Seq<char>) {
    (f.path@, f.error@)
}

pub open spec fn failure_views(s: Seq<FailedDeletion>) -> Seq<(Seq<char>, Seq<char>)> {
    s.map_values(|f: FailedDeletion| failure_view(f))
}

/// A cleaning job: the configuration of one run and the aggregates it builds.
#[derive(Debug)]
pub struct CleaningJob {
    pub path: String,
    pub patterns: Vec<String>,
    pub exclude_patterns: Vec<String>,
    pub dry_run: bool,
    pub skip_confirmation: bool,
    pub include_symlinks: bool,
    pub remove_broken_symlinks: bool,
    pub stats_mode: bool,
    pub older_than_secs: Option<u64>,
    pub show_progress: bool,
    /// Record each match for structured output.
    pub json_mode: bool,
    pub targets: Vec<Target>,
    pub size: u64,
    pub counter: i32,
    pub stats: Vec<PatternStat>,
    pub failed_deletions: Vec<FailedDeletion>,
    pub matches: Vec<MatchRecord>,
}

impl Default for CleaningJob {
    /// A dry run on the current directory, with no patterns.
    fn default() -> (r: CleaningJob)
        ensures
            r.wf(),
            r.path@ == seq!['.'],
            r.patterns@.len() == 0,
            r.exclude_patterns@.len() == 0,
            r.dry_run,
            !r.skip_confirmation,
            !r.include_symlinks,
            !r.remove_broken_symlinks,
            !r.stats_mode,
            r.older_than_secs is None,
            !r.show_progress,
            !r.json_mode,
            r.totals() == no_totals(),
            r.failures().len() == 0,
    {
        let path = String::from_str(".");
        proof {
            reveal_strlit(".");
        }
        CleaningJob::new(path, Vec::new(), Vec::new(), true, false, false, false, false, None, false)
    }
}

impl Matchers {
    /// The matchers were compiled from the job's inclusion and exclusion patterns.
    pub open spec fn built_for(&self, job: CleaningJob) -> bool {
        &&& self.inclusion.patterns() == views(job.patterns@)
        &&& match self.exclusion {
            Some(x) => x.patterns() == views(job.exclude_patterns@),
            None => job.exclude_patterns@.len() == 0,
        }
    }
}

impl CleaningJob {
    /// The run aggregates.
    pub open spec fn totals(&self) -> Totals {
        Totals {
            counter: self.counter as int,
            size: self.size as int,
            stats: stat_views(self.stats@),
            matches: self.matches@.map_values(|m: MatchRecord| match_view(m)),
            targets: self.targets@.map_values(|t: Target| target_view(t)),
        }
    }

    pub open spec fn failures(&self) -> Seq<(Seq<char>, Seq<char>)> {
        failure_views(self.failed_deletions@)
    }

    /// The two jobs have the same configuration.
    pub open spec fn same_config(&self, o: CleaningJob) -> bool {
        &&& self.path == o.path
        &&& self.patterns == o.patterns
        &&& self.exclude_patterns == o.exclude_patterns
        &&& self.dry_run == o.dry_run
        &&& self.skip_confirmation == o.skip_confirmation
        &&& self.include_symlinks == o.include_symlinks
        &&& self.remove_broken_symlinks == o.remove_broken_symlinks
        &&& self.stats_mode == o.stats_mode
        &&& self.older_than_secs == o.older_than_secs
        &&& self.show_progress == o.show_progress
        &&& self.json_mode == o.json_mode
    }

    /// The invariant of the aggregates: the counter is not negative, and in
    /// statistics mode the per-pattern counts and sizes sum to the counter
    /// and the total size (without it there are no statistics).
    pub open spec fn wf(&self) -> bool {
        let t = self.totals();
        &&& t.counter >= 0
        &&& stats_wf(t.stats)
        &&& if self.stats_mode {
            seq_sum(counts(t.stats)) == t.counter && seq_sum(sizes(t.stats)) == t.size
        } else {
            t.stats.len() == 0
        }
    }

    /// Matched entries are removed as they are found, not buffered.
    pub open spec fn deletes_eagerly(&self) -> bool {
        self.skip_confirmation && !self.dry_run
    }

    /// The walk's verdict on an entry, in order: the lexical guard; broken
    /// symlinks (when they are to be removed) whatever the patterns; the
    /// inclusion patterns; the exclusion patterns; symlinks when not included;
    /// the full guard; attribution to the first matching inclusion pattern.
    pub open spec fn decision(&self, base: Seq<char>, e: EntryInfo) -> Decision {
        let path = e.path@;
        let pats = views(self.patterns@);
        if lexically_rejected(path) {
            Decision::Unsafe
        } else if self.remove_broken_symlinks && e.is_symlink && e.broken_link {
            Decision::Selected(BROKEN_SYMLINK_TAG@)
        } else if !any_match(pats, path) {
            Decision::NotIncluded
        } else if any_match(views(self.exclude_patterns@), path) {
            Decision::Excluded
        } else if e.is_symlink && !self.include_symlinks {
            Decision::SymlinkSkipped
        } else if !is_safe(path, opt_view(e.canonical), base, e.is_symlink) {
            Decision::Unsafe
        } else {
            Decision::Selected(
                match first_match(pats, path) {
                    Some(p) => p,
                    None => UNKNOWN_TAG@,
                },
            )
        }
    }

    /// The totals can take one more item of the given size.
    pub open spec fn fits(t: Totals, size: int) -> bool {
        t.counter + 1 <= i32::MAX && t.size + size <= u64::MAX
    }

    /// The aggregates after a selected entry is handed to match handling.
    pub open spec fn recorded(
        &self,
        t: Totals,
        path: Seq<char>,
        pattern: Seq<char>,
        meta: EntryMeta,
    ) -> Totals {
        let size = size_of(meta) as int;
        if !old_enough(self.older_than_secs, meta.age_secs) || !Self::fits(t, size) {
            t
        } else {
            Totals {
                counter: t.counter + 1,
                size: t.size + size,
                stats: if self.stats_mode {
                    stat_added(t.stats, pattern, size)
                } else {
                    t.stats
                },
                matches: if self.json_mode {
                    t.matches.push((path, size, pattern))
                } else {
                    t.matches
                },
                targets: if self.deletes_eagerly() {
                    t.targets
                } else {
                    t.targets.push((path, meta.kind))
                },
            }
        }
    }

    /// What match handling asks of the caller for a selected entry.
    pub open spec fn action(&self, t: Totals, meta: EntryMeta) -> Action {
        if !old_enough(self.older_than_secs, meta.age_secs) {
            Action::TooRecent
        } else if !Self::fits(t, size_of(meta) as int) {
            Action::Overflow
        } else if self.deletes_eagerly() {
            Action::DeleteNow(removal_of(meta.kind))
        } else {
            Action::Buffered
        }
    }

    /// A job with the given configuration and empty aggregates.
    pub fn new(
        path: String,
        patterns: Vec<String>,
        exclude_patterns: Vec<String>,
        dry_run: bool,
        skip_confirmation: bool,
        include_symlinks: bool,
        remove_broken_symlinks: bool,
        stats_mode: bool,
        older_than_secs: Option<u64>,
        show_progress: bool,
    ) -> (r: CleaningJob)
        ensures
            r.wf(),
            r.path == path,
            r.patterns == patterns,
            r.exclude_patterns == exclude_patterns,
            r.dry_run == dry_run,
            r.skip_confirmation == skip_confirmation,
            r.include_symlinks == include_symlinks,
            r.remove_broken_symlinks == remove_broken_symlinks,
            r.stats_mode == stats_mode,
            r.older_than_secs == older_than_secs,
            r.show_progress == show_progress,
            !r.json_mode,
            r.totals() == no_totals(),
            r.failures().len() == 0,
    {
        let r = CleaningJob {
            path,
            patterns,
            exclude_patterns,
            dry_run,
            skip_confirmation,
            include_symlinks,
            remove_broken_symlinks,
            stats_mode,
            older_than_secs,
            show_progress,
            json_mode: false,
            targets: Vec::new(),
            size: 0,
            counter: 0,
            stats: Vec::new(),
            failed_deletions: Vec::new(),
            matches: Vec::new(),
        };
        assert(r.totals().stats =~= Seq::empty());
        assert(r.totals().matches =~= Seq::empty());
        assert(r.totals().targets =~= Seq::empty());
        r
    }

    /// Compiles the inclusion patterns and, when there are any, the exclusion
    /// patterns. Fails with a glob error, before anything else is done, when
    /// any pattern of either list is not valid glob syntax.
    pub fn build_globsets(&self) -> (r: Result<Matchers, CleanError>)
        ensures
            r is Ok <==> compiles(views(self.patterns@)) && (self.exclude_patterns@.len() == 0
                || compiles(views(self.exclude_patterns@))),
            (exists|i: int|
                0 <= i < self.patterns@.len() && !glob_valid(#[trigger] self.patterns@[i]@))
                ==> r is Err,
            (exists|i: int|
                0 <= i < self.exclude_patterns@.len() && !glob_valid(
                    #[trigger] self.exclude_patterns@[i]@,
                )) ==> r is Err,
            r matches Ok(m) ==> m.built_for(*self),
            r matches Err(e) ==> e is GlobError,
    {
        proof {
            assert forall|i: int|
                0 <= i < self.patterns@.len() && !glob_valid(
                    #[trigger] self.patterns@[i]@,
                ) implies !compiles(views(self.patterns@)) by {
                assert(views(self.patterns@)[i] == self.patterns@[i]@);
            }
            assert forall|i: int|
                0 <= i < self.exclude_patterns@.len() && !glob_valid(
                    #[trigger] self.exclude_patterns@[i]@,
                ) implies !compiles(views(self.exclude_patterns@)) by {
                assert(views(self.exclude_patterns@)[i] == self.exclude_patterns@[i]@);
            }
        }
        let inclusion = match PatternMatcher::compile(&self.patterns) {
            Ok(m) => m,
            Err(e) => {
                return Err(e);
            },
        };
        if self.exclude_patterns.len() == 0 {
            return Ok(Matchers { inclusion, exclusion: None });
        }
        match PatternMatcher::compile(&self.exclude_patterns) {
            Ok(x) => Ok(Matchers { inclusion, exclusion: Some(x) }),
            Err(e) => Err(e),
        }
    }

    /// The walk's verdict on one entry; `base` is the canonical root.
    pub fn select(&self, matchers: &Matchers, base: &str, entry: &EntryInfo) -> (r: Verdict)
        requires
            matchers.built_for(*self),
        ensures
            r@ == self.decision(base@, *entry),
    {
        let path = entry.path.as_str();
        if lexically_unsafe(path) {
            return Verdict::Unsafe;
        }
        if self.remove_broken_symlinks && entry.is_symlink && entry.broken_link {
            return Verdict::Selected(String::from_str(BROKEN_SYMLINK_TAG));
        }
        if !matchers.inclusion.matches_any(path) {
            return Verdict::NotIncluded;
        }
        match &matchers.exclusion {
            Some(x) => {
                if x.matches_any(path) {
                    return Verdict::Excluded;
                }
            },
            None => {},
        }
        if entry.is_symlink && !self.include_symlinks {
            return Verdict::SymlinkSkipped;
        }
        if !should_process(path, &entry.canonical, base, entry.is_symlink) {
            return Verdict::Unsafe;
        }
        match matchers.inclusion.first_matching_pattern(path) {
            Some(p) => Verdict::Selected(p),
            None => Verdict::Selected(String::from_str(UNKNOWN_TAG)),
        }
    }

    /// Match handling for a selected entry: the age filter, then the running
    /// counter and total size, the statistics (in statistics mode), the
    /// match record (for structured output), and last either immediate
    /// removal or a place in the deletion queue.
    pub fn handle_matched_entry(&mut self, path: String, pattern: String, meta: &EntryMeta) -> (r:
        Action)
        requires
            old(self).wf(),
        ensures
            final(self).wf(),
            final(self).same_config(*old(self)),
            final(self).failed_deletions == old(self).failed_deletions,
            final(self).totals() == old(self).recorded(
                old(self).totals(),
                path@,
                pattern@,
                *meta,
            ),
            r == old(self).action(old(self).totals(), *meta),
    {
        if !passes_age_filter(self.older_than_secs, meta.age_secs) {
            return Action::TooRecent;
        }
        let item_size = entry_size(meta);
        if self.counter == i32::MAX || self.size > u64::MAX - item_size {
            return Action::Overflow;
        }
        let ghost t = self.totals();
        proof {
            if self.stats_mode {
                lemma_stat_added_sums(t.stats, pattern@, item_size as int);
            }
        }
        self.size = self.size + item_size;
        self.counter = self.counter + 1;
        if self.stats_mode {
            add_stat(&mut self.stats, pattern.clone(), item_size);
        }
        if self.json_mode {
            self.matches.push(MatchRecord { path: path.clone(), size: item_size, pattern });
        }
        let eager = self.skip_confirmation && !self.dry_run;
        let r = if eager {
            Action::DeleteNow(removal_for(meta.kind))
        } else {
            self.targets.push(Target { path, kind: meta.kind });
            Action::Buffered
        };
        proof {
            let u = self.totals();
            let e = old(self).recorded(t, path@, pattern@, *meta);
            assert(u.matches =~= e.matches);
            assert(u.targets =~= e.targets);
        }
        r
    }

    /// Records a removal that failed; the batch goes on.
    pub fn record_failure(&mut self, path: String, error: String)
        requires
            old(self).wf(),
        ensures
            final(self).wf(),
            final(self).same_config(*old(self)),
            final(self).totals() == old(self).totals(),
            final(self).failures() == old(self).failures().push((path@, error@)),
    {
        self.failed_deletions.push(FailedDeletion { path, error });
        assert(self.failures() =~= old(self).failures().push((path@, error@)));
    }

    /// The entries queued for the deletion phase.
    pub fn targets(&self) -> (r: &Vec<Target>)
        ensures
            *r == self.targets,
    {
        &self.targets
    }

    /// Whether the user must confirm before the deletion phase: entries are
    /// queued and confirmation is not skipped.
    pub fn needs_confirmation(&self) -> (r: bool)
        ensures
            r == (self.targets@.len() > 0 && !self.skip_confirmation),
    {
        self.targets.len() > 0 && !self.skip_confirmation
    }

    /// The removals of the deletion phase, one for each queued entry in the
    /// order found; none in a dry run.
    pub fn deletion_plan(&self) -> (r: Vec<Deletion>)
        ensures
            self.dry_run ==> r@.len() == 0,
            !self.dry_run ==> r@.len() == self.targets@.len(),
            !self.dry_run ==> forall|i: int|
                0 <= i < r@.len() ==> (#[trigger] r@[i]).path@ == self.targets@[i].path@
                    && r@[i].removal == removal_of(self.targets@[i].kind),
    {
        let mut r: Vec<Deletion> = Vec::new();
        if self.dry_run {
            return r;
        }
        let mut i: usize = 0;
        while i < self.targets.len()
            invariant
                i <= self.targets@.len(),
                r@.len() == i,
                forall|j: int|
                    0 <= j < i ==> (#[trigger] r@[j]).path@ == self.targets@[j].path@
                        && r@[j].removal == removal_of(self.targets@[j].kind),
            decreases self.targets@.len() - i,
        {
            let t = &self.targets[i];
            r.push(Deletion { path: t.path.clone(), removal: removal_for(t.kind) });
            i += 1;
        }
        r
    }

    /// The order in which to show the statistics: their indices, by count,
    /// largest first; equal counts keep the order of first match.
    pub fn stats_by_count(&self) -> (r: Vec<usize>)
        ensures
            r@.len() == self.stats@.len(),
            forall|i: int| 0 <= i < r@.len() ==> (#[trigger] r@[i]) < self.stats@.len(),
            forall|i: int, j: int| 0 <= i < j < r@.len() ==> r@[i] != r@[j],
            forall|i: int, j: int|
                0 <= i < j < r@.len() ==> self.stats@[r@[i] as int].count >= self.stats@[r@[
                    j
                ] as int].count,
    {
        let n = self.stats.len();
        let mut r: Vec<usize> = Vec::new();
        let mut k: usize = 0;
        while k < n
            invariant
                k <= n,
                n == self.stats@.len(),
                r@.len() == k,
                forall|i: int| 0 <= i < r@.len() ==> (#[trigger] r@[i]) < k,
                forall|i: int, j: int| 0 <= i < j < r@.len() ==> r@[i] != r@[j],
                forall|i: int, j: int|
                    0 <= i < j < r@.len() ==> self.stats@[r@[i] as int].count >= self.stats@[r@[
                        j
                    ] as int].count,
            decreases n - k,
        {
            let c = self.stats[k].count;
            let mut p: usize = 0;
            while p < r.len() && self.stats[r[p]].count >= c
                invariant
                    p <= r@.len(),
                    n == self.stats@.len(),
                    forall|i: int| 0 <= i < r@.len() ==> (#[trigger] r@[i]) < k,
                    k < n,
                    c == self.stats@[k as int].count,
                    forall|q: int| 0 <= q < p ==> self.stats@[#[trigger] r@[q] as int].count >= c,
                decreases r@.len() - p,
            {
                p += 1;
            }
            let ghost old_r = r@;
            r.insert(p, k);
            assert forall|i: int, j: int| 0 <= i < j < r@.len() implies self.stats@[r@[
                i
            ] as int].count >= self.stats@[r@[j] as int].count by {
                if j < p {
                    assert(r@[i] == old_r[i] && r@[j] == old_r[j]);
                } else if j == p {
                    assert(r@[i] == old_r[i]);
                } else if i == p {
                    assert(r@[j] == old_r[j - 1]);
                    assert(self.stats@[old_r[p as int] as int].count < c);
                    if j - 1 > p {
                        assert(self.stats@[old_r[p as int] as int].count >= self.stats@[old_r[j
                            - 1] as int].count);
                    }
                } else if i < p {
                    assert(r@[i] == old_r[i] && r@[j] == old_r[j - 1]);
                } else {
                    assert(r@[i] == old_r[i - 1] && r@[j] == old_r[j - 1]);
                }
            }
            assert forall|i: int, j: int| 0 <= i < j < r@.len() implies r@[i] != r@[j] by {
                if i < p {
                    assert(r@[i] == old_r[i]);
                } else if i > p {
                    assert(r@[i] == old_r[i - 1]);
                }
                if j < p {
                    assert(r@[j] == old_r[j]);
                } else if j > p {
                    assert(r@[j] == old_r[j - 1]);
                }
            }
            assert forall|i: int| 0 <= i < r@.len() implies (#[trigger] r@[i]) < k + 1 by {
                if i < p {
                    assert(r@[i] == old_r[i]);
                } else if i > p {
                    assert(r@[i] == old_r[i - 1]);
                }
            }
            k += 1;
        }
        r
    }

    /// Whether the closing summary line is due: something was counted, and
    /// the run is neither a dry run nor producing structured output.
    pub fn reports_summary(&self) -> (r: bool)
        ensures
            r == (!self.dry_run && !self.json_mode && self.counter > 0),
    {
        !self.dry_run && !self.json_mode && self.counter > 0
    }

    /// The totals for structured output.
    pub fn summary(&self) -> (r: Summary)
        ensures
            r.total_count == self.counter,
            r.total_size == self.size,
            r.dry_run == self.dry_run,
    {
        Summary { total_count: self.counter, total_size: self.size, dry_run: self.dry_run }
    }

    /// The result of the run: success when no removal failed, else the
    /// failures, all of them.
    pub fn outcome(&self) -> (r: Result<(), CleanError>)
        ensures
            r is Ok <==> self.failures().len() == 0,
            r matches Err(e) ==> e matches CleanError::DeletionsFailed(list) && failure_views(list@) == self.failures(),
    {
        if self.failed_deletions.len() == 0 {
            return Ok(());
        }
        let mut list: Vec<FailedDeletion> = Vec::new();
        let mut i: usize = 0;
        while i < self.failed_deletions.len()
            invariant
                i <= self.failed_deletions@.len(),
                list@.len() == i,
                failure_views(list@) == self.failures().take(i as int),
            decreases self.failed_deletions@.len() - i,
        {
            let f = &self.failed_deletions[i];
            let copy = FailedDeletion { path: f.path.clone(), error: f.error.clone() };
            list.push(copy);
            i += 1;
            assert(failure_views(list@) =~= self.failures().take(i as int));
        }
        assert(self.failures().take(i as int) =~= self.failures());
        Err(CleanError::DeletionsFailed(list))
    }
}

} // verus!
