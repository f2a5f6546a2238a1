use rclean::entry::{
    entry_size, passes_age_filter, removal_for, Action, EntryInfo, EntryKind, EntryMeta, Removal,
    Verdict,
};
use rclean::error::FailedDeletion;
use rclean::job::{Matchers, BROKEN_SYMLINK_TAG};
use rclean::path::{is_within, lexically_unsafe, should_process};
use rclean::{CleanError, CleaningJob};

const BASE: &str = "/work";

fn strings(v: &[&str]) -> Vec<String> {
    v.iter().map(|s| s.to_string()).collect()
}

fn job(patterns: &[&str], exclude: &[&str], dry_run: bool, skip_confirmation: bool) -> CleaningJob {
    CleaningJob::new(
        BASE.to_string(),
        strings(patterns),
        strings(exclude),
        dry_run,
        skip_confirmation,
        false,
        false,
        false,
        None,
        false,
    )
}

fn entry(path: &str, kind: EntryKind, len: u64, tree_size: u64) -> (EntryInfo, EntryMeta) {
    (
        EntryInfo {
            path: path.to_string(),
            is_symlink: kind == EntryKind::Symlink,
            broken_link: false,
            canonical: Some(path.to_string()),
        },
        EntryMeta { kind, len, tree_size, age_secs: Some(100_000) },
    )
}

/// The tree: a root with three files, a `__pycache__` with two compiled
/// files, and a `subdir` with one.
fn tree() -> Vec<(EntryInfo, EntryMeta)> {
    vec![
        entry("/work", EntryKind::Dir, 4096, 50),
        entry("/work/test.txt", EntryKind::File, 12, 0),
        entry("/work/test.pyc", EntryKind::File, 15, 0),
        entry("/work/important.log", EntryKind::File, 9, 0),
        entry("/work/__pycache__", EntryKind::Dir, 4096, 13),
        entry("/work/__pycache__/module.pyc", EntryKind::File, 6, 0),
        entry("/work/__pycache__/another.pyc", EntryKind::File, 7, 0),
        entry("/work/subdir", EntryKind::Dir, 4096, 10),
        entry("/work/subdir/test.pyc", EntryKind::File, 10, 0),
    ]
}

fn matchers(job: &CleaningJob) -> Matchers {
    match job.build_globsets() {
        Ok(m) => m,
        Err(e) => panic!("patterns should compile: {:?}", e),
    }
}

/// Feeds the entries through the job's decisions as a walk would, skipping
/// what lies under a directory removed during the walk; returns the
/// removals asked for during the walk.
fn run_walk(job: &mut CleaningJob, entries: &[(EntryInfo, EntryMeta)]) -> Vec<(String, Removal)> {
    let m = matchers(job);
    let mut removed: Vec<(String, Removal)> = Vec::new();
    for (info, meta) in entries {
        let gone = removed.iter().any(|(p, r)| {
            *r == Removal::RemoveDirAll && info.path.starts_with(&format!("{}/", p))
        });
        if gone {
            continue;
        }
        if let Verdict::Selected(pattern) = job.select(&m, BASE, info) {
            if let Action::DeleteNow(r) = job.handle_matched_entry(info.path.clone(), pattern, meta)
            {
                removed.push((info.path.clone(), r));
            }
        }
    }
    removed
}

fn removed_paths(removed: &[(String, Removal)]) -> Vec<String> {
    removed.iter().map(|(p, _)| p.clone()).collect()
}

#[test]
fn dry_run_counts_but_removes_nothing() {
    let mut dry = job(&["**/*.pyc"], &[], true, true);
    let removed = run_walk(&mut dry, &tree());
    assert!(removed.is_empty());
    assert_eq!(dry.counter, 4);
    assert_eq!(dry.size, 38);
    assert!(dry.deletion_plan().is_empty());

    let mut real = job(&["**/*.pyc"], &[], false, true);
    let removed = run_walk(&mut real, &tree());
    assert_eq!(removed.len(), 4);
    assert_eq!(real.counter, dry.counter);
    assert_eq!(real.size, dry.size);
    let queued: Vec<String> = dry.targets().iter().map(|t| t.path.clone()).collect();
    assert_eq!(queued, removed_paths(&removed));
}

#[test]
fn matching_files_removed_others_untouched() {
    let mut j = job(&["**/*.pyc"], &[], false, true);
    let removed = run_walk(&mut j, &tree());
    assert_eq!(
        removed_paths(&removed),
        strings(&[
            "/work/test.pyc",
            "/work/__pycache__/module.pyc",
            "/work/__pycache__/another.pyc",
            "/work/subdir/test.pyc",
        ])
    );
    assert!(removed.iter().all(|(_, r)| *r == Removal::RemoveFile));
    assert!(j.outcome().is_ok());
}

#[test]
fn matching_directory_removed_whole() {
    let mut j = job(&["**/__pycache__"], &[], false, true);
    let removed = run_walk(&mut j, &tree());
    assert_eq!(removed, vec![("/work/__pycache__".to_string(), Removal::RemoveDirAll)]);
    assert_eq!(j.counter, 1);
    assert_eq!(j.size, 13);
}

#[test]
fn multiple_patterns_remove_files_and_directories() {
    let mut j = job(&["**/*.pyc", "**/__pycache__"], &[], false, true);
    let removed = run_walk(&mut j, &tree());
    assert_eq!(
        removed_paths(&removed),
        strings(&["/work/test.pyc", "/work/__pycache__", "/work/subdir/test.pyc"])
    );
    assert_eq!(j.counter, 3);
}

#[test]
fn exclusion_overrides_inclusion() {
    let mut j = job(&["**/*.pyc"], &["**/subdir/*.pyc"], false, true);
    let m = matchers(&j);
    let (sub, _) = entry("/work/subdir/test.pyc", EntryKind::File, 10, 0);
    assert_eq!(j.select(&m, BASE, &sub), Verdict::Excluded);
    let removed = run_walk(&mut j, &tree());
    let paths = removed_paths(&removed);
    assert!(paths.contains(&"/work/test.pyc".to_string()));
    assert!(!paths.contains(&"/work/subdir/test.pyc".to_string()));
}

#[test]
fn traversal_outside_root_never_selected() {
    let mut j = job(&["../../*.txt", "**/*.txt"], &[], false, true);
    let m = matchers(&j);
    let outside = EntryInfo {
        path: "../../outside.txt".to_string(),
        is_symlink: false,
        broken_link: false,
        canonical: Some("/outside.txt".to_string()),
    };
    assert_eq!(j.select(&m, BASE, &outside), Verdict::Unsafe);
    let escaping = EntryInfo {
        path: "/work/up/outside.txt".to_string(),
        is_symlink: false,
        broken_link: false,
        canonical: Some("/tmp/outside.txt".to_string()),
    };
    assert_eq!(j.select(&m, BASE, &escaping), Verdict::Unsafe);
    let mut only_up = job(&["../../*.txt"], &[], false, true);
    let removed = run_walk(&mut only_up, &tree());
    assert!(removed.is_empty());
    assert_eq!(only_up.counter, 0);
    assert!(only_up.outcome().is_ok());
    let _ = run_walk(&mut j, &tree());
    assert_eq!(j.counter, 1);
}

#[test]
fn age_filter_boundary_is_inclusive() {
    let mut j = job(&["**/*.pyc"], &[], true, true);
    j.older_than_secs = Some(3600);
    let m = matchers(&j);
    let (info, mut meta) = entry("/work/test.pyc", EntryKind::File, 15, 0);
    meta.age_secs = Some(0);
    let pattern = match j.select(&m, BASE, &info) {
        Verdict::Selected(p) => p,
        other => panic!("unexpected verdict {:?}", other),
    };
    assert_eq!(j.handle_matched_entry(info.path.clone(), pattern.clone(), &meta), Action::TooRecent);
    assert_eq!(j.counter, 0);
    meta.age_secs = Some(7200);
    assert_eq!(j.handle_matched_entry(info.path.clone(), pattern.clone(), &meta), Action::Buffered);
    assert_eq!(j.counter, 1);
    meta.age_secs = Some(3600);
    assert_eq!(j.handle_matched_entry(info.path.clone(), pattern, &meta), Action::Buffered);
    assert_eq!(j.counter, 2);
    assert!(passes_age_filter(Some(3600), None));
    assert!(passes_age_filter(None, Some(0)));
    assert!(!passes_age_filter(Some(3600), Some(3599)));
}

#[test]
fn stats_sum_to_counter() {
    let mut j = job(&["**/*.pyc", "**/__pycache__"], &[], true, true);
    j.stats_mode = true;
    let _ = run_walk(&mut j, &tree());
    assert_eq!(j.counter, 5);
    assert_eq!(j.stats.len(), 2);
    assert_eq!(j.stats[0].pattern, "**/*.pyc");
    assert_eq!(j.stats[0].count, 4);
    assert_eq!(j.stats[0].size, 38);
    assert_eq!(j.stats[1].pattern, "**/__pycache__");
    assert_eq!(j.stats[1].count, 1);
    assert_eq!(j.stats[1].size, 13);
    let total: i32 = j.stats.iter().map(|s| s.count).sum();
    assert_eq!(total, j.counter);
    let total_size: u64 = j.stats.iter().map(|s| s.size).sum();
    assert_eq!(total_size, j.size);
    assert_eq!(j.stats_by_count(), vec![0, 1]);
}

#[test]
fn stats_order_by_count_descending() {
    let mut j = job(&["**/*.txt", "**/*.pyc"], &[], true, true);
    j.stats_mode = true;
    let _ = run_walk(&mut j, &tree());
    assert_eq!(j.stats[0].pattern, "**/*.txt");
    assert_eq!(j.stats[0].count, 1);
    assert_eq!(j.stats[1].count, 4);
    assert_eq!(j.stats_by_count(), vec![1, 0]);
}

#[test]
fn broken_symlink_selected_whatever_the_patterns() {
    let mut j = job(&[], &[], false, true);
    j.remove_broken_symlinks = true;
    let link = EntryInfo {
        path: "/work/link.txt".to_string(),
        is_symlink: true,
        broken_link: true,
        canonical: None,
    };
    let meta = EntryMeta { kind: EntryKind::Symlink, len: 14, tree_size: 0, age_secs: Some(5) };
    let removed = run_walk(&mut j, &[(link.clone(), meta)]);
    assert_eq!(removed, vec![("/work/link.txt".to_string(), Removal::RemoveFile)]);
    assert_eq!(j.counter, 1);
    assert_eq!(j.size, 0);

    let excluded = job(&["**/*.txt"], &["**/*.txt"], false, true);
    let mut excluded = excluded;
    excluded.remove_broken_symlinks = true;
    let m = matchers(&excluded);
    assert_eq!(
        excluded.select(&m, BASE, &link),
        Verdict::Selected(BROKEN_SYMLINK_TAG.to_string())
    );
    excluded.remove_broken_symlinks = false;
    assert_eq!(excluded.select(&m, BASE, &link), Verdict::Excluded);
}

#[test]
fn symlinks_skipped_unless_included() {
    let mut j = job(&["**/*.txt"], &[], true, true);
    let m = matchers(&j);
    let link = EntryInfo {
        path: "/work/link.txt".to_string(),
        is_symlink: true,
        broken_link: false,
        canonical: Some("/elsewhere/target.txt".to_string()),
    };
    assert_eq!(j.select(&m, BASE, &link), Verdict::SymlinkSkipped);
    j.include_symlinks = true;
    assert_eq!(j.select(&m, BASE, &link), Verdict::Selected("**/*.txt".to_string()));
}

#[test]
fn invalid_pattern_fails_before_walk() {
    let j = job(&["[invalid"], &[], false, true);
    assert!(matches!(j.build_globsets(), Err(CleanError::GlobError(_))));
    let k = job(&["**/*.pyc"], &["{a,b"], false, true);
    assert!(matches!(k.build_globsets(), Err(CleanError::GlobError(_))));
}

#[test]
fn second_run_finds_nothing() {
    let mut first = job(&["**/*.pyc", "**/__pycache__"], &[], false, true);
    let removed = run_walk(&mut first, &tree());
    let gone = removed_paths(&removed);
    let survivors: Vec<(EntryInfo, EntryMeta)> = tree()
        .into_iter()
        .filter(|(info, _)| !gone.iter().any(|g| info.path == *g || info.path.starts_with(&format!("{}/", g))))
        .collect();
    let mut second = job(&["**/*.pyc", "**/__pycache__"], &[], false, true);
    let removed = run_walk(&mut second, &survivors);
    assert!(removed.is_empty());
    assert_eq!(second.counter, 0);
    assert_eq!(second.size, 0);
    assert!(second.outcome().is_ok());
}

#[test]
fn buffered_run_plans_every_target() {
    let mut j = job(&["**/*.pyc", "**/__pycache__"], &[], false, false);
    let removed = run_walk(&mut j, &tree());
    assert!(removed.is_empty());
    assert!(j.needs_confirmation());
    let plan = j.deletion_plan();
    assert_eq!(plan.len(), 5);
    assert_eq!(plan[1].path, "/work/__pycache__");
    assert_eq!(plan[1].removal, Removal::RemoveDirAll);
    assert_eq!(plan[0].removal, Removal::RemoveFile);
    assert_eq!(j.targets().len(), 5);
}

#[test]
fn failures_are_collected_not_fatal() {
    let mut j = job(&["**/*.pyc"], &[], false, false);
    let _ = run_walk(&mut j, &tree());
    j.record_failure("/work/test.pyc".to_string(), "permission denied".to_string());
    j.record_failure("/work/subdir/test.pyc".to_string(), "busy".to_string());
    assert_eq!(j.counter, 4);
    match j.outcome() {
        Err(CleanError::DeletionsFailed(list)) => {
            assert_eq!(list.len(), 2);
            assert_eq!(list[0].path, "/work/test.pyc");
            assert_eq!(list[1].error, "busy");
        }
        other => panic!("unexpected outcome {:?}", other),
    }
    let summary = j.summary();
    assert_eq!(summary.total_count, 4);
    assert_eq!(summary.total_size, 38);
    assert!(!summary.dry_run);
    let _: FailedDeletion = j.failed_deletions[0].clone();
}

#[test]
fn json_mode_records_each_match() {
    let mut j = job(&["**/*.pyc"], &[], true, true);
    j.json_mode = true;
    let _ = run_walk(&mut j, &tree());
    assert_eq!(j.matches.len(), 4);
    assert_eq!(j.matches[0].path, "/work/test.pyc");
    assert_eq!(j.matches[0].size, 15);
    assert_eq!(j.matches[0].pattern, "**/*.pyc");
    assert!(!j.reports_summary());
}

#[test]
fn summary_line_only_for_real_runs_with_matches() {
    let mut j = job(&["**/*.pyc"], &[], false, true);
    assert!(!j.reports_summary());
    let _ = run_walk(&mut j, &tree());
    assert!(j.reports_summary());
    let mut d = job(&["**/*.pyc"], &[], true, true);
    let _ = run_walk(&mut d, &tree());
    assert!(!d.reports_summary());
}

#[test]
fn lexical_guard() {
    assert!(lexically_unsafe("."));
    assert!(lexically_unsafe("./"));
    assert!(lexically_unsafe(".//."));
    assert!(lexically_unsafe(".."));
    assert!(lexically_unsafe("../x"));
    assert!(lexically_unsafe("../../*.txt"));
    assert!(!lexically_unsafe("./a"));
    assert!(!lexically_unsafe("..a"));
    assert!(!lexically_unsafe("./.."));
    assert!(!lexically_unsafe("/work/.."));
    assert!(!lexically_unsafe(""));
}

#[test]
fn containment_guard() {
    assert!(is_within("/work", "/work"));
    assert!(is_within("/work/a/b", "/work"));
    assert!(!is_within("/workshop/a", "/work"));
    assert!(!is_within("/tmp", "/work"));
    assert!(is_within("/tmp", "/"));
    assert!(should_process("/work/x", &Some("/tmp/x".to_string()), "/work", true));
    assert!(!should_process("/work/x", &Some("/tmp/x".to_string()), "/work", false));
    assert!(should_process("/work/x", &None, "/work", false));
    assert!(!should_process("..", &None, "/work", true));
}

#[test]
fn removal_policy_and_sizes() {
    assert_eq!(removal_for(EntryKind::Dir), Removal::RemoveDirAll);
    assert_eq!(removal_for(EntryKind::File), Removal::RemoveFile);
    assert_eq!(removal_for(EntryKind::Symlink), Removal::RemoveFile);
    assert_eq!(removal_for(EntryKind::Other), Removal::Skip);
    let meta = |kind| EntryMeta { kind, len: 5, tree_size: 70, age_secs: None };
    assert_eq!(entry_size(&meta(EntryKind::File)), 5);
    assert_eq!(entry_size(&meta(EntryKind::Dir)), 70);
    assert_eq!(entry_size(&meta(EntryKind::Symlink)), 0);
    assert_eq!(entry_size(&meta(EntryKind::Other)), 0);
}

#[test]
fn default_job_is_a_dry_run_here() {
    let j = CleaningJob::default();
    assert_eq!(j.path, ".");
    assert!(j.dry_run);
    assert!(j.patterns.is_empty());
    assert_eq!(j.counter, 0);
}

#[test]
fn error_conversions() {
    let io = std::io::Error::new(std::io::ErrorKind::Other, "boom");
    assert!(matches!(CleanError::from(io), CleanError::IoError(_)));
    let bad = globset::Glob::new("[x").err().expect("invalid glob");
    assert!(matches!(CleanError::from(bad), CleanError::GlobError(_)));
}
