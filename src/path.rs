//! The path safety guard: lexical rejection of `.`, `..` and parent-escaping
//! paths, and containment of canonical paths in the canonical root.
//!
//! Paths are `/`-separated; a path's components are its segments between
//! separators, where empty segments and `.` segments after the first are
//! ignored.
use vstd::prelude::*;

verus! {

/// Every component of `s` from position `k` on is a `.` component.
pub open spec fn only_cur_dirs_from(s: Seq<char>, k: int) -> bool {
    forall|i: int|
        k <= i < s.len() && #[trigger] s[i] != '/' ==> s[i] == '.' && s[i - 1] == '/' && (i + 1
            == s.len() || s[i + 1] == '/')
}

/// The path is `.`: its only component is the current directory.
pub open spec fn names_cur_dir(s: Seq<char>) -> bool {
    s.len() >= 1 && s[0] == '.' && only_cur_dirs_from(s, 1)
}

/// The path is `..`: its only component is the parent directory.
pub open spec fn names_parent_dir(s: Seq<char>) -> bool {
    s.len() >= 2 && s[0] == '.' && s[1] == '.' && only_cur_dirs_from(s, 2)
}

/// The first component of the path is `..`.
pub open spec fn starts_with_parent(s: Seq<char>) -> bool {
    s.len() >= 2 && s[0] == '.' && s[1] == '.' && (s.len() == 2 || s[2] == '/')
}

/// Paths rejected before any filesystem call: `.`, `..`, and any path whose
/// first component is `..`.
pub open spec fn lexically_rejected(s: Seq<char>) -> bool {
    names_cur_dir(s) || names_parent_dir(s) || starts_with_parent(s)
}

/// For canonical paths: `path` is `base` or lies below it, component-wise.
pub open spec fn within(path: Seq<char>, base: Seq<char>) -> bool {
    path == base || (base.len() < path.len() && path.take(base.len() as int) == base && ((
    base.len() > 0 && base.last() == '/') || path[base.len() as int] == '/'))
}

/// The guard's verdict on a candidate path, given its canonical form when one
/// could be computed. Symlinks are not judged by their canonical form (it is
/// their target's); a candidate whose canonical form is unknown cannot be
/// checked and is let through.
pub open spec fn is_safe(
    candidate: Seq<char>,
    canonical: Option<Seq<char>>,
    base: Seq<char>,
    is_symlink: bool,
) -> bool {
    &&& !lexically_rejected(candidate)
    &&& (is_symlink || match canonical {
        Some(c) => within(c, base),
        None => true,
    })
}

pub open spec fn opt_view(o: Option<String>) -> Option<Seq<char>> {
    match o {
        Some(s) => Some(s@),
        None => None,
    }
}

fn only_cur_dirs(s: &str, k: usize) -> (r: bool)
    requires
        1 <= k,
    ensures
        r == only_cur_dirs_from(s@, k as int),
{
    let n = s.unicode_len();
    let mut i = k;
    while i < n
        invariant
            1 <= k <= i || n <= i,
            n == s@.len(),
            forall|j: int|
                k <= j < i && j < n && #[trigger] s@[j] != '/' ==> s@[j] == '.' && s@[j - 1]
                    == '/' && (j + 1 == n || s@[j + 1] == '/'),
        decreases n - i,
    {
        let c = s.get_char(i);
        if c != '/' {
            if c != '.' || s.get_char(i - 1) != '/' {
                return false;
            }
            if i + 1 < n && s.get_char(i + 1) != '/' {
                return false;
            }
        }
        i += 1;
    }
    true
}

/// Whether the path is rejected on its text alone.
pub fn lexically_unsafe(s: &str) -> (r: bool)
    ensures
        r == lexically_rejected(s@),
{
    let n = s.unicode_len();
    if n == 0 || s.get_char(0) != '.' {
        return false;
    }
    if only_cur_dirs(s, 1) {
        return true;
    }
    if n >= 2 && s.get_char(1) == '.' {
        if n == 2 || s.get_char(2) == '/' {
            return true;
        }
        return only_cur_dirs(s, 2);
    }
    false
}

/// Whether canonical `path` is `base` or lies below it.
pub fn is_within(path: &str, base: &str) -> (r: bool)
    ensures
        r == within(path@, base@),
{
    let n = path.unicode_len();
    let m = base.unicode_len();
    if m > n {
        return false;
    }
    let mut i: usize = 0;
    while i < m
        invariant
            i <= m <= n,
            n == path@.len(),
            m == base@.len(),
            forall|j: int| 0 <= j < i ==> path@[j] == base@[j],
        decreases m - i,
    {
        if path.get_char(i) != base.get_char(i) {
            assert(path@.take(m as int)[i as int] != base@[i as int]);
            return false;
        }
        i += 1;
    }
    assert(path@.take(m as int) =~= base@);
    if m == n {
        assert(path@ =~= base@);
        return true;
    }
    (m > 0 && base.get_char(m - 1) == '/') || path.get_char(m) == '/'
}

/// The path safety guard: whether the candidate may be acted on, given its
/// canonical form (when one could be computed) and the canonical root.
pub fn should_process(
    candidate: &str,
    canonical: &Option<String>,
    base: &str,
    is_symlink: bool,
) -> (r: bool)
    ensures
        r == is_safe(candidate@, opt_view(*canonical), base@, is_symlink),
{
    if lexically_unsafe(candidate) {
        return false;
    }
    if is_symlink {
        return true;
    }
    match canonical {
        Some(c) => is_within(c.as_str(), base),
        None => true,
    }
}

} // verus!
