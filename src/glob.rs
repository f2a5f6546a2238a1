//! Compiled glob pattern lists: whether any pattern matches a path, and which
//! pattern is the first, in declaration order, to match it.
use crate::error::CleanError;
use globset::{Glob, GlobSet};
use vstd::prelude::*;

verus! {

#[verifier::external_type_specification]
#[verifier::external_body]
pub struct ExGlob(globset::Glob);

#[verifier::external_type_specification]
#[verifier::external_body]
pub struct ExGlobSet(globset::GlobSet);

// Whether `Glob::new` accepts the pattern (default options).
pub uninterp spec fn glob_valid(pattern: Seq<char>) -> bool;

// The pattern text that a compiled glob was built from.
pub uninterp spec fn glob_text(g: Glob) -> Seq<char>;

// Whether the glob with this pattern text matches the path.
pub uninterp spec fn glob_matches(pattern: Seq<char>, path: Seq<char>) -> bool;

// The pattern texts of a glob set, indexed by sequence number.
pub uninterp spec fn set_globs(s: GlobSet) -> Seq<Seq<char>>;

// Whether `GlobSet::new` succeeds on globs with these pattern texts.
pub uninterp spec fn set_builds(patterns: Seq<Seq<char>>) -> bool;

pub open spec fn texts(globs: Seq<Glob>) -> Seq<Seq<char>> {
    globs.map_values(|g: Glob| glob_text(g))
}

/// Relies on `globset::Glob::new`: it parses the pattern with default options,
/// and the glob it returns keeps that pattern text (`Glob::glob`).
#[verifier::external_body]
fn new_glob(pattern: &str) -> (r: Result<Glob, globset::Error>)
    ensures
        r is Ok <==> glob_valid(pattern@),
        r matches Ok(g) ==> glob_text(g) == pattern@,
{
    Glob::new(pattern)
}

/// Relies on `globset::GlobSet::new`: the sequence number of each glob is its
/// position in the list, and an empty list gives the empty set.
#[verifier::external_body]
fn new_set(globs: &Vec<Glob>) -> (r: Result<GlobSet, globset::Error>)
    ensures
        r is Ok <==> set_builds(texts(globs@)),
        globs@.len() == 0 ==> r is Ok,
        r matches Ok(s) ==> set_globs(s) == texts(globs@),
{
    GlobSet::new(globs.iter())
}

/// Relies on `globset::GlobSet::matches`: the sequence numbers of every glob
/// of the set that matches the path, in ascending order.
#[verifier::external_body]
fn set_matches(set: &GlobSet, path: &str) -> (r: Vec<usize>)
    ensures
        forall|i: int| 0 <= i < r@.len() ==> r@[i] < set_globs(*set).len(),
        forall|i: int, j: int| 0 <= i < j < r@.len() ==> r@[i] < r@[j],
        forall|k: int|
            0 <= k < set_globs(*set).len() ==> (r@.contains(k as usize) <==> glob_matches(
                set_globs(*set)[k],
                path@,
            )),
{
    set.matches(path)
}

/// The character sequences of a list of strings.
pub open spec fn views(v: Seq<String>) -> Seq<Seq<char>> {
    v.map_values(|s: String| s@)
}

/// A pattern list compiles when each pattern is a valid glob and the set of
/// them can be built.
pub open spec fn compiles(patterns: Seq<Seq<char>>) -> bool {
    &&& forall|i: int| 0 <= i < patterns.len() ==> glob_valid(#[trigger] patterns[i])
    &&& set_builds(patterns)
}

pub open spec fn any_match(patterns: Seq<Seq<char>>, path: Seq<char>) -> bool {
    exists|i: int| 0 <= i < patterns.len() && glob_matches(#[trigger] patterns[i], path)
}

/// Pattern `i` matches the path and no earlier pattern does.
pub open spec fn is_first_match(patterns: Seq<Seq<char>>, path: Seq<char>, i: int) -> bool {
    &&& 0 <= i < patterns.len()
    &&& glob_matches(patterns[i], path)
    &&& forall|j: int| 0 <= j < i ==> !glob_matches(#[trigger] patterns[j], path)
}

/// The earliest declared pattern that matches the path, if any.
pub open spec fn first_match(patterns: Seq<Seq<char>>, path: Seq<char>) -> Option<Seq<char>> {
    if any_match(patterns, path) {
        Some(patterns[choose|i: int| is_first_match(patterns, path, i)])
    } else {
        None
    }
}

pub proof fn lemma_first_match(patterns: Seq<Seq<char>>, path: Seq<char>, i: int)
    requires
        is_first_match(patterns, path, i),
    ensures
        first_match(patterns, path) == Some(patterns[i]),
{
    assert(any_match(patterns, path));
    let k = choose|k: int| is_first_match(patterns, path, k);
    assert(is_first_match(patterns, path, k));
    if k < i {
        assert(!glob_matches(patterns[k], path));
    } else if i < k {
        assert(!glob_matches(patterns[i], path));
    }
}

pub proof fn lemma_no_match(patterns: Seq<Seq<char>>, path: Seq<char>)
    requires
        !any_match(patterns, path),
    ensures
        first_match(patterns, path) is None,
{
}

/// An ordered list of glob patterns, compiled into one set.
pub struct PatternMatcher {
    patterns: Vec<String>,
    set: GlobSet,
}

/// Copies a list of strings.
pub fn copy_strings(v: &Vec<String>) -> (r: Vec<String>)
    ensures
        r@ == v@,
{
    let mut r: Vec<String> = Vec::new();
    let mut i: usize = 0;
    while i < v.len()
        invariant
            i <= v@.len(),
            r@ == v@.take(i as int),
        decreases v@.len() - i,
    {
        r.push(v[i].clone());
        i += 1;
        assert(r@ =~= v@.take(i as int));
    }
    assert(v@.take(v@.len() as int) =~= v@);
    r
}

impl PatternMatcher {
    #[verifier::type_invariant]
    spec fn inv(&self) -> bool {
        set_globs(self.set) == views(self.patterns@)
    }

    /// The patterns, in declaration order.
    pub closed spec fn patterns(&self) -> Seq<Seq<char>> {
        views(self.patterns@)
    }

    /// Compiles the patterns; fails with a glob error when any of them is not
    /// valid glob syntax (or the set of them cannot be built).
    pub fn compile(patterns: &Vec<String>) -> (r: Result<PatternMatcher, CleanError>)
        ensures
            r is Ok <==> compiles(views(patterns@)),
            r matches Ok(m) ==> m.patterns() == views(patterns@),
            r matches Err(e) ==> e is GlobError,
    {
        let mut globs: Vec<Glob> = Vec::new();
        let mut i: usize = 0;
        while i < patterns.len()
            invariant
                i <= patterns@.len(),
                globs@.len() == i,
                texts(globs@) == views(patterns@).take(i as int),
                forall|j: int| 0 <= j < i ==> glob_valid(#[trigger] patterns@[j]@),
            decreases patterns@.len() - i,
        {
            match new_glob(patterns[i].as_str()) {
                Ok(g) => {
                    globs.push(g);
                },
                Err(e) => {
                    assert(views(patterns@)[i as int] == patterns@[i as int]@);
                    return Err(CleanError::GlobError(e));
                },
            }
            i += 1;
            assert(texts(globs@) =~= views(patterns@).take(i as int));
        }
        assert(views(patterns@).take(i as int) =~= views(patterns@));
        match new_set(&globs) {
            Ok(set) => {
                let m = PatternMatcher { patterns: copy_strings(patterns), set };
                Ok(m)
            },
            Err(e) => Err(CleanError::GlobError(e)),
        }
    }

    /// Whether any of the patterns matches the path.
    pub fn matches_any(&self, path: &str) -> (r: bool)
        ensures
            r == any_match(self.patterns(), path@),
    {
        proof {
            use_type_invariant(self);
        }
        let found = set_matches(&self.set, path);
        if found.len() > 0 {
            let k = found[0];
            assert(found@.contains(k));
            assert(glob_matches(self.patterns()[k as int], path@));
            true
        } else {
            assert forall|i: int| 0 <= i < self.patterns().len() implies !glob_matches(
                #[trigger] self.patterns()[i],
                path@,
            ) by {
                assert(!found@.contains(i as usize));
            }
            false
        }
    }

    /// The first pattern, in declaration order, that matches the path.
    pub fn first_matching_pattern(&self, path: &str) -> (r: Option<String>)
        ensures
            match r {
                Some(s) => first_match(self.patterns(), path@) == Some(s@),
                None => first_match(self.patterns(), path@) is None,
            },
    {
        proof {
            use_type_invariant(self);
        }
        let found = set_matches(&self.set, path);
        if found.len() > 0 {
            let k = found[0];
            proof {
                assert(found@.contains(k));
                assert forall|j: int| 0 <= j < k implies !glob_matches(
                    #[trigger] self.patterns()[j],
                    path@,
                ) by {
                    if found@.contains(j as usize) {
                        let p = choose|p: int| 0 <= p < found@.len() && found@[p] == j as usize;
                        if p > 0 {
                            assert(found@[0] < found@[p]);
                        }
                    }
                }
                lemma_first_match(self.patterns(), path@, k as int);
            }
            Some(self.patterns[k].clone())
        } else {
            proof {
                assert forall|i: int| 0 <= i < self.patterns().len() implies !glob_matches(
                    #[trigger] self.patterns()[i],
                    path@,
                ) by {
                    assert(!found@.contains(i as usize));
                }
            }
            None
        }
    }
}

} // verus!
