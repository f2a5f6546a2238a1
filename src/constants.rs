use vstd::prelude::*;

verus! {

/// The name of the settings file.
pub const SETTINGS_FILENAME: &'static str = ".rclean.toml";

/// Glob patterns of the files and directories removed by default.
pub const PATTERNS: [&'static str; 10] = [
    // directories
    "**/__pycache__",
    "**/.coverage",
    "**/.DS_Store",
    "**/.mypy_cache",
    "**/.pylint_cache",
    "**/.pytest_cache",
    "**/.ruff_cache",
    // files
    "**/.bash_history",
    "**/.python_history",
    "**/pip-log.txt",
];

/// The default patterns, in order.
pub fn get_default_patterns() -> (r: Vec<String>)
    ensures
        r@.len() == PATTERNS@.len(),
        forall|i: int| 0 <= i < r@.len() ==> (#[trigger] r@[i])@ == PATTERNS@[i]@,
{
    let mut r: Vec<String> = Vec::new();
    let mut i: usize = 0;
    while i < PATTERNS.len()
        invariant
            i <= PATTERNS@.len(),
            r@.len() == i,
            forall|j: int| 0 <= j < i ==> (#[trigger] r@[j])@ == PATTERNS@[j]@,
        decreases PATTERNS@.len() - i,
    {
        r.push(String::from_str(PATTERNS[i]));
        i += 1;
    }
    r
}

} // verus!
