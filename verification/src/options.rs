//! The configuration a generator is built from.
use vstd::prelude::*;

verus! {

/// Options for one generation run: an optional namespace (e.g. a company
/// name), the target name used for the output root and identifiers, the
/// CMake version written into the build file, and an optional output base
/// directory. When `output_dir` is `None` the output root is the target
/// name alone, a path relative to the process's current directory; a caller
/// that wants the root anchored resolves the current directory itself and
/// passes it as `Some`.
#[derive(Debug)]
pub struct Opt {
    pub name_space: Option<String>,
    pub target_name: String,
    pub cmake_version: String,
    pub output_dir: Option<String>,
}

} // verus!
