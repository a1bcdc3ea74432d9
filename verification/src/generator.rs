//! The project generator: accumulates directories and template variables,
//! and composes the ordered list of paths to materialize.
use vstd::prelude::*;
use vstd::string::StrSliceExecFns;
use vstd::string::StringExecFns;
use crate::compose::build_cmake_local_include_dir;
use crate::compose::local_include_dir;
use crate::compose::make_absolute_path;
use crate::compose::path_concat;
use crate::name::build_cmake_project_name;
use crate::name::compose_identifier;
use crate::options::Opt;
use crate::render::matches_at;
use crate::render::render_vars;
use crate::render::replace_cmake_vars;

verus! {

/// The fixed name of the single generated file.
pub const CMLT_FILE_NAME: &'static str = "CMakeLists.txt";

/// The build-configuration template; each `@...@` token is a placeholder
/// that rendering replaces with the matching variable's value.
pub const CMLT: &'static str = "cmake_minimum_required(VERSION @CMAKE_MINIMUM_VERSION@)\n\nproject(@CMAKE_PROJECT_NAME@ LANGUAGES CXX)\n\nadd_library(@CMAKE_TARGET_NAME@ STATIC)\n\ntarget_sources(@CMAKE_TARGET_NAME@ PRIVATE @SOURCE_DIR@/@CMAKE_TARGET_NAME@.cpp)\n\ntarget_include_directories(@CMAKE_TARGET_NAME@ PUBLIC @INCLUDE_DIR@)\n\ninstall(DIRECTORY @INCLUDE_DIR@/@INCLUDE_DOMAIN_DIR@ DESTINATION @INCLUDE_DIR@)\n";

/// The generator's state: the registered directories in registration
/// order, the relative name of the generated file, the placeholder
/// variables, the options it was built from, and the output root.
#[derive(Debug)]
pub struct CppProjGen {
    pub directories: Vec<String>,
    pub cmake_lists_file: String,
    pub cmake_vars: Vec<(String, String)>,
    pub opt: Opt,
    pub out_dir: String,
}

/// What one generation run materializes: the rendered file contents and
/// the paths to create, in order, the generated file's path last.
#[derive(Debug)]
pub struct GenPlan {
    pub contents: String,
    pub paths: Vec<String>,
}

/// The view of the generated file's relative name.
pub open spec fn cmake_file_name() -> Seq<char> {
    "CMakeLists.txt"@
}

/// The output root: the target name beneath the output base directory, or
/// the target name alone when no base directory is given.
pub open spec fn out_dir_spec(opt: Opt) -> Seq<char> {
    match opt.output_dir {
        Some(parent) => path_concat(parent@, opt.target_name@),
        None => opt.target_name@,
    }
}

/// The four variables every generator starts from: the CMake version, the
/// target name, the `-`-delimited project name and the `/`-delimited
/// include-domain path.
pub open spec fn initial_vars(opt: Opt) -> Seq<(Seq<char>, Seq<char>)> {
    seq![
        ("@CMAKE_MINIMUM_VERSION@"@, opt.cmake_version@),
        ("@CMAKE_TARGET_NAME@"@, opt.target_name@),
        ("@CMAKE_PROJECT_NAME@"@, compose_identifier(opt.name_space.deep_view(), opt.target_name@, "-"@)),
        ("@INCLUDE_DOMAIN_DIR@"@, compose_identifier(opt.name_space.deep_view(), opt.target_name@, "/"@)),
    ]
}

/// Inserting into the variable list: the value of the first pair whose key
/// matches is overwritten; a missing key is appended at the end.
pub open spec fn upsert(
    vars: Seq<(Seq<char>, Seq<char>)>,
    key: Seq<char>,
    value: Seq<char>,
) -> Seq<(Seq<char>, Seq<char>)>
    decreases vars.len(),
{
    if vars.len() == 0 {
        seq![(key, value)]
    } else if vars[0].0 == key {
        seq![(key, value)] + vars.skip(1)
    } else {
        seq![vars[0]] + upsert(vars.skip(1), key, value)
    }
}

/// Every registered directory joined beneath the output root, in
/// registration order, and the generated file's path last.
pub open spec fn all_paths(out: Seq<char>, dirs: Seq<Seq<char>>, file: Seq<char>) -> Seq<
    Seq<char>,
> {
    dirs.map(|i: int, d: Seq<char>| path_concat(out, d)).push(path_concat(out, file))
}

/// A path names the generated file exactly when its final path component
/// is the generated file's name. A registered directory whose last
/// component happens to carry that name is classified as the file too:
/// the name is the only discriminator.
pub open spec fn is_cmake_lists_path(p: Seq<char>) -> bool {
    let m = cmake_file_name().len();
    &&& p.len() >= m
    &&& p.subrange(p.len() - m, p.len() as int) == cmake_file_name()
    &&& (p.len() == m || p[p.len() - m - 1] == '/')
}

proof fn lemma_upsert_found(vars: Seq<(Seq<char>, Seq<char>)>, key: Seq<char>, value: Seq<char>, i: int)
    requires
        0 <= i < vars.len(),
        vars[i].0 == key,
        forall|k: int| 0 <= k < i ==> vars[k].0 != key,
    ensures
        upsert(vars, key, value) == vars.update(i, (key, value)),
    decreases i,
{
    if i == 0 {
        assert(seq![(key, value)] + vars.skip(1) =~= vars.update(0, (key, value)));
    } else {
        lemma_upsert_found(vars.skip(1), key, value, i - 1);
        assert(vars.skip(1)[i - 1] == vars[i]);
        assert(forall|k: int| 0 <= k < i - 1 ==> vars.skip(1)[k] == vars[k + 1]);
        assert(seq![vars[0]] + vars.skip(1).update(i - 1, (key, value)) =~= vars.update(
            i,
            (key, value),
        ));
    }
}

proof fn lemma_upsert_missing(vars: Seq<(Seq<char>, Seq<char>)>, key: Seq<char>, value: Seq<char>)
    requires
        forall|k: int| 0 <= k < vars.len() ==> vars[k].0 != key,
    ensures
        upsert(vars, key, value) == vars.push((key, value)),
    decreases vars.len(),
{
    if vars.len() == 0 {
        assert(seq![(key, value)] =~= vars.push((key, value)));
    } else {
        lemma_upsert_missing(vars.skip(1), key, value);
        assert(forall|k: int| 0 <= k < vars.skip(1).len() ==> vars.skip(1)[k] == vars[k + 1]);
        assert(seq![vars[0]] + vars.skip(1).push((key, value)) =~= vars.push((key, value)));
    }
}

/// Whether two string slices hold the same characters.
fn strs_equal(a: &str, b: &str) -> (r: bool)
    ensures
        r == (a@ == b@),
{
    let n: usize = a.unicode_len();
    let m: usize = b.unicode_len();
    if n != m {
        return false;
    }
    let r = matches_at(a, 0, b);
    proof {
        assert(a@.subrange(0, a@.len() as int) =~= a@);
    }
    r
}

/// Sets `key` to `value` in the variable list: overwrites the first pair
/// with that key, or appends a new pair when the key is absent.
fn insert_var(vars: &mut Vec<(String, String)>, key: String, value: String)
    ensures
        final(vars).deep_view() == upsert(old(vars).deep_view(), key@, value@),
{
    let ghost dv = vars.deep_view();
    let n: usize = vars.len();
    let mut i: usize = 0;
    while i < n
        invariant
            n == vars@.len(),
            i <= n,
            vars@ == old(vars)@,
            dv == vars.deep_view(),
            forall|k: int| 0 <= k < i ==> dv[k].0 != key@,
        decreases n - i,
    {
        if strs_equal(vars[i].0.as_str(), key.as_str()) {
            proof {
                lemma_upsert_found(dv, key@, value@, i as int);
            }
            let ghost key_view = key@;
            let ghost value_view = value@;
            vars[i] = (key, value);
            proof {
                assert(vars.deep_view() =~= dv.update(i as int, (key_view, value_view)));
            }
            return ;
        }
        i += 1;
    }
    proof {
        lemma_upsert_missing(dv, key@, value@);
    }
    let ghost key_view = key@;
    let ghost value_view = value@;
    vars.push((key, value));
    proof {
        assert(vars.deep_view() =~= dv.push((key_view, value_view)));
    }
}

/// The output root for the given options.
fn build_out_dir(opt: &Opt) -> (r: String)
    ensures
        r@ == out_dir_spec(*opt),
{
    match &opt.output_dir {
        Some(parent) => make_absolute_path(parent, &opt.target_name),
        None => opt.target_name.clone(),
    }
}

/// Whether the path's final component is the generated file's name.
pub fn path_is_cmake_lists_file(path: &str) -> (r: bool)
    ensures
        r == is_cmake_lists_path(path@),
{
    let name: &str = "CMakeLists.txt";
    let n: usize = path.unicode_len();
    let m: usize = name.unicode_len();
    if n < m {
        false
    } else if n == m {
        let r = matches_at(path, 0, name);
        proof {
            assert(path@.subrange(0, n as int) == path@.subrange(n - m, n as int));
        }
        r
    } else {
        if path.get_char(n - m - 1) == '/' {
            matches_at(path, n - m, name)
        } else {
            false
        }
    }
}

impl CppProjGen {
    /// Builds a generator from the options: no directories yet, the four
    /// initial variables, and the output root derived from the options.
    pub fn new(opt: Opt) -> (r: CppProjGen)
        ensures
            r.directories@.len() == 0,
            r.cmake_lists_file@ == cmake_file_name(),
            r.cmake_vars.deep_view() == initial_vars(r.opt),
            r.out_dir@ == out_dir_spec(r.opt),
            r.opt == opt,
    {
        let mut vars: Vec<(String, String)> = Vec::new();
        vars.push((String::from_str("@CMAKE_MINIMUM_VERSION@"), opt.cmake_version.clone()));
        vars.push((String::from_str("@CMAKE_TARGET_NAME@"), opt.target_name.clone()));
        vars.push((String::from_str("@CMAKE_PROJECT_NAME@"), build_cmake_project_name(&opt, "-")));
        vars.push((String::from_str("@INCLUDE_DOMAIN_DIR@"), build_cmake_project_name(&opt, "/")));
        let out_dir = build_out_dir(&opt);
        let r = CppProjGen {
            directories: Vec::new(),
            cmake_lists_file: String::from_str(CMLT_FILE_NAME),
            cmake_vars: vars,
            out_dir,
            opt,
        };
        proof {
            assert(r.cmake_vars.deep_view() =~= initial_vars(r.opt));
        }
        r
    }

    /// Registers an include directory: sets the `@INCLUDE_DIR@` variable
    /// to it and appends its namespace-qualified subpath to the directory
    /// list.
    pub fn add_include_dir(self, dir: String) -> (r: CppProjGen)
        ensures
            r.cmake_vars.deep_view() == upsert(
                self.cmake_vars.deep_view(),
                "@INCLUDE_DIR@"@,
                dir@,
            ),
            r.directories.deep_view() == self.directories.deep_view().push(
                local_include_dir(self.opt.name_space.deep_view(), self.opt.target_name@, dir@),
            ),
            r.cmake_lists_file == self.cmake_lists_file,
            r.opt == self.opt,
            r.out_dir == self.out_dir,
    {
        let mut s = self;
        insert_var(&mut s.cmake_vars, String::from_str("@INCLUDE_DIR@"), dir.clone());
        let local_dir = build_cmake_local_include_dir(&s.opt, dir);
        s.add_toplevel_dir(local_dir)
    }

    /// Registers a source directory: sets the `@SOURCE_DIR@` variable to
    /// it and appends it to the directory list.
    pub fn add_source_dir(self, dir: String) -> (r: CppProjGen)
        ensures
            r.cmake_vars.deep_view() == upsert(
                self.cmake_vars.deep_view(),
                "@SOURCE_DIR@"@,
                dir@,
            ),
            r.directories.deep_view() == self.directories.deep_view().push(dir@),
            r.cmake_lists_file == self.cmake_lists_file,
            r.opt == self.opt,
            r.out_dir == self.out_dir,
    {
        let mut s = self;
        insert_var(&mut s.cmake_vars, String::from_str("@SOURCE_DIR@"), dir.clone());
        s.add_toplevel_dir(dir)
    }

    /// Appends a directory to the directory list; variables are untouched.
    pub fn add_toplevel_dir(self, dir: String) -> (r: CppProjGen)
        ensures
            r.cmake_vars == self.cmake_vars,
            r.directories.deep_view() == self.directories.deep_view().push(dir@),
            r.cmake_lists_file == self.cmake_lists_file,
            r.opt == self.opt,
            r.out_dir == self.out_dir,
    {
        let mut s = self;
        let ghost dir_view = dir@;
        s.directories.push(dir);
        proof {
            assert(s.directories.deep_view() =~= self.directories.deep_view().push(dir_view));
        }
        s
    }

    /// Composes the whole plan: the template rendered with the current
    /// variables, and the full path list.
    pub fn gen(&self) -> (plan: GenPlan)
        ensures
            plan.contents@ == render_vars(CMLT@, self.cmake_vars.deep_view()),
            plan.paths.deep_view() == all_paths(
                self.out_dir@,
                self.directories.deep_view(),
                self.cmake_lists_file@,
            ),
    {
        let contents = replace_cmake_vars(CMLT, &self.cmake_vars);
        let paths = self.build_paths();
        GenPlan { contents, paths }
    }

    /// Joins every registered directory, and finally the generated file's
    /// relative name, beneath the output root. The result always holds one
    /// entry per registered directory plus one, and the generated file's
    /// path stands last.
    pub fn build_paths(&self) -> (paths: Vec<String>)
        ensures
            paths.deep_view() == all_paths(
                self.out_dir@,
                self.directories.deep_view(),
                self.cmake_lists_file@,
            ),
            paths.deep_view().len() == self.directories.deep_view().len() + 1,
            paths.deep_view().last() == path_concat(self.out_dir@, self.cmake_lists_file@),
    {
        let ghost dirs = self.directories.deep_view();
        let mut paths: Vec<String> = Vec::new();
        let mut i: usize = 0;
        while i < self.directories.len()
            invariant
                dirs == self.directories.deep_view(),
                dirs.len() == self.directories@.len(),
                i <= self.directories@.len(),
                paths@.len() == i,
                forall|k: int|
                    0 <= k < i ==> paths.deep_view()[k] == path_concat(self.out_dir@, dirs[k]),
            decreases self.directories@.len() - i,
        {
            let p = make_absolute_path(&self.out_dir, &self.directories[i]);
            let ghost p_view = p@;
            let ghost prev = paths.deep_view();
            paths.push(p);
            proof {
                assert(paths.deep_view() =~= prev.push(p_view));
            }
            i += 1;
        }
        let file_path = make_absolute_path(&self.out_dir, &self.cmake_lists_file);
        let ghost file_view = file_path@;
        let ghost prev = paths.deep_view();
        paths.push(file_path);
        proof {
            assert(paths.deep_view() =~= prev.push(file_view));
            let mapped = dirs.map(|k: int, d: Seq<char>| path_concat(self.out_dir@, d));
            assert forall|k: int| 0 <= k < dirs.len() implies mapped[k] == path_concat(
                self.out_dir@,
                dirs[k],
            ) by {}
            assert(paths.deep_view() =~= all_paths(self.out_dir@, dirs, self.cmake_lists_file@));
        }
        paths
    }
}

} // verus!
