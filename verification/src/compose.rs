//! Unix-style path joining, e.g. `out/widget` + `include/acme` = `out/widget/include/acme`.
use vstd::prelude::*;
use vstd::string::StrSliceExecFns;
use vstd::string::StringExecFns;
use crate::options::Opt;

verus! {

/// Joins `b` beneath `a`: inserts a `/` separator unless `a` is empty or
/// already ends with one; an absolute `b` replaces `a` entirely.
pub open spec fn path_concat(a: Seq<char>, b: Seq<char>) -> Seq<char> {
    if b.len() > 0 && b[0] == '/' {
        b
    } else if a.len() == 0 {
        b
    } else if a[a.len() - 1] == '/' {
        a + b
    } else {
        a + seq!['/'] + b
    }
}

/// Joins a relative directory path beneath the output root.
pub fn make_absolute_path(out_dir: &String, dir: &String) -> (r: String)
    ensures
        r@ == path_concat(out_dir@, dir@),
{
    let b_len: usize = dir.as_str().unicode_len();
    if b_len > 0 && dir.as_str().get_char(0) == '/' {
        dir.clone()
    } else {
        let a_len: usize = out_dir.as_str().unicode_len();
        if a_len == 0 {
            dir.clone()
        } else {
            let mut r = out_dir.clone();
            if out_dir.as_str().get_char(a_len - 1) != '/' {
                r.append("/");
                proof {
                    reveal_strlit("/");
                    assert(r@ =~= out_dir@ + seq!['/']);
                }
            }
            r.append(dir.as_str());
            proof {
                if out_dir@[out_dir@.len() - 1] == '/' {
                    assert(r@ =~= path_concat(out_dir@, dir@));
                } else {
                    assert(r@ =~= out_dir@ + seq!['/'] + dir@);
                }
            }
            r
        }
    }
}

/// The include subpath placed beneath a registered include directory:
/// `dir/target` when no namespace is present, else `dir/namespace/target`,
/// so that the directory tree mirrors the project's logical namespace.
pub open spec fn local_include_dir(
    name_space: Option<Seq<char>>,
    target_name: Seq<char>,
    dir: Seq<char>,
) -> Seq<char> {
    match name_space {
        None => path_concat(dir, target_name),
        Some(ns) => path_concat(path_concat(dir, ns), target_name),
    }
}

/// With a namespace present, the subpath placed beneath the registered
/// include directory is the `/`-delimited identifier `namespace/target`;
/// with none, it is the target name alone. Stated for names that neither
/// begin nor end with a separator of their own.
pub proof fn lemma_include_subpath(
    name_space: Option<Seq<char>>,
    target_name: Seq<char>,
    dir: Seq<char>,
)
    requires
        target_name.len() > 0,
        target_name[0] != '/',
        name_space is Some ==> {
            let ns = name_space->0;
            ns.len() > 0 && ns[0] != '/' && ns[ns.len() - 1] != '/'
        },
    ensures
        local_include_dir(name_space, target_name, dir) == path_concat(
            dir,
            crate::name::compose_identifier(name_space, target_name, seq!['/']),
        ),
{
    match name_space {
        None => {},
        Some(ns) => {
            let ident = ns + seq!['/'] + target_name;
            assert(ident[0] == ns[0]);
            let first = path_concat(dir, ns);
            assert(first[first.len() - 1] == ns[ns.len() - 1]);
            assert(path_concat(first, target_name) =~= path_concat(dir, ident));
        },
    }
}

/// Appends the namespace-qualified target subpath beneath `dir`, e.g.
/// `include` becomes `include/acme/widget`.
pub fn build_cmake_local_include_dir(opt: &Opt, dir: String) -> (r: String)
    ensures
        r@ == local_include_dir(opt.name_space.deep_view(), opt.target_name@, dir@),
{
    match &opt.name_space {
        None => make_absolute_path(&dir, &opt.target_name),
        Some(ns) => {
            let with_ns = make_absolute_path(&dir, ns);
            make_absolute_path(&with_ns, &opt.target_name)
        },
    }
}

} // verus!
