//! Deriving project identifiers from the namespace and target name.
use vstd::prelude::*;
use vstd::string::StringExecFns;
use crate::options::Opt;

verus! {

/// The identifier for a namespace/target pair: the target name alone when
/// no namespace is present, else the namespace, the delimiter and the
/// target name, in that order.
pub open spec fn compose_identifier(
    name_space: Option<Seq<char>>,
    target_name: Seq<char>,
    delimiter: Seq<char>,
) -> Seq<char> {
    match name_space {
        None => target_name,
        Some(ns) => ns + delimiter + target_name,
    }
}

/// Builds the project identifier, e.g. `acme-widget` with delimiter `-`,
/// or the include-domain subpath `acme/widget` with delimiter `/`.
pub fn build_cmake_project_name(opt: &Opt, delimiter: &str) -> (r: String)
    ensures
        r@ == compose_identifier(opt.name_space.deep_view(), opt.target_name@, delimiter@),
{
    match &opt.name_space {
        None => opt.target_name.clone(),
        Some(ns) => {
            let mut r = ns.clone();
            r.append(delimiter);
            r.append(opt.target_name.as_str());
            r
        },
    }
}

} // verus!
