//! Scaffolding for a new C++ project: composes the output directory tree
//! and renders the build-configuration file from a fixed template.
mod compose;
mod generator;
mod name;
mod options;
mod render;

pub use generator::all_paths;
pub use generator::cmake_file_name;
pub use generator::initial_vars;
pub use generator::is_cmake_lists_path;
pub use generator::out_dir_spec;
pub use generator::path_is_cmake_lists_file;
pub use generator::upsert;
pub use generator::CppProjGen;
pub use generator::GenPlan;
pub use generator::CMLT;
pub use generator::CMLT_FILE_NAME;

pub use compose::build_cmake_local_include_dir;
pub use compose::lemma_include_subpath;
pub use compose::local_include_dir;
pub use compose::make_absolute_path;
pub use compose::path_concat;
pub use name::build_cmake_project_name;
pub use name::compose_identifier;
pub use options::Opt;
pub use render::disjoint_chars;
pub use render::lemma_render_vars_absent;
pub use render::lemma_render_vars_complete;
pub use render::lemma_render_vars_preserves_absence;
pub use render::lemma_replace_all_absent;
pub use render::lemma_replace_all_complete;
pub use render::lemma_replace_all_preserves_absence;
pub use render::occurs_at;
pub use render::occurs_in;
pub use render::render_vars;
pub use render::replace_all;
pub use render::replace_cmake_vars;
pub use render::replace_str;
