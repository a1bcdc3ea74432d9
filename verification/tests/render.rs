use cpp_proj_gen::build_cmake_local_include_dir;
use cpp_proj_gen::build_cmake_project_name;
use cpp_proj_gen::make_absolute_path;
use cpp_proj_gen::path_is_cmake_lists_file;
use cpp_proj_gen::replace_cmake_vars;
use cpp_proj_gen::replace_str;
use cpp_proj_gen::Opt;

fn widget_opt(name_space: Option<&str>) -> Opt {
    Opt {
        name_space: name_space.map(String::from),
        target_name: String::from("widget"),
        cmake_version: String::from("3.15.0"),
        output_dir: None,
    }
}

#[test]
fn test_replace_str_replaces_every_occurrence() {
    let r = replace_str("a@X@b@X@c", "@X@", "Y");
    assert_eq!(r, "aYbYc");
    assert!(!r.contains("@X@"));
}

#[test]
fn test_replace_str_absent_pattern_is_identity() {
    assert_eq!(replace_str("abc", "@X@", "Y"), "abc");
    assert_eq!(replace_str("", "@X@", "Y"), "");
}

#[test]
fn test_replace_str_empty_pattern_is_identity() {
    assert_eq!(replace_str("abc", "", "Y"), "abc");
}

#[test]
fn test_replace_str_leftmost_non_overlapping() {
    assert_eq!(replace_str("aaa", "aa", "b"), "ba");
    assert_eq!("aaa".replace("aa", "b"), "ba");
}

#[test]
fn test_replace_str_value_can_recreate_pattern() {
    // A value sharing characters with the pattern can recreate it across a
    // replacement boundary; the scan does not revisit such text.
    let r = replace_str("@@Y@@Z", "@Y@", "Y");
    assert_eq!(r, "@Y@Z");
    assert_eq!("@@Y@@Z".replace("@Y@", "Y"), r);
    assert!(r.contains("@Y@"));
}

#[test]
fn test_replace_cmake_vars_applies_pairs_in_order() {
    let vars = vec![
        (String::from("@A@"), String::from("x")),
        (String::from("@B@"), String::from("y")),
    ];
    assert_eq!(replace_cmake_vars("@A@-@B@-@A@", &vars), "x-y-x");
}

#[test]
fn test_replace_cmake_vars_leaves_unknown_placeholders() {
    let vars = vec![(String::from("@A@"), String::from("x"))];
    assert_eq!(replace_cmake_vars("@A@ and @C@", &vars), "x and @C@");
}

#[test]
fn test_make_absolute_path_joining() {
    assert_eq!(
        make_absolute_path(&String::from("out"), &String::from("sub")),
        "out/sub"
    );
    assert_eq!(
        make_absolute_path(&String::from("out/"), &String::from("sub")),
        "out/sub"
    );
    assert_eq!(
        make_absolute_path(&String::from(""), &String::from("sub")),
        "sub"
    );
    assert_eq!(
        make_absolute_path(&String::from("out"), &String::from("/abs")),
        "/abs"
    );
}

#[test]
fn test_project_name_with_namespace() {
    let opt = widget_opt(Some("acme"));
    assert_eq!(build_cmake_project_name(&opt, "-"), "acme-widget");
    assert_eq!(build_cmake_project_name(&opt, "/"), "acme/widget");
}

#[test]
fn test_project_name_without_namespace() {
    let opt = widget_opt(None);
    assert_eq!(build_cmake_project_name(&opt, "-"), "widget");
    assert_eq!(build_cmake_project_name(&opt, "/"), "widget");
}

#[test]
fn test_local_include_dir_composition() {
    let with_ns = widget_opt(Some("acme"));
    assert_eq!(
        build_cmake_local_include_dir(&with_ns, String::from("include")),
        "include/acme/widget"
    );

    let without_ns = widget_opt(None);
    assert_eq!(
        build_cmake_local_include_dir(&without_ns, String::from("include")),
        "include/widget"
    );
}

#[test]
fn test_path_is_cmake_lists_file_classification() {
    assert!(path_is_cmake_lists_file("CMakeLists.txt"));
    assert!(path_is_cmake_lists_file("out/widget/CMakeLists.txt"));
    assert!(!path_is_cmake_lists_file("out/xCMakeLists.txt"));
    assert!(!path_is_cmake_lists_file("CMakeLists.txt/sub"));
    assert!(!path_is_cmake_lists_file("out/widget/source"));
    assert!(!path_is_cmake_lists_file(""));
}
