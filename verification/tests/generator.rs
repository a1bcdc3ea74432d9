use cpp_proj_gen::replace_cmake_vars;
use cpp_proj_gen::CppProjGen;
use cpp_proj_gen::Opt;
use cpp_proj_gen::CMLT;

fn create_test_opt() -> Opt {
    let opt = Opt {
        name_space: Some(String::from("nmspc")),
        target_name: String::from("tgtnm"),
        cmake_version: String::from("1.23.4"),
        output_dir: Some(String::from("test_out_dir")),
    };

    opt
}

#[test]
fn test_path_vec_len() {
    let opt = create_test_opt();

    let cpp_proj_gen = CppProjGen::new(opt)
        .add_include_dir(String::from("include"))
        .add_toplevel_dir(String::from("test"))
        .add_source_dir(String::from("source"));

    let paths = cpp_proj_gen.build_paths();
    assert_eq!(paths.len(), 4);
}

#[test]
fn test_path_vec_items() {
    let opt = create_test_opt();

    let cpp_proj_gen = CppProjGen::new(opt)
        .add_include_dir(String::from("include"))
        .add_toplevel_dir(String::from("test"))
        .add_source_dir(String::from("source"));

    let paths = cpp_proj_gen.build_paths();

    assert_eq!(
        paths.contains(&String::from("test_out_dir/tgtnm/include/nmspc/tgtnm")),
        true
    );

    assert_eq!(paths.contains(&String::from("test_out_dir/tgtnm/test")), true);

    assert_eq!(paths.contains(&String::from("test_out_dir/tgtnm/source")), true);

    assert_eq!(
        paths.contains(&String::from("test_out_dir/tgtnm/CMakeLists.txt")),
        true
    );

    println!("{:#?}", paths);
}

#[test]
fn test_cmake_vars() {
    let opt = create_test_opt();

    let cpp_proj_gen = CppProjGen::new(opt)
        .add_include_dir(String::from("include"))
        .add_toplevel_dir(String::from("test"))
        .add_source_dir(String::from("source"));

    println!("{:#?}", cpp_proj_gen.cmake_vars);

    let result = replace_cmake_vars(CMLT, &cpp_proj_gen.cmake_vars);
    println!("{}", result);
}

#[test]
fn test_include_dir_without_namespace() {
    let opt = Opt {
        name_space: None,
        target_name: String::from("tgtnm"),
        cmake_version: String::from("1.23.4"),
        output_dir: Some(String::from("test_out_dir")),
    };

    let cpp_proj_gen = CppProjGen::new(opt)
        .add_include_dir(String::from("include"))
        .add_toplevel_dir(String::from("test"))
        .add_source_dir(String::from("source"));

    let paths = cpp_proj_gen.build_paths();

    assert_eq!(
        paths.contains(&String::from("test_out_dir/tgtnm/include/tgtnm")),
        true
    );
}

#[test]
fn test_paths_without_namespace_in_order() {
    let opt = Opt {
        name_space: None,
        target_name: String::from("tgtnm"),
        cmake_version: String::from("1.23.4"),
        output_dir: Some(String::from("test_out_dir")),
    };

    let cpp_proj_gen = CppProjGen::new(opt)
        .add_include_dir(String::from("include"))
        .add_toplevel_dir(String::from("test"))
        .add_source_dir(String::from("source"));

    let paths = cpp_proj_gen.build_paths();
    assert_eq!(
        paths,
        vec![
            String::from("test_out_dir/tgtnm/include/tgtnm"),
            String::from("test_out_dir/tgtnm/test"),
            String::from("test_out_dir/tgtnm/source"),
            String::from("test_out_dir/tgtnm/CMakeLists.txt"),
        ]
    );
}

#[test]
fn test_include_dir_round_trip() {
    let opt = Opt {
        name_space: Some(String::from("acme")),
        target_name: String::from("widget"),
        cmake_version: String::from("3.15.0"),
        output_dir: Some(String::from("/out")),
    };

    let cpp_proj_gen = CppProjGen::new(opt).add_include_dir(String::from("include"));

    let paths = cpp_proj_gen.build_paths();
    assert_eq!(
        paths.contains(&String::from("/out/widget/include/acme/widget")),
        true
    );
}

#[test]
fn test_initial_cmake_vars_with_namespace() {
    let opt = create_test_opt();
    let cpp_proj_gen = CppProjGen::new(opt);

    assert_eq!(
        cpp_proj_gen.cmake_vars,
        vec![
            (
                String::from("@CMAKE_MINIMUM_VERSION@"),
                String::from("1.23.4")
            ),
            (String::from("@CMAKE_TARGET_NAME@"), String::from("tgtnm")),
            (
                String::from("@CMAKE_PROJECT_NAME@"),
                String::from("nmspc-tgtnm")
            ),
            (
                String::from("@INCLUDE_DOMAIN_DIR@"),
                String::from("nmspc/tgtnm")
            ),
        ]
    );
}

#[test]
fn test_add_source_dir_twice_overwrites_var() {
    let opt = create_test_opt();
    let cpp_proj_gen = CppProjGen::new(opt)
        .add_source_dir(String::from("src_one"))
        .add_source_dir(String::from("src_two"));

    let source_entries: Vec<&(String, String)> = cpp_proj_gen
        .cmake_vars
        .iter()
        .filter(|pair| pair.0 == "@SOURCE_DIR@")
        .collect();
    assert_eq!(source_entries.len(), 1);
    assert_eq!(source_entries[0].1, "src_two");

    let paths = cpp_proj_gen.build_paths();
    assert_eq!(paths.len(), 3);
    assert_eq!(
        paths,
        vec![
            String::from("test_out_dir/tgtnm/src_one"),
            String::from("test_out_dir/tgtnm/src_two"),
            String::from("test_out_dir/tgtnm/CMakeLists.txt"),
        ]
    );
}

#[test]
fn test_out_dir_without_output_dir() {
    let opt = Opt {
        name_space: None,
        target_name: String::from("tgtnm"),
        cmake_version: String::from("1.23.4"),
        output_dir: None,
    };

    let cpp_proj_gen = CppProjGen::new(opt);
    assert_eq!(cpp_proj_gen.out_dir, "tgtnm");
}

#[test]
fn test_gen_renders_and_lists_paths() {
    let opt = create_test_opt();
    let cpp_proj_gen = CppProjGen::new(opt)
        .add_include_dir(String::from("include"))
        .add_source_dir(String::from("source"));

    let plan = cpp_proj_gen.gen();

    let expected = CMLT
        .replace("@CMAKE_MINIMUM_VERSION@", "1.23.4")
        .replace("@CMAKE_TARGET_NAME@", "tgtnm")
        .replace("@CMAKE_PROJECT_NAME@", "nmspc-tgtnm")
        .replace("@INCLUDE_DOMAIN_DIR@", "nmspc/tgtnm")
        .replace("@INCLUDE_DIR@", "include")
        .replace("@SOURCE_DIR@", "source");
    assert_eq!(plan.contents, expected);
    assert!(!plan.contents.contains("@CMAKE_TARGET_NAME@"));

    assert_eq!(
        plan.paths,
        vec![
            String::from("test_out_dir/tgtnm/include/nmspc/tgtnm"),
            String::from("test_out_dir/tgtnm/source"),
            String::from("test_out_dir/tgtnm/CMakeLists.txt"),
        ]
    );
}
