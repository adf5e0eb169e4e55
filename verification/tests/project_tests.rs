use llm3d_host::project::{
    collect_errors, compile_result, create_dir_error, create_project_plan, local_tsc_path,
    missing_project_error, open_project_info, project_file_path, project_name, tsc_args,
    tsc_program, write_file_error, ESLINTRC, GLOBALS_D_TS, MAIN_SCENE_YAML, MAIN_TS, PROJECT_JSON,
    TSCONFIG_JSON,
};

#[test]
fn new_project_layout() {
    let plan = create_project_plan("/work", "shooter", "declare namespace Engine {}");
    assert_eq!(
        plan.dirs,
        vec![
            "/work/shooter/src",
            "/work/shooter/scenes",
            "/work/shooter/assets",
            "/work/shooter/assets/models",
            "/work/shooter/assets/textures",
            "/work/shooter/assets/audio",
            "/work/shooter/assets/fonts",
            "/work/shooter/config",
        ]
    );
    let files: Vec<(String, String, String)> =
        plan.files.into_iter().map(|f| (f.path, f.contents, f.label)).collect();
    let paths: Vec<&str> = files.iter().map(|f| f.0.as_str()).collect();
    assert_eq!(
        paths,
        vec![
            "/work/shooter/project.json",
            "/work/shooter/src/main.ts",
            "/work/shooter/scenes/main_scene.yaml",
            "/work/shooter/tsconfig.json",
            "/work/shooter/.eslintrc",
            "/work/shooter/engine-core.d.ts",
            "/work/shooter/globals.d.ts",
        ]
    );
    assert_eq!(files[0].1, PROJECT_JSON);
    assert_eq!(files[1].1, MAIN_TS);
    assert_eq!(files[1].2, "main.ts");
    assert_eq!(files[2].1, MAIN_SCENE_YAML);
    assert_eq!(files[3].1, TSCONFIG_JSON);
    assert_eq!(files[4].1, ESLINTRC);
    assert_eq!(files[5].1, "declare namespace Engine {}");
    assert_eq!(files[6].1, GLOBALS_D_TS);
    assert_eq!(plan.info.name, "shooter");
    assert_eq!(plan.info.path, "/work/shooter");
    assert!(PROJECT_JSON.contains("\"entry_script\": \"src/main.ts\""));
    assert!(MAIN_TS.contains("Hello from LLM3dEngine!"));
    for option in ["\"strict\": true", "\"noImplicitAny\": true", "\"noUncheckedIndexedAccess\": true",
                   "\"target\": \"ES2020\"", "\"module\": \"ES2020\""] {
        assert!(TSCONFIG_JSON.contains(option), "{}", option);
    }
    for rule in ["no-eval", "no-new-func", "no-implied-eval", "@typescript-eslint/no-explicit-any", "no-restricted-syntax"] {
        assert!(ESLINTRC.contains(rule), "{}", rule);
    }
}

#[test]
fn project_names_follow_file_name() {
    let cases = ["/work/shooter", "/work/shooter/", "/work/shooter/.", "/work/..", "/", "", ".", "a", "./b", "x//y//"];
    for p in cases {
        let expected = std::path::Path::new(p)
            .file_name()
            .map(|n| n.to_string_lossy().to_string())
            .unwrap_or_else(|| "unknown".into());
        assert_eq!(project_name(p), expected, "path {:?}", p);
    }
    let info = open_project_info("/work/shooter");
    assert_eq!(info.name, "shooter");
    assert_eq!(info.path, "/work/shooter");
    assert_eq!(missing_project_error(), "Project path does not exist");
}

#[test]
fn file_paths_and_errors() {
    assert_eq!(project_file_path("/work/g", "scripts/a.ts"), "/work/g/scripts/a.ts");
    assert_eq!(create_dir_error("denied"), "Failed to create directory: denied");
    assert_eq!(write_file_error("main.ts", "denied"), "Failed to write main.ts: denied");
}

#[test]
fn type_checker_command() {
    assert_eq!(local_tsc_path("/repo/app"), "/repo/app/node_modules/.bin/tsc");
    assert_eq!(tsc_program("/repo/app/node_modules/.bin/tsc", true), "/repo/app/node_modules/.bin/tsc");
    assert_eq!(tsc_program("/repo/app/node_modules/.bin/tsc", false), "tsc");
    assert_eq!(tsc_args("/work/g"), vec!["--noEmit", "--pretty", "--project", "/work/g/tsconfig.json"]);
}

#[test]
fn error_lines_are_collected() {
    let out = "scripts/main.ts(2,7): error TS2339: Property 'x' does not exist.\r\nFound 1 error.\nerror TS5058: missing\n";
    assert_eq!(
        collect_errors(out),
        vec!["scripts/main.ts(2,7): error TS2339: Property 'x' does not exist.", "error TS5058: missing"]
    );
    assert!(collect_errors("").is_empty());
    let r = compile_result("a error TS1: x\n", "b\nc error TS2: y", false);
    assert!(!r.success);
    assert_eq!(r.output, "a error TS1: x\nb\nc error TS2: y");
    assert_eq!(r.errors, vec!["a error TS1: x", "c error TS2: y"]);
    let ok = compile_result("", "", true);
    assert!(ok.success);
    assert!(ok.errors.is_empty());
}
