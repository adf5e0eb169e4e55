//! Game projects: the layout a new project gets, the name of an opened one,
//! and the type checker's command line and verdict.
use vstd::prelude::*;
use vstd::string::*;

use crate::path::{file_name, file_name_of, join_path, join_paths};
use crate::text::{chars_of, contains_chars, contains_seq, lines, lines_of, string_views};

verus! {

/// A project: its name and its directory.
pub struct ProjectInfo {
    pub name: String,
    pub path: String,
}

/// The verdict of the type checker on a project.
pub struct CompileResult {
    pub success: bool,
    pub output: String,
    pub errors: Vec<String>,
}

/// The project configuration of a new project: its entry script, its entry
/// scene and the engine version it targets.
pub const PROJECT_JSON: &'static str = "{
  \"entry_script\": \"src/main.ts\",
  \"entry_scene\": \"scenes/main_scene.yaml\",
  \"engine_version\": \"4.4\"
}
";

/// The entry script of a new project.
pub const MAIN_TS: &'static str = "// Main entry point
const node = new Engine.Node3D();
node.name = \"Root\";
Engine.SceneTree.get_root().add_child(node);
console.log(\"Hello from LLM3dEngine!\");
";

/// The entry scene of a new project: an empty scene description.
pub const MAIN_SCENE_YAML: &'static str = "# Main scene
name: main_scene
nodes: []
";

/// The TypeScript configuration of a new project: strict checking with no
/// implicit `any` and checked index access, ES2020 output.
pub const TSCONFIG_JSON: &'static str = "{
  \"compilerOptions\": {
    \"strict\": true,
    \"noImplicitAny\": true,
    \"noUncheckedIndexedAccess\": true,
    \"target\": \"ES2020\",
    \"module\": \"ES2020\"
  },
  \"include\": [\"src/**/*.ts\", \"engine-core.d.ts\", \"globals.d.ts\"]
}
";

/// The lint rules of a new project: no `eval`, no `Function` constructor or
/// type, no implied `eval`, no explicit `any`.
pub const ESLINTRC: &'static str = "{
  \"rules\": {
    \"no-eval\": \"error\",
    \"no-new-func\": \"error\",
    \"no-implied-eval\": \"error\",
    \"@typescript-eslint/no-explicit-any\": \"error\",
    \"no-restricted-syntax\": [\"error\",
      { \"selector\": \"TSTypeReference[typeName.name='Function']\" }
    ]
  }
}
";

/// The declaration that lets scripts use `Engine.*` as values.
pub const GLOBALS_D_TS: &'static str = "// Engine runtime globals - allows using Engine.* as values
declare const Engine: {
    [key: string]: any;
};
";

/// A file that a new project gets.
pub struct ProjectFile {
    /// Where the file goes.
    pub path: String,
    /// What it holds.
    pub contents: String,
    /// How an error writing it names it.
    pub label: String,
}

/// Everything that creating a project makes: its directories, then its
/// files in order, and the project it describes.
pub struct ProjectPlan {
    pub dirs: Vec<String>,
    pub files: Vec<ProjectFile>,
    pub info: ProjectInfo,
}

/// A planned file as (path, contents, label) text.
pub open spec fn file_view(f: ProjectFile) -> (Seq<char>, Seq<char>, Seq<char>) {
    (f.path@, f.contents@, f.label@)
}

/// The directories of the standard game project layout under `root`.
pub open spec fn project_dirs(root: Seq<char>) -> Seq<Seq<char>> {
    seq![
        join_path(root, "src"@),
        join_path(root, "scenes"@),
        join_path(root, "assets"@),
        join_path(root, "assets/models"@),
        join_path(root, "assets/textures"@),
        join_path(root, "assets/audio"@),
        join_path(root, "assets/fonts"@),
        join_path(root, "config"@),
    ]
}

/// The files of the standard game project layout under `root`, with the
/// engine declarations `dts` beside them.
pub open spec fn project_files(root: Seq<char>, dts: Seq<char>) -> Seq<(Seq<char>, Seq<char>, Seq<char>)> {
    seq![
        (join_path(root, "project.json"@), PROJECT_JSON@, "project.json"@),
        (join_path(root, "src/main.ts"@), MAIN_TS@, "main.ts"@),
        (join_path(root, "scenes/main_scene.yaml"@), MAIN_SCENE_YAML@, "main_scene.yaml"@),
        (join_path(root, "tsconfig.json"@), TSCONFIG_JSON@, "tsconfig.json"@),
        (join_path(root, ".eslintrc"@), ESLINTRC@, ".eslintrc"@),
        (join_path(root, "engine-core.d.ts"@), dts, "engine-core.d.ts"@),
        (join_path(root, "globals.d.ts"@), GLOBALS_D_TS@, "globals.d.ts"@),
    ]
}

/// A planned file at `rel` under `root`.
fn planned_file(root: &str, rel: &str, contents: &str, label: &str) -> (r: ProjectFile)
    ensures
        file_view(r) == (join_path(root@, rel@), contents@, label@),
{
    ProjectFile {
        path: join_paths(root, rel),
        contents: String::from_str(contents),
        label: String::from_str(label),
    }
}

/// What `create_project` makes for project `name` under `parent_dir`: the
/// standard game project layout, that is the directories `src`, `scenes`,
/// `assets` (with `models`, `textures`, `audio` and `fonts`) and `config`,
/// then `project.json`, the entry script, the entry scene, the TypeScript
/// configuration, the lint rules, the engine declarations and the globals
/// shim.
pub fn create_project_plan(parent_dir: &str, name: &str, engine_core_dts: &str) -> (r: ProjectPlan)
    ensures
        ({
            let root = join_path(parent_dir@, name@);
            &&& string_views(r.dirs@) == project_dirs(root)
            &&& r.files@.map_values(|f: ProjectFile| file_view(f)) == project_files(
                root,
                engine_core_dts@,
            )
            &&& r.info.name@ == name@
            &&& r.info.path@ == root
        }),
{
    let root = join_paths(parent_dir, name);
    let rs = root.as_str();
    let mut dirs: Vec<String> = Vec::new();
    dirs.push(join_paths(rs, "src"));
    dirs.push(join_paths(rs, "scenes"));
    dirs.push(join_paths(rs, "assets"));
    dirs.push(join_paths(rs, "assets/models"));
    dirs.push(join_paths(rs, "assets/textures"));
    dirs.push(join_paths(rs, "assets/audio"));
    dirs.push(join_paths(rs, "assets/fonts"));
    dirs.push(join_paths(rs, "config"));
    let mut files: Vec<ProjectFile> = Vec::new();
    files.push(planned_file(rs, "project.json", PROJECT_JSON, "project.json"));
    files.push(planned_file(rs, "src/main.ts", MAIN_TS, "main.ts"));
    files.push(planned_file(rs, "scenes/main_scene.yaml", MAIN_SCENE_YAML, "main_scene.yaml"));
    files.push(planned_file(rs, "tsconfig.json", TSCONFIG_JSON, "tsconfig.json"));
    files.push(planned_file(rs, ".eslintrc", ESLINTRC, ".eslintrc"));
    files.push(planned_file(rs, "engine-core.d.ts", engine_core_dts, "engine-core.d.ts"));
    files.push(planned_file(rs, "globals.d.ts", GLOBALS_D_TS, "globals.d.ts"));
    proof {
        let rv = root@;
        assert(string_views(dirs@) =~= project_dirs(rv));
        assert(files@.map_values(|f: ProjectFile| file_view(f)) =~= project_files(
            rv,
            engine_core_dts@,
        ));
    }
    ProjectPlan { dirs, files, info: ProjectInfo { name: String::from_str(name), path: root } }
}

/// The error for a directory that could not be made.
pub fn create_dir_error(error: &str) -> (r: String)
    ensures
        r@ == "Failed to create directory: "@ + error@,
{
    String::from_str("Failed to create directory: ").concat(error)
}

/// The error for a project file that could not be written.
pub fn write_file_error(label: &str, error: &str) -> (r: String)
    ensures
        r@ == "Failed to write "@ + label@ + ": "@ + error@,
{
    String::from_str("Failed to write ").concat(label).concat(": ").concat(error)
}

/// The name of a project at `path`: its last component, or `unknown`.
pub fn project_name(path: &str) -> (r: String)
    ensures
        r@ == match file_name(path@) {
            Some(n) => n,
            None => "unknown"@,
        },
{
    match file_name_of(path) {
        Some(n) => n,
        None => String::from_str("unknown"),
    }
}

/// The project an existing directory `path` describes (`open_project`).
pub fn open_project_info(path: &str) -> (r: ProjectInfo)
    ensures
        r.path@ == path@,
        r.name@ == match file_name(path@) {
            Some(n) => n,
            None => "unknown"@,
        },
{
    ProjectInfo { name: project_name(path), path: String::from_str(path) }
}

/// The error when the project to open is missing.
pub fn missing_project_error() -> (r: String)
    ensures
        r@ == "Project path does not exist"@,
{
    String::from_str("Project path does not exist")
}

/// Where a project file lives (`write_project_file`, `read_project_file`).
pub fn project_file_path(project_path: &str, relative_path: &str) -> (r: String)
    ensures
        r@ == join_path(project_path@, relative_path@),
{
    join_paths(project_path, relative_path)
}

/// The type checker bundled with the host, under its directory `app_dir`.
pub fn local_tsc_path(app_dir: &str) -> (r: String)
    ensures
        r@ == join_path(app_dir@, "node_modules/.bin/tsc"@),
{
    join_paths(app_dir, "node_modules/.bin/tsc")
}

/// The type checker to run: the bundled one when it exists, else `tsc`.
pub fn tsc_program(local_tsc: &str, local_exists: bool) -> (r: String)
    ensures
        r@ == (if local_exists {
            local_tsc@
        } else {
            "tsc"@
        }),
{
    if local_exists {
        String::from_str(local_tsc)
    } else {
        String::from_str("tsc")
    }
}

/// The type checker's arguments: check only, readable output, and the
/// project's `tsconfig.json`.
pub fn tsc_args(project_path: &str) -> (r: Vec<String>)
    ensures
        string_views(r@) == seq![
            "--noEmit"@,
            "--pretty"@,
            "--project"@,
            join_path(project_path@, "tsconfig.json"@),
        ],
{
    let mut v: Vec<String> = Vec::new();
    v.push(String::from_str("--noEmit"));
    v.push(String::from_str("--pretty"));
    v.push(String::from_str("--project"));
    v.push(join_paths(project_path, "tsconfig.json"));
    assert(string_views(v@) =~= seq![
        "--noEmit"@,
        "--pretty"@,
        "--project"@,
        join_path(project_path@, "tsconfig.json"@),
    ]);
    v
}

/// A line of type checker output reports an error.
pub open spec fn is_error_line(l: Seq<char>) -> bool {
    contains_seq(l, "error TS"@)
}

/// The lines of `output` that report errors, in order.
pub open spec fn error_lines(output: Seq<char>) -> Seq<Seq<char>> {
    lines(output).filter(|l: Seq<char>| is_error_line(l))
}

/// The lines of the checker's output that contain `error TS`, in order.
pub fn collect_errors(output: &str) -> (r: Vec<String>)
    ensures
        string_views(r@) == error_lines(output@),
{
    let all = lines_of(output);
    let pattern = chars_of("error TS");
    let ghost ls = string_views(all@);
    let ghost pred = |l: Seq<char>| is_error_line(l);
    let mut out: Vec<String> = Vec::new();
    let mut i: usize = 0;
    while i < all.len()
        invariant
            i <= all@.len(),
            ls == string_views(all@),
            ls == lines(output@),
            pattern@ == "error TS"@,
            pred == (|l: Seq<char>| is_error_line(l)),
            string_views(out@) == ls.take(i as int).filter(pred),
        decreases all@.len() - i,
    {
        let line = &all[i];
        let chars = chars_of(line.as_str());
        let hit = contains_chars(&chars, &pattern);
        proof {
            assert(ls.take(i + 1) =~= ls.take(i as int).push(ls[i as int]));
            ls.take(i as int).lemma_filter_push(ls[i as int], pred);
        }
        if hit {
            let ghost before = out@;
            out.push(line.clone());
            assert(string_views(out@) =~= string_views(before).push(line@));
        }
        i = i + 1;
    }
    assert(ls.take(ls.len() as int) =~= ls);
    out
}

/// The verdict on a run of the checker: whether it succeeded, its standard
/// output followed by its error output, and the error lines of both.
pub fn compile_result(stdout: &str, stderr: &str, success: bool) -> (r: CompileResult)
    ensures
        r.success == success,
        r.output@ == stdout@ + stderr@,
        string_views(r.errors@) == error_lines(stdout@ + stderr@),
{
    let combined = String::from_str(stdout).concat(stderr);
    let errors = collect_errors(combined.as_str());
    CompileResult { success, output: combined, errors }
}

/// The reported errors are exactly the output's lines that contain
/// `error TS`: each reported line contains it, and each line that contains
/// it is reported.
pub proof fn law_error_lines_exact(output: Seq<char>)
    ensures
        forall|i: int|
            0 <= i < error_lines(output).len() ==> is_error_line(#[trigger] error_lines(output)[i]),
        forall|i: int|
            0 <= i < lines(output).len() && is_error_line(#[trigger] lines(output)[i])
                ==> error_lines(output).contains(lines(output)[i]),
{
    let pred = |l: Seq<char>| is_error_line(l);
    assert forall|i: int| 0 <= i < error_lines(output).len() implies is_error_line(
        #[trigger] error_lines(output)[i],
    ) by {
        lines(output).lemma_filter_pred(pred, i);
    }
    assert forall|i: int|
        0 <= i < lines(output).len() && is_error_line(#[trigger] lines(output)[i]) implies error_lines(
        output,
    ).contains(lines(output)[i]) by {
        lines(output).lemma_filter_contains(pred, i);
    }
}

} // verus!
