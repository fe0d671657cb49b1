use cargonode::ops::new::{package_manifest, readme_content, root_manifest, source_files, workspace_dir};
use cargonode::cache::Cache;
use cargonode::cmd::{executable_verdict, validate_executable, working_dir_verdict, CommandContext};
use cargonode::commands::project::{create_package_config, create_project};
use cargonode::config::{extract_package_name, validate_init_config, validate_project_config, ProjectConfig};
use cargonode::core_package::{PackageOptions, PackageType, WorkspaceConfig};
use cargonode::error::Error;
use cargonode::events::{ConsoleEventHandler, PackageEvent};
use cargonode::exec::{command_line, npx_config, ExecFailure};
use cargonode::integration::{invocation, CommandConfig};
use cargonode::inputs::{hex_string, input_digest, InputTracker};
use cargonode::job::Job;
use cargonode::ops::new::{get_package_template, get_template, TemplateType, LIB_TS_TEMPLATE};
use cargonode::outputs::OutputVerifier;
use cargonode::package::{replace_content, validate_package_name as template_package_name, Template};
use cargonode::pkgmgr::PackageManager;
use cargonode::project::{dir_state_verdict, entry_action, prepare_replacement, EntryAction, EntryKind, ProjectKind};
use cargonode::template::ProjectType;
use cargonode::ui::status::Status;
use cargonode::util::fs::{get_package_name, FsCache};
use cargonode::util::platform::{
    file_path_verdict, normalize_line_endings, validate_package_name, validate_workspace_pattern, Ops, Platform,
};
use cargonode::utils::emptiness_verdict;

#[test]
fn package_names_from_paths() {
    assert_eq!(extract_package_name("/tmp/x/@scope/my-pkg").unwrap(), "@scope/my-pkg");
    assert_eq!(extract_package_name("/tmp/x/valid-package").unwrap(), "valid-package");
    assert!(matches!(extract_package_name("/"), Err(Error::InvalidPackageName { .. })));
    let c = validate_project_config("/tmp/x/@scope/my-pkg", true, None).unwrap();
    assert!(!c.is_binary);
    assert_eq!(c.name, "@scope/my-pkg");
    assert!(validate_project_config("/tmp/Bad_Name", false, None).is_err());
}

#[test]
fn init_config_refuses_existing_manifest() {
    let dir = tempfile::tempdir().unwrap();
    let sub = tempfile::Builder::new()
        .prefix("valid-package")
        .rand_bytes(0)
        .tempdir_in(dir.path())
        .unwrap();
    let p = sub.path().to_str().unwrap();
    let c = validate_init_config(p, false, None).unwrap();
    assert!(c.is_binary);
    assert_eq!(c.name, "valid-package");
    let _manifest = tempfile::Builder::new()
        .prefix("package.json")
        .rand_bytes(0)
        .tempfile_in(sub.path())
        .unwrap();
    assert!(matches!(validate_init_config(p, false, None), Err(Error::PackageJsonExists)));
}

#[test]
fn project_plan_for_new_directory() {
    let dir = tempfile::tempdir().unwrap();
    let path = dir.path().join("new-project");
    let plan = create_project(path.to_str().unwrap(), false, None, true).unwrap();
    assert_eq!(plan.action, "Creating");
    assert_eq!(plan.message, "binary package `new-project`");
    assert!(plan.structure.is_binary);
    assert_eq!(plan.package_json.main, Some("src/main.js".to_string()));
    assert!(plan.vcs.is_none());
    let config = ProjectConfig {
        name: "test-pkg".to_string(),
        path: "p".to_string(),
        is_binary: true,
        vcs_config: None,
    };
    let pkg = create_package_config(&config);
    assert_eq!(pkg.name, "test-pkg");
    assert!(matches!(pkg.project_type, ProjectType::Binary));
    assert!(pkg.version.is_none());
}

#[test]
fn package_options_builders() {
    let mut o = PackageOptions::new("some/dir/my-app");
    assert!(o.is_bin() && !o.is_lib() && o.vcs_enabled() && !o.is_typescript());
    o.set_lib(true).set_vcs(false).set_typescript(true);
    assert!(o.is_lib() && !o.vcs_enabled() && o.is_typescript());
    assert_eq!(o.package_type, PackageType::Library);
    o.set_bin(true);
    assert!(o.is_bin());
    assert_eq!(o.package_name(), "my-app");
    o.name = Some("named".to_string());
    assert_eq!(o.package_name(), "named");
    assert_eq!(PackageOptions::new("/").package_name(), "package");
    o.set_workspace_config(WorkspaceConfig::default());
    assert_eq!(o.workspace_config.unwrap().patterns, vec!["packages/*".to_string()]);
}

#[test]
fn platform_rules() {
    assert_eq!(normalize_line_endings("a\r\nb\n", Platform::Linux), "a\nb\n");
    assert_eq!(normalize_line_endings("a\nb", Platform::Windows), "a\r\nb");
    assert_eq!(normalize_line_endings("a\r\nb\n", Platform::Windows), "a\r\nb\r\n");
    assert_eq!(Platform::Windows.path_separator(), '\\');
    assert_eq!(Platform::Linux.line_ending(), "\n");
    assert_eq!(Platform::Windows.executable_extension(), ".exe");
    assert!(validate_package_name("my-pkg").is_ok());
    assert!(validate_package_name("@scope/pkg.js").is_ok());
    assert_eq!(validate_package_name("a|b").unwrap_err(), "Package name contains invalid characters: a|b");
    assert_eq!(validate_package_name("@/x").unwrap_err(), "Invalid scope name: ");
    assert_eq!(validate_package_name("@a/b/c").unwrap_err(), "Invalid scoped package name format: @a/b/c");
    assert_eq!(validate_package_name("@a/").unwrap_err(), "Invalid package name: ");
    assert_eq!(validate_package_name(".x").unwrap_err(), "Package name cannot start with . or _: .x");
    assert_eq!(validate_package_name("a b").unwrap_err(), "Package name contains non-URL-safe characters: a b");
    assert_eq!(file_path_verdict("a/../b", false, false).unwrap_err(), "Path traversal detected: a/../b");
    assert_eq!(file_path_verdict("/etc", false, false).unwrap_err(), "Absolute paths are not allowed: /etc");
    assert_eq!(file_path_verdict("link", false, true).unwrap_err(), "Symlinks are not allowed: link");
    assert!(file_path_verdict("link", true, true).is_ok());
    assert!(file_path_verdict(&"a".repeat(261), true, false).is_err());
    assert!(validate_workspace_pattern("packages/*").is_ok());
    assert!(validate_workspace_pattern("../x").is_err());
    assert!(validate_workspace_pattern("/abs").is_err());
    assert!(validate_workspace_pattern("a?b").is_err());
}

#[test]
fn scaffold_decisions() {
    let rep = prepare_replacement("/home/u/my-app");
    assert_eq!(rep.get("NAME"), Some("my-app"));
    assert_eq!(
        entry_action(ProjectKind::Init, EntryKind::Regular, "p/f".to_string(), "c".to_string(), true),
        EntryAction::Skip { warning: "File already exists; skipping: p/f".to_string() }
    );
    assert_eq!(
        entry_action(ProjectKind::New, EntryKind::Regular, "p/f".to_string(), "c".to_string(), true),
        EntryAction::WriteFile { path: "p/f".to_string(), content: "c".to_string() }
    );
    assert_eq!(
        entry_action(ProjectKind::New, EntryKind::Directory, "p/d".to_string(), String::new(), false),
        EntryAction::CreateDir { path: "p/d".to_string() }
    );
    assert_eq!(dir_state_verdict("d", Ok(true), false), Ok(true));
    assert_eq!(
        dir_state_verdict("d", Ok(false), true),
        Err("A 'package.json' manifest already exists in 'd'.".to_string())
    );
    assert!(matches!(emptiness_verdict("d", true, false, Ok(false)), Err(Error::DirectoryExists { .. })));
    assert!(matches!(emptiness_verdict("d", false, false, Ok(true)), Ok(true)));
}

#[test]
fn digests_and_hex() {
    assert_eq!(hex_string(&vec![0u8, 15, 16, 255]), "000f10ff");
    let files = vec![
        ("a.txt".to_string(), b"hello".to_vec()),
        ("b.txt".to_string(), Vec::new()),
    ];
    assert_eq!(
        input_digest(&files).unwrap(),
        "fd001ffb38a905a9531fe14bc9052df9546fc599af51bcada2a9f666fc19ab5a"
    );
    let big = vec![("big".to_string(), vec![0u8; 10485761])];
    assert!(matches!(input_digest(&big), Err(Error::Input { .. })));
    let t = InputTracker::new("/base", vec!["*.txt".to_string()]);
    assert_eq!(t.absolute_pattern("src/*.js"), "/base/src/*.js");
    assert_eq!(t.absolute_pattern("/abs/*.js"), "/abs/*.js");
}

#[test]
fn outputs_and_cache_paths() {
    let v = OutputVerifier::new("/p", vec!["dist/a.js".to_string()]);
    assert_eq!(v.get_expected_outputs(), vec!["dist/a.js".to_string()]);
    assert_eq!(v.output_paths(), vec!["/p/dist/a.js".to_string()]);
    let c = Cache::at("/cache");
    assert_eq!(c.get_cache_path("tool", "abc"), "/cache/tool_abc.json");
    assert!(!c.has_entry("tool", "abc"));
    let e = Cache::create_entry("tool", "abc", "npm", &["x".to_string()], 1);
    assert_eq!(e.exit_code, 1);
    assert_eq!(e.args, vec!["x".to_string()]);
}

#[test]
fn commands_and_executables() {
    let c = npx_config("/w", vec!["tsup".to_string(), "--watch".to_string()], None);
    assert_eq!(c.program, "npx");
    assert_eq!(command_line(&c), "npx tsup --watch");
    assert_eq!(command_line(&npx_config("/w", Vec::new(), None)), "npx");
    assert_eq!(
        executable_verdict("nope", Err("cannot find binary path".to_string())),
        Err("Executable 'nope' not found in PATH: cannot find binary path".to_string())
    );
    assert!(validate_executable("sh").is_ok());
    assert!(validate_executable("surely-not-an-executable-name").is_err());
    assert_eq!(
        working_dir_verdict(Ok("/x".to_string()), false),
        Err("The path /x is not a directory.".to_string())
    );
    let mut base = CommandContext {
        executable: "a".to_string(),
        subcommand: "run".to_string(),
        args: vec!["1".to_string()],
        envs: Vec::new(),
        working_dir: ".".to_string(),
        steps: vec![Job::Check],
    };
    let other = CommandContext {
        executable: String::new(),
        subcommand: String::new(),
        args: vec!["2".to_string()],
        envs: vec![("K".to_string(), "V".to_string())],
        working_dir: String::new(),
        steps: Vec::new(),
    };
    base.merge(other).unwrap();
    assert_eq!(base.args, vec!["1".to_string(), "2".to_string()]);
    assert_eq!(base.subcommand, "run");
    assert_eq!(base.steps, vec![Job::Check]);
    assert_eq!(Job::from_name("BuIlD"), Ok(Job::Build));
    assert_eq!(Job::from_name("deploy"), Err("Unknown job: deploy".to_string()));
}

#[test]
fn package_managers() {
    assert_eq!(PackageManager::from_lock_files("d", false, true, true, false), Ok(PackageManager::Yarn));
    assert_eq!(
        PackageManager::from_lock_files("d", false, false, false, false),
        Err("Unsupported package manager: d".to_string())
    );
    let ctx = PackageManager::Pnpm.install_context_from("proj", Ok("/usr/bin/pnpm".to_string())).unwrap();
    assert_eq!(ctx.subcommand, "install");
    assert_eq!(ctx.working_dir, "proj");
}

#[test]
fn templates_and_names() {
    assert_eq!(get_package_template(true, true), TemplateType::TypeScriptLibrary);
    assert_eq!(get_template(TemplateType::TypeScriptLibrary), LIB_TS_TEMPLATE);
    assert_eq!(Template::NodeTypeScript.info().placeholder, "node_typescript");
    assert!(template_package_name("my-pkg").is_ok());
    assert!(template_package_name("my-pkg-").is_err());
    assert!(template_package_name("My").is_err());
    assert_eq!(replace_content("x node_typescript y", "node_typescript", "app"), "x app y");
    assert_eq!(get_package_name("/a/my-cool app"), "my_cool_app");
    assert_eq!(get_package_name("/"), "package");
    let mut fsc = FsCache::new();
    assert_eq!(fsc.is_git_repo(), None);
    fsc.remember_git_repo(true);
    assert_eq!(fsc.is_git_repo(), Some(true));
    let s = Status::new(true, true, false);
    assert_eq!(s.package_type(), "library");
    assert!(!s.is_new());
}

#[test]
fn console_lines_for_events() {
    let h = ConsoleEventHandler;
    let (line, err) = h.line_for(&PackageEvent::WorkspaceCreated {
        root: "/r".to_string(),
        patterns: vec!["a".to_string(), "b".to_string()],
    });
    assert_eq!(line, "Created workspace at /r with patterns: [\"a\", \"b\"]");
    assert!(!err);
    let (line, err) = h.line_for(&PackageEvent::Error { message: "boom".to_string() });
    assert_eq!(line, "Error: boom");
    assert!(err);
}

#[test]
fn placeholders_with_spaces_and_unicode_names() {
    let mut rep = cargonode::replace::Replacer::new();
    rep.add("name", "cargonode");
    rep.add("version", "0.1.0");
    rep.add("été", "summer");
    assert_eq!(
        rep.with_haystack("name: {{ name }}\nversion: {{ version }}"),
        "name: cargonode\nversion: 0.1.0"
    );
    assert_eq!(rep.with_haystack("{{ été }}!"), "summer!");
    assert_eq!(rep.with_haystack("{{{name}}}"), "{cargonode}");
    assert_eq!(rep.with_haystack("{{na me}}"), "{{na me}}");
}

#[test]
fn package_manifests_and_files() {
    let mut o = PackageOptions::new("/work/my app");
    o.set_lib(true).set_typescript(true);
    let m = package_manifest(&o);
    assert_eq!(m.name, "my-app");
    assert_eq!(m.scripts.len(), 5);
    assert_eq!(m.types, Some("dist/lib.d.ts"));
    assert!(m.bin.is_none());
    assert_eq!(m.exports, Some(("./dist/lib.js".to_string(), "./dist/lib.d.ts".to_string())));
    let files = source_files(&o);
    assert_eq!(files.len(), 5);
    assert_eq!(files[0].0, "src/lib.ts");
    assert_eq!(files[3].0, "tsconfig.json");
    assert_eq!(files[4].0, "README.md");
    assert!(readme_content(&o).starts_with("# my app\n\n## Description\n\nA new Node.js package\n"));
    let r = root_manifest(&o);
    assert_eq!(r.name, "my_app");
    assert_eq!(r.main, "lib.js");
    assert!(r.workspaces.is_none());
    o.workspace = true;
    let r = root_manifest(&o);
    assert_eq!(r.workspaces, Some(vec!["packages/*".to_string()]));
    assert_eq!(r.workspace_config, Some((true, false)));
    assert_eq!(workspace_dir("/w", "packages/*"), Some("/w/packages".to_string()));
    assert_eq!(workspace_dir("/w", "apps"), None);
}

#[test]
fn exec_failures_are_worded() {
    let f = ExecFailure::ExitFailure {
        stdout: "out".to_string(),
        stderr: String::new(),
        exit_status: Some("exit status: 2".to_string()),
    };
    assert_eq!(f.message(), "Command failed with exit status: exit status: 2\n\nstdout:\nout");
    let f = ExecFailure::ExitFailure { stdout: String::new(), stderr: "err".to_string(), exit_status: None };
    assert_eq!(f.message(), "Command failed\n\nstderr:\nerr");
    assert_eq!(
        ExecFailure::Execute("not found".to_string()).in_command("check"),
        "Failed to execute command 'check': Failed to execute command: not found"
    );
    assert_eq!(
        ExecFailure::ReadOutput("bad utf-8".to_string()).message(),
        "Failed to read command output: bad utf-8"
    );
}

#[test]
fn predefined_command_invocation() {
    let merged = CommandConfig {
        command: "vitest".to_string(),
        args: vec!["run".to_string()],
        pre_checks: vec![],
        env_vars: vec![],
    };
    let c = invocation("/w", &merged, vec!["--watch".to_string()]);
    assert_eq!(c.program, "npx");
    assert_eq!(c.work_dir, "/w");
    assert_eq!(c.args, vec!["vitest".to_string(), "run".to_string(), "--watch".to_string()]);
    assert!(c.env_vars.is_none());
    let merged = CommandConfig { env_vars: vec![("CI".to_string(), "1".to_string())], ..merged };
    let c = invocation("/w", &merged, vec![]);
    assert_eq!(c.env_vars, Some(vec![("CI".to_string(), "1".to_string())]));
}
