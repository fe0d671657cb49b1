use cargonode::cn_core::package_manager::lockfile_paths;
use cargonode::core_package::{PackageOptions, WorkspaceConfig};
use cargonode::ops::init::{init_plan, FoundManifest, InitOutcome};
use cargonode::ops::new::{create_package_plan, Destination, PlaceAnswers, PlaceLinks};
use cargonode::paths::manifest_path;
use cargonode::pkgmgr::lock_file_paths;
use cargonode::cmd::project::run_plan;
use cargonode::project::{scaffold_plan, ArchiveEntry, EntryAction, EntryKind, ProjectKind};

fn no_links() -> PlaceLinks {
    PlaceLinks { is_symlink: false, parent_exists: true, parent_is_symlink: false }
}

fn workspace_opts(path: &str) -> PackageOptions {
    let mut opts = PackageOptions::new(path);
    opts.workspace = true;
    opts.set_workspace_config(WorkspaceConfig {
        patterns: vec!["packages/*".to_string(), "tools".to_string()],
        inherit_scripts: true,
        hoist_dependencies: true,
    });
    opts
}

#[test]
fn init_writes_a_new_package() {
    let opts = PackageOptions::new("/work/app");
    let plan = init_plan(&opts, false, FoundManifest::Absent).unwrap();
    assert!(plan.create_dir);
    match plan.outcome {
        InitOutcome::Write(w) => {
            assert_eq!(w.root.name, "app");
            assert_eq!(w.root.version, "0.1.0");
            assert_eq!(w.root.main, "index.js");
            assert!(w.workspace_dirs.is_empty());
            let (manifest, files) = w.package.unwrap();
            assert_eq!(manifest.name, "app");
            assert_eq!(files[1].0, ".gitignore");
            assert!(w.git);
        }
        InitOutcome::AlreadyWorkspace => panic!("expected a plan"),
    }
}

#[test]
fn init_of_a_workspace_makes_the_pattern_directories() {
    let opts = workspace_opts("/work/mono");
    let plan = init_plan(&opts, true, FoundManifest::Absent).unwrap();
    assert!(!plan.create_dir);
    match plan.outcome {
        InitOutcome::Write(w) => {
            assert_eq!(w.root.workspaces, Some(vec!["packages/*".to_string(), "tools".to_string()]));
            assert_eq!(w.workspace_dirs, vec!["/work/mono/packages".to_string()]);
            assert!(w.package.is_none());
            assert_eq!(w.root.workspace_config, Some((true, false)));
        }
        InitOutcome::AlreadyWorkspace => panic!("expected a plan"),
    }
}

#[test]
fn init_reads_the_existing_manifest() {
    let opts = workspace_opts("/work/mono");
    let declared = init_plan(&opts, true, FoundManifest::Present(Some(r#"{"workspaces": ["packages/*"]}"#.to_string())));
    assert!(matches!(declared.unwrap().outcome, InitOutcome::AlreadyWorkspace));
    let plain = init_plan(&opts, true, FoundManifest::Present(Some(r#"{"name": "mono"}"#.to_string())));
    assert_eq!(plain.unwrap_err(), "package.json already exists");
    let broken = init_plan(&opts, true, FoundManifest::Present(Some("{ not json".to_string())));
    assert_eq!(broken.unwrap_err(), "package.json already exists");
    let single = init_plan(&PackageOptions::new("/work/app"), true, FoundManifest::Present(None));
    assert_eq!(single.unwrap_err(), "package.json already exists");
}

#[test]
fn package_plan_checks_place_then_destination() {
    let opts = PackageOptions::new("/work/app");
    let plan = create_package_plan(
        &opts,
        PlaceAnswers { links: no_links(), exists: false, listing: Ok(false), manifest_exists: false },
    )
    .unwrap();
    assert_eq!(plan.destination, Destination::Create);
    assert_eq!(plan.write.root.name, "app");
    let busy = create_package_plan(
        &opts,
        PlaceAnswers { links: no_links(), exists: true, listing: Ok(true), manifest_exists: false },
    );
    assert_eq!(busy.unwrap_err(), "Destination `/work/app` already exists and is not empty");
    let linked = create_package_plan(
        &opts,
        PlaceAnswers {
            links: PlaceLinks { is_symlink: true, parent_exists: true, parent_is_symlink: false },
            exists: true,
            listing: Ok(true),
            manifest_exists: false,
        },
    );
    assert_eq!(linked.unwrap_err(), "Symlinks are not allowed: /work/app");
    let traversal = create_package_plan(
        &PackageOptions::new("/work/../app"),
        PlaceAnswers { links: no_links(), exists: false, listing: Ok(false), manifest_exists: false },
    );
    assert_eq!(traversal.unwrap_err(), "Path traversal detected: /work/../app");
}

#[test]
fn lock_files_asked_about() {
    let (yarn, yarnrc, pnpm) = lockfile_paths("/p");
    assert_eq!((yarn.as_str(), yarnrc.as_str(), pnpm.as_str()), ("/p/yarn.lock", "/p/.yarnrc.yml", "/p/pnpm-lock.yaml"));
    let (npm, yarn, pnpm, bun) = lock_file_paths("/p");
    assert_eq!(npm, "/p/package-lock.json");
    assert_eq!(yarn, "/p/yarn.lock");
    assert_eq!(pnpm, "/p/pnpm-lock.yaml");
    assert_eq!(bun, "/p/bun.lock");
    assert_eq!(manifest_path("/p"), "/p/package.json");
}

fn entry(kind: EntryKind, path: &str, raw: &str, exists: bool) -> ArchiveEntry {
    ArchiveEntry { kind, path: path.to_string(), raw: raw.to_string(), target_exists: exists }
}

#[test]
fn scaffold_plans_each_archive_entry() {
    let entries = vec![
        entry(EntryKind::Directory, "src", "", false),
        entry(EntryKind::Regular, "package.json", "{\"name\": \"{{ NAME }}\"}", true),
        entry(EntryKind::Other, "link", "", false),
    ];
    let plan = scaffold_plan("/work/app", ProjectKind::New, Ok(false), &entries).unwrap();
    assert!(plan.create_dir);
    assert_eq!(plan.actions[0], EntryAction::CreateDir { path: "/work/app/src".to_string() });
    assert_eq!(
        plan.actions[1],
        EntryAction::WriteFile { path: "/work/app/package.json".to_string(), content: "{\"name\": \"app\"}".to_string() }
    );
    assert_eq!(plan.actions[2], EntryAction::Skip { warning: "Unsupported entry type; skipping: /work/app/link".to_string() });
    let init = scaffold_plan("/work/app", ProjectKind::Init, Ok(true), &entries).unwrap();
    assert!(!init.create_dir);
    assert_eq!(init.actions[1], EntryAction::Skip { warning: "File already exists; skipping: /work/app/package.json".to_string() });
    assert_eq!(
        scaffold_plan("/work/app", ProjectKind::Init, Err("denied".to_string()), &entries).unwrap_err(),
        "denied"
    );
    assert!(scaffold_plan("/work/App", ProjectKind::New, Ok(false), &entries).is_err());
}

#[test]
fn workflow_run_plan_follows_the_same_rules() {
    let entries = vec![entry(EntryKind::Regular, "README.md", "# {{NAME}}", false)];
    let plan = run_plan("/work/tool", ProjectKind::New, Ok(false), &entries).unwrap();
    assert_eq!(
        plan.actions,
        vec![EntryAction::WriteFile { path: "/work/tool/README.md".to_string(), content: "# tool".to_string() }]
    );
    assert_eq!(run_plan("/", ProjectKind::New, Ok(false), &entries).unwrap_err(), "Invalid directory name");
}
