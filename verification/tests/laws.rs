use cargonode::cn_core::dependency::{resolve_with_versions, DependencySpec};
use cargonode::cn_core::package_manager::workspace_dependency_names;
use cargonode::inputs::{gather_input_files, Globbed};
use cargonode::ops::new::scripts_to_inherit;
use cargonode::cache::files_to_clear;
use cargonode::cn_core::path::normalize_path as core_normalize;
use cargonode::integration::{Command, CommandConfig, Config};
use cargonode::job::{Job, JobConfig, JobFailure};
use cargonode::cmd::CommandContext;
use cargonode::ops::replace::{replace_placeholders, Replacements};
use cargonode::progress::{format_error, style_text, Color};
use cargonode::replace::Replacer;
use cargonode::util::platform::{normalize_line_endings, normalize_path, Platform};

#[test]
fn law_plain_text_passes_through_placeholder_replacement() {
    let mut rep = Replacements::new();
    rep.add("name", "x");
    let text = "no { placeholders } here, {single} braces";
    assert_eq!(replace_placeholders(text, &rep), text);
}

#[test]
fn law_lone_placeholder_becomes_its_value() {
    let mut rep = Replacer::new();
    rep.add("name", "value");
    assert_eq!(rep.with_haystack("{{name}}"), "value");
    assert_eq!(rep.with_haystack("{{other}}"), "{{MISSING}}");
}

#[test]
fn law_read_after_write_of_replacements() {
    let mut rep = Replacements::new();
    rep.add("a", "1");
    rep.add("b", "2");
    rep.add("a", "3");
    assert_eq!(rep.get("a"), Some("3"));
    assert_eq!(rep.get("b"), Some("2"));
    assert_eq!(rep.get("c"), None);
}

#[test]
fn law_plain_error_is_labelled_message() {
    let m = "first\n\nError: x\n\nDetails: y\n\nother";
    assert_eq!(format_error(m, false), format!("error: {}", m));
    assert_eq!(style_text("t", Color::Gray, true, false), "t");
    assert_eq!(style_text("t", Color::Gray, true, true), "\x1b[1m\x1b[90mt\x1b[0m");
}

#[test]
fn law_path_normalisation_is_idempotent() {
    for p in ["a\\b\0c/d", "C:/x/y", "\\\\server\\share", ""] {
        for platform in [Platform::Linux, Platform::Windows] {
            let once = normalize_path(p, platform);
            assert_eq!(normalize_path(&once, platform), once);
        }
    }
    assert_eq!(normalize_path("a\\b\0c", Platform::Linux), "a/bc");
    assert_eq!(normalize_path("a/b", Platform::Windows), "a\\b");
}

#[test]
fn law_command_name_round_trip() {
    for c in [Command::Format, Command::Check, Command::Build, Command::Test, Command::Release] {
        assert_eq!(Command::map_from_str(c.name()), Some(c));
    }
    assert_eq!(Command::map_from_str("deploy"), None);
}

#[test]
fn law_merge_prefers_file_values() {
    let default = Command::Build.default_config();
    assert_eq!(default.command, "tsup");
    assert_eq!(default.pre_checks, vec!["check".to_string()]);
    let file = CommandConfig {
        command: "  ".to_string(),
        args: vec!["--minify".to_string(), " ".to_string()],
        pre_checks: vec![" ".to_string()],
        env_vars: vec![("NODE_ENV".to_string(), "production".to_string())],
    };
    let config = Config { commands: vec![("build".to_string(), file)] };
    let merged = config.merge(&default, "build");
    assert_eq!(merged.command, "tsup");
    assert_eq!(merged.args, vec!["--minify".to_string()]);
    assert_eq!(merged.pre_checks, vec!["check".to_string()]);
    assert_eq!(merged.env_vars, vec![("NODE_ENV".to_string(), "production".to_string())]);
    let untouched = config.merge(&default, "test");
    assert_eq!(untouched, default);
}

fn ctx(steps: Vec<Job>) -> CommandContext {
    CommandContext {
        executable: "npx".to_string(),
        subcommand: String::new(),
        args: Vec::new(),
        envs: Vec::new(),
        working_dir: ".".to_string(),
        steps,
    }
}

#[test]
fn law_jobs_run_steps_first_and_stop_at_cycles() {
    let config = JobConfig {
        cargonode: vec![
            (Job::Check, ctx(vec![])),
            (Job::Build, ctx(vec![Job::Check])),
            (Job::Release, ctx(vec![Job::Build, Job::Test])),
            (Job::Fmt, ctx(vec![Job::Fmt])),
        ],
    };
    let plan = Job::Build.call(&config);
    assert_eq!(plan.runs, vec![(Job::Check, vec![Job::Build]), (Job::Build, vec![])]);
    assert!(plan.failure.is_none());

    let plan = Job::Release.call(&config);
    assert_eq!(plan.runs.len(), 2);
    assert_eq!(plan.failure, Some((JobFailure::Missing, Job::Test, vec![Job::Release])));

    let plan = Job::Fmt.call(&config);
    assert!(plan.runs.is_empty());
    assert_eq!(plan.failure, Some((JobFailure::Cycle, Job::Fmt, vec![Job::Fmt])));
}

#[test]
fn law_core_path_normalisation_is_idempotent() {
    for p in ["/..", "/a/../..", "a//b/./c/", "../x", "/", "", "a/b/c/../../b", "/x/./y/../z"] {
        let once = core_normalize(p);
        assert_eq!(core_normalize(&once), once);
    }
    assert_eq!(core_normalize("/a/../.."), "");
    assert_eq!(core_normalize("/x/./y/../z"), "/x/z");
}

#[test]
fn cache_files_to_clear_follow_the_rules() {
    let listing = vec![
        ("lint_abc.json".to_string(), true),
        ("build_def.json".to_string(), true),
        (".json".to_string(), true),
        ("lint_dir.json".to_string(), false),
        ("lint_x.txt".to_string(), true),
        ("lint_y.json".to_string(), true),
    ];
    let (all, over) = files_to_clear(&listing, None);
    assert_eq!(all, vec!["lint_abc.json", "build_def.json", "lint_y.json"]);
    assert!(!over);
    let (lint, _) = files_to_clear(&listing, Some("lint"));
    assert_eq!(lint, vec!["lint_abc.json", "lint_y.json"]);
}

#[test]
fn resolved_versions_are_offered_and_accepted() {
    let specs = vec![
        DependencySpec { name: "a".into(), version_req: "^1.0.0".into(), peer: true, optional: false },
        DependencySpec { name: "b".into(), version_req: ">=2.0.0, <3.0.0".into(), peer: false, optional: true },
    ];
    let offered = vec![
        vec!["0.9.0".to_string(), "1.4.2".to_string(), "2.0.0".to_string()],
        vec!["2.1.0".to_string(), "3.0.0".to_string(), "bogus".to_string()],
    ];
    let result = resolve_with_versions(&specs, &offered);
    assert_eq!(result.resolved.len(), 2);
    for (d, (spec, versions)) in result.resolved.iter().zip(specs.iter().zip(offered.iter())) {
        assert_eq!(d.name, spec.name);
        assert_eq!((d.peer, d.optional), (spec.peer, spec.optional));
        assert!(versions.contains(&d.version));
        let req = semver::VersionReq::parse(&spec.version_req).unwrap();
        assert!(req.matches(&semver::Version::parse(&d.version).unwrap()));
    }
}

#[test]
fn gathered_inputs_are_distinct() {
    let patterns = vec!["a".to_string(), "b".to_string()];
    let globbed: Vec<Globbed> = vec![
        Ok(vec![(Ok("/x".to_string()), true), (Ok("/x".to_string()), true)]),
        Ok(vec![(Ok("/y".to_string()), true), (Ok("/x".to_string()), true)]),
    ];
    let files = gather_input_files(&patterns, &globbed).unwrap();
    assert_eq!(files, vec!["/x".to_string(), "/y".to_string()]);
}

#[test]
fn no_package_depends_on_itself() {
    let names = vec![Some("me".to_string()), Some("other".to_string()), Some("me".to_string())];
    let deps = workspace_dependency_names("me", &names);
    assert!(!deps.contains(&"me".to_string()));
    assert_eq!(deps, vec!["other".to_string()]);
}

#[test]
fn inherited_scripts_never_override() {
    let own = vec!["build".to_string()];
    let root = vec!["build".to_string(), "lint".to_string()];
    let taken = scripts_to_inherit(&own, &root);
    assert!(taken.iter().all(|n| !own.contains(n) && root.contains(n)));
    assert_eq!(taken, vec!["lint".to_string()]);
}

#[test]
fn windows_lines_end_in_crlf() {
    let out = normalize_line_endings("a\nb\r\nc\r\r\n\n", Platform::Windows);
    let chars: Vec<char> = out.chars().collect();
    for (k, c) in chars.iter().enumerate() {
        if *c == '\n' {
            assert!(k > 0 && chars[k - 1] == '\r');
        }
    }
    assert_eq!(out, "a\r\nb\r\nc\r\r\n\r\n");
}
