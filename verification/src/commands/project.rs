//! What creating a project involves, decided before anything is written.

use vstd::prelude::*;
use vstd::string::*;

use crate::config::{init_config_verdict, project_config_outcome, validate_project_config, ProjectConfig};
use crate::fs_query::path_exists;
use crate::paths::join;
use crate::error::Error;
use crate::template::{create_package_json, main_file, PackageConfig, PackageJson, ProjectType};
use crate::text::append_str;
use crate::utils::{
    create_project_config, emptiness_agrees, emptiness_requirement, is_directory_empty, ProjectStructure,
    VcsConfig, VcsType,
};
use crate::Result;

verus! {

/// The manifest settings of a project.
pub fn create_package_config(config: &ProjectConfig) -> (r: PackageConfig)
    ensures
        r.name@ == config.name@,
        r.project_type == (if config.is_binary {
            ProjectType::Binary
        } else {
            ProjectType::Library
        }),
        r.version is None,
{
    PackageConfig {
        name: config.name.clone(),
        project_type: if config.is_binary {
            ProjectType::Binary
        } else {
            ProjectType::Library
        },
        version: None,
    }
}

/// Whether version control is wanted: unless it is configured and set to
/// something other than git.
pub fn should_use_vcs(vcs_config: &Option<VcsConfig>) -> (b: bool)
    ensures
        b == match vcs_config {
            None => true,
            Some(c) => c.vcs_type == VcsType::Git,
        },
{
    match vcs_config {
        None => true,
        Some(c) => c.vcs_type == VcsType::Git,
    }
}

/// Everything that creating a project writes and says, in order.
#[derive(Debug, Clone)]
pub struct ProjectPlan {
    /// The status shown first (`Creating` or `Initializing`).
    pub action: String,
    /// The text shown after the status.
    pub message: String,
    /// The source layout to write.
    pub structure: ProjectStructure,
    /// The manifest to write into the project directory.
    pub package_json: PackageJson,
    /// The version control to set up, if any.
    pub vcs: Option<VcsConfig>,
    /// The note shown last.
    pub note: String,
}

/// The note shown once a project is created.
pub open spec fn completion_note() -> Seq<char> {
    "See package.json for available scripts and configuration options"@
}

/// `plan` is the plan for creating a project named `name` at `path`: the
/// status and message, the source layout, the manifest, version control
/// when it is wanted and configured, and the closing note.
pub open spec fn plan_fits(
    path: Seq<char>,
    lib: bool,
    vcs_config: Option<VcsConfig>,
    is_new: bool,
    name: Seq<char>,
    plan: ProjectPlan,
) -> bool {
    &&& plan.action@ == (if is_new {
        "Creating"@
    } else {
        "Initializing"@
    })
    &&& plan.message@ == (if lib {
        "library"@
    } else {
        "binary"@
    }) + " package `"@ + name + "`"@
    &&& plan.structure.path@ == path
    &&& plan.structure.is_binary == !lib
    &&& plan.structure.source_content@ == (if lib {
        crate::template::LIB_JS_CONTENT@
    } else {
        crate::template::MAIN_JS_CONTENT@
    })
    &&& plan.package_json.name@ == name
    &&& plan.package_json.version@ == "0.1.0"@
    &&& plan.package_json.private == !lib
    &&& plan.package_json.main matches Some(m) && m@ == main_file(!lib)
    &&& (!lib ==> (plan.package_json.bin matches Some(b) && b@.len() == 1 && b@[0].0@ == name
        && b@[0].1@ == main_file(true)))
    &&& (lib ==> plan.package_json.bin is None)
    &&& (plan.vcs is Some <==> (vcs_config matches Some(c) && c.vcs_type == VcsType::Git))
    &&& (plan.vcs is Some ==> plan.vcs == vcs_config)
    &&& plan.note@ == completion_note()
}

/// `r` is what creating a project at `path` gives, from what the disk
/// said: for a new project, the emptiness of `path` (an error passed on,
/// a directory with entries refused); for an existing one, whether
/// `package.json` is there (refused if so). Then the name taken from the
/// path is checked, and the plan follows.
pub open spec fn project_agrees(
    path: Seq<char>,
    lib: bool,
    vcs_config: Option<VcsConfig>,
    is_new: bool,
    emptiness: Result<bool>,
    manifest_exists: bool,
    r: Result<ProjectPlan>,
) -> bool {
    if is_new && emptiness is Err {
        r == Err::<ProjectPlan, Error>(emptiness->Err_0)
    } else if is_new && emptiness == Ok::<bool, Error>(false) {
        r matches Err(Error::DirectoryNotEmpty { path: p }) && p@ == path
    } else if !is_new && manifest_exists {
        r == Err::<ProjectPlan, Error>(Error::PackageJsonExists)
    } else {
        match project_config_outcome(path) {
            Ok(n) => (r matches Ok(plan) && plan_fits(path, lib, vcs_config, is_new, n, plan)),
            Err(why) => (r matches Err(Error::InvalidPackageName { name: _, reason }) && reason@ == why),
        }
    }
}

/// Decides the creation of a project at `path` from what the disk said
/// (see `project_agrees`); the caller carries the plan out.
pub fn project_verdict(
    path: &str,
    lib: bool,
    vcs_config: Option<VcsConfig>,
    is_new: bool,
    emptiness: Result<bool>,
    manifest_exists: bool,
) -> (r: Result<ProjectPlan>)
    ensures
        project_agrees(path@, lib, vcs_config, is_new, emptiness, manifest_exists, r),
{
    let has_vcs = should_use_vcs(&vcs_config);
    let config = if is_new {
        match emptiness_requirement(path, emptiness) {
            Ok(()) => {},
            Err(e) => return Err(e),
        }
        match validate_project_config(path, lib, vcs_config) {
            Ok(c) => c,
            Err(e) => return Err(e),
        }
    } else {
        match init_config_verdict(path, lib, vcs_config, manifest_exists) {
            Ok(c) => c,
            Err(e) => return Err(e),
        }
    };
    let mut message = String::from_str(if lib { "library" } else { "binary" });
    append_str(&mut message, " package `");
    append_str(&mut message, config.name.as_str());
    append_str(&mut message, "`");
    let structure = create_project_config(config.path.as_str(), config.is_binary);
    let package_json = create_package_json(create_package_config(&config));
    let vcs = if has_vcs {
        config.vcs_config
    } else {
        None
    };
    Ok(ProjectPlan {
        action: String::from_str(if is_new { "Creating" } else { "Initializing" }),
        message,
        structure,
        package_json,
        vcs,
        note: String::from_str("See package.json for available scripts and configuration options"),
    })
}

/// Decides the creation of a project at `path` (a new directory when
/// `is_new`, else the existing one): the destination is checked on the
/// disk (a new one must be missing or empty; an existing one must hold no
/// `package.json`), the name taken from the path is checked, and the plan
/// says what to write; the result is that of `project_verdict` on the
/// disk's answers. The caller carries the plan out.
pub fn create_project(path: &str, lib: bool, vcs_config: Option<VcsConfig>, is_new: bool) -> (r: Result<ProjectPlan>)
    ensures
        exists|exists: bool, is_dir: bool, listing: core::result::Result<bool, Seq<char>>, emptiness: Result<bool>, manifest_exists: bool|
            #[trigger] emptiness_agrees(path@, exists, is_dir, listing, emptiness) && #[trigger] project_agrees(
                path@,
                lib,
                vcs_config,
                is_new,
                emptiness,
                manifest_exists,
                r,
            ),
        project_config_outcome(path@) is Err ==> r is Err,
{
    let emptiness = if is_new {
        is_directory_empty(path)
    } else {
        Ok(true)
    };
    let ghost em = emptiness;
    let manifest_exists = if is_new {
        false
    } else {
        let manifest = crate::paths::manifest_path(path);
        path_exists(manifest.as_str())
    };
    let r = project_verdict(path, lib, vcs_config, is_new, emptiness, manifest_exists);
    proof {
        if !is_new {
            assert(emptiness_agrees(path@, false, false, Ok(false), em));
        }
    }
    r
}

/// Decides the creation of a project in the new directory `path` (see
/// `create_project`).
pub fn create_new_project(path: &str, lib: bool, vcs_config: Option<VcsConfig>) -> (r: Result<ProjectPlan>)
    ensures
        exists|exists: bool, is_dir: bool, listing: core::result::Result<bool, Seq<char>>, emptiness: Result<bool>, manifest_exists: bool|
            #[trigger] emptiness_agrees(path@, exists, is_dir, listing, emptiness) && #[trigger] project_agrees(
                path@,
                lib,
                vcs_config,
                true,
                emptiness,
                manifest_exists,
                r,
            ),
        project_config_outcome(path@) is Err ==> r is Err,
{
    create_project(path, lib, vcs_config, true)
}

} // verus!
