//! The package managers a project can install its dependencies with.

use vstd::prelude::*;
use vstd::string::*;

use crate::cmd::{executable_verdict, validate_executable, CommandContext};
use crate::fs_query::path_exists;
use crate::paths::{join, join_path};
use crate::text::append_str;

verus! {

/// The supported package managers.
#[derive(Debug, Clone, Copy, PartialEq, Eq, Structural)]
pub enum PackageManager {
    Npm,
    Yarn,
    Pnpm,
    Bun,
}

/// The program name of a package manager.
pub open spec fn manager_name(pm: PackageManager) -> Seq<char> {
    match pm {
        PackageManager::Npm => "npm"@,
        PackageManager::Yarn => "yarn"@,
        PackageManager::Pnpm => "pnpm"@,
        PackageManager::Bun => "bun"@,
    }
}

/// The lock files whose presence in `path` names its package manager:
/// `package-lock.json`, `yarn.lock`, `pnpm-lock.yaml` and `bun.lock`.
pub fn lock_file_paths(path: &str) -> (r: (String, String, String, String))
    ensures
        r.0@ == join_path(path@, "package-lock.json"@),
        r.1@ == join_path(path@, "yarn.lock"@),
        r.2@ == join_path(path@, "pnpm-lock.yaml"@),
        r.3@ == join_path(path@, "bun.lock"@),
{
    (join(path, "package-lock.json"), join(path, "yarn.lock"), join(path, "pnpm-lock.yaml"), join(path, "bun.lock"))
}

/// The package manager whose lock file is present, checked in the order
/// npm, yarn, pnpm, bun; `None` when there is none.
pub open spec fn manager_from_locks(npm: bool, yarn: bool, pnpm: bool, bun: bool) -> Option<PackageManager> {
    if npm {
        Some(PackageManager::Npm)
    } else if yarn {
        Some(PackageManager::Yarn)
    } else if pnpm {
        Some(PackageManager::Pnpm)
    } else if bun {
        Some(PackageManager::Bun)
    } else {
        None
    }
}

impl PackageManager {
    /// The program name.
    pub fn name(&self) -> (r: &'static str)
        ensures
            r@ == manager_name(*self),
    {
        match self {
            PackageManager::Npm => "npm",
            PackageManager::Yarn => "yarn",
            PackageManager::Pnpm => "pnpm",
            PackageManager::Bun => "bun",
        }
    }

    /// The package manager of the project in `path`, given which of
    /// `package-lock.json`, `yarn.lock`, `pnpm-lock.yaml` and `bun.lock`
    /// are present; refused when none is.
    pub fn from_lock_files(path: &str, npm: bool, yarn: bool, pnpm: bool, bun: bool) -> (r: Result<PackageManager, String>)
        ensures
            match manager_from_locks(npm, yarn, pnpm, bun) {
                Some(pm) => r == Ok::<PackageManager, String>(pm),
                None => (r matches Err(m) && m@ == "Unsupported package manager: "@ + path@),
            },
    {
        if npm {
            Ok(PackageManager::Npm)
        } else if yarn {
            Ok(PackageManager::Yarn)
        } else if pnpm {
            Ok(PackageManager::Pnpm)
        } else if bun {
            Ok(PackageManager::Bun)
        } else {
            let mut m = String::from_str("Unsupported package manager: ");
            append_str(&mut m, path);
            Err(m)
        }
    }

    /// The package manager of the project in `path`, by the lock file
    /// found there: the disk is asked whether each file of
    /// `lock_file_paths` exists, in the order npm, yarn, pnpm, bun.
    pub fn detect(path: &str) -> (r: Result<PackageManager, String>)
        ensures
            exists|npm: bool, yarn: bool, pnpm: bool, bun: bool|
                match #[trigger] manager_from_locks(npm, yarn, pnpm, bun) {
                    Some(pm) => r == Ok::<PackageManager, String>(pm),
                    None => (r matches Err(m) && m@ == "Unsupported package manager: "@ + path@),
                },
    {
        let (npm_path, yarn_path, pnpm_path, bun_path) = lock_file_paths(path);
        let npm = path_exists(npm_path.as_str());
        let yarn = path_exists(yarn_path.as_str());
        let pnpm = path_exists(pnpm_path.as_str());
        let bun = path_exists(bun_path.as_str());
        let r = PackageManager::from_lock_files(path, npm, yarn, pnpm, bun);
        assert(match manager_from_locks(npm, yarn, pnpm, bun) {
            Some(pm) => r == Ok::<PackageManager, String>(pm),
            None => (r matches Err(m) && m@ == "Unsupported package manager: "@ + path@),
        });
        r
    }

    /// The command that installs the dependencies of the project in
    /// `dir_name`, given where the manager's program was found: `install`,
    /// run in that directory.
    pub fn install_context_from(&self, dir_name: &str, executable: Result<String, String>) -> (r: Result<CommandContext, String>)
        ensures
            match executable {
                Ok(p) => (r matches Ok(c) && c.executable@ == p@ && c.subcommand@ == "install"@
                    && c.args@.len() == 0 && c.envs@.len() == 0 && c.working_dir@ == dir_name@
                    && c.steps@.len() == 0),
                Err(e) => r == Err::<CommandContext, String>(e),
            },
    {
        match executable {
            Err(e) => Err(e),
            Ok(p) => Ok(
                CommandContext {
                    executable: p,
                    subcommand: String::from_str("install"),
                    args: Vec::new(),
                    envs: Vec::new(),
                    working_dir: dir_name.to_owned(),
                    steps: Vec::new(),
                },
            ),
        }
    }

    /// The command that installs the dependencies of the project in
    /// `dir_name`, with the manager's program looked up on `PATH`.
    pub fn install_context(&self, dir_name: &str) -> (r: Result<CommandContext, String>)
        ensures
            r matches Ok(c) ==> c.subcommand@ == "install"@ && c.args@.len() == 0 && c.envs@.len()
                == 0 && c.working_dir@ == dir_name@ && c.steps@.len() == 0,
            r matches Err(m) ==> exists|e: Seq<char>| m@ == crate::cmd::not_found_message(manager_name(*self), e),
    {
        let exe = validate_executable(self.name());
        self.install_context_from(dir_name, exe)
    }
}

} // verus!
