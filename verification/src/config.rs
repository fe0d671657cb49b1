//! Project and tool configuration: the checks made before a project is
//! created, and the tools declared in `package.json`.

pub mod source;

use vstd::prelude::*;
use vstd::string::*;

use crate::error::Error;
use crate::fs_query::path_exists;
use crate::paths::{components, components_of, join, slash};
use crate::text::{append_str, push_char, split, string_from_chars, views};
use crate::utils::{package_name_refusal, validate_package_name, VcsConfig};
use crate::Result;

verus! {

/// What is known of a project before it is created.
#[derive(Debug, Clone)]
pub struct ProjectConfig {
    /// Package name (can be scoped)
    pub name: String,
    /// Project root path
    pub path: String,
    /// Whether this is a binary project
    pub is_binary: bool,
    /// Version control configuration
    pub vcs_config: Option<VcsConfig>,
}

/// The package name that `path` gives: its last component, under the
/// scope of its parent when the parent's name starts with `@`; `None` when
/// the path has no last name.
pub open spec fn package_name_from_path(path: Seq<char>) -> Option<Seq<char>> {
    let comps = components_of(split(path, slash()));
    if comps.len() == 0 || comps.last() == seq!['.', '.'] {
        None
    } else if comps.len() >= 2 && comps[comps.len() - 2].len() > 0 && comps[comps.len() - 2][0]
        == '@' {
        Some(comps[comps.len() - 2] + seq!['/'] + comps.last())
    } else {
        Some(comps.last())
    }
}

/// The reason given when a path has no name to take.
pub open spec fn no_name_reason() -> Seq<char> {
    "Could not determine a package name from the path"@
}

/// The package name that `path` gives (see `package_name_from_path`).
pub fn extract_package_name(path: &str) -> (r: Result<String>)
    ensures
        match package_name_from_path(path@) {
            Some(n) => (r matches Ok(s) && s@ == n),
            None => (r matches Err(Error::InvalidPackageName { name, reason }) && name@ == path@
                && reason@ == no_name_reason()),
        },
{
    let comps = components(path);
    let n = comps.len();
    proof {
        assert(views(comps@).len() == n);
        if n > 0 {
            assert(views(comps@).last() == comps@[n - 1]@);
        }
        if n >= 2 {
            assert(views(comps@)[n - 2] == comps@[n - 2]@);
        }
    }
    if n == 0 || (comps[n - 1].len() == 2 && comps[n - 1][0] == '.' && comps[n - 1][1] == '.') {
        proof {
            if n > 0 {
                assert(comps@[n - 1]@ =~= seq!['.', '.']);
            }
        }
        return Err(
            Error::InvalidPackageName {
                name: path.to_owned(),
                reason: String::from_str("Could not determine a package name from the path"),
            },
        );
    }
    assert(comps@[n - 1]@ != seq!['.', '.']) by {
        if comps@[n - 1]@.len() == 2 {
            if comps@[n - 1]@[0] != '.' {
                assert(comps@[n - 1]@[0] != seq!['.', '.'][0]);
            } else {
                assert(comps@[n - 1]@[1] != seq!['.', '.'][1]);
            }
        }
    }
    let last = string_from_chars(&comps[n - 1]);
    if n >= 2 && comps[n - 2].len() > 0 && comps[n - 2][0] == '@' {
        let mut name = string_from_chars(&comps[n - 2]);
        push_char(&mut name, '/');
        append_str(&mut name, last.as_str());
        assert(name@ =~= comps@[n - 2]@ + seq!['/'] + comps@[n - 1]@);
        Ok(name)
    } else {
        Ok(last)
    }
}

/// The configuration of a project at `path`, or why there is none: the
/// name must come from the path and keep the package-name rules.
pub open spec fn project_config_outcome(path: Seq<char>) -> core::result::Result<Seq<char>, Seq<char>> {
    match package_name_from_path(path) {
        None => Err(no_name_reason()),
        Some(n) => match package_name_refusal(n) {
            Some(why) => Err(why),
            None => Ok(n),
        },
    }
}

/// The project configuration for creating a project at `path`: its name
/// comes from the path (see `extract_package_name`) and must keep the
/// package-name rules; a library when `lib` holds.
pub fn validate_project_config(path: &str, lib: bool, vcs_config: Option<VcsConfig>) -> (r: Result<ProjectConfig>)
    ensures
        match project_config_outcome(path@) {
            Ok(n) => (r matches Ok(c) && c.name@ == n && c.path@ == path@ && c.is_binary == !lib
                && c.vcs_config == vcs_config),
            Err(why) => (r matches Err(Error::InvalidPackageName { name: _, reason }) && reason@
                == why),
        },
{
    let name = match extract_package_name(path) {
        Ok(n) => n,
        Err(e) => return Err(e),
    };
    match validate_package_name(name.as_str()) {
        Ok(()) => {},
        Err(e) => return Err(e),
    }
    Ok(ProjectConfig { name, path: path.to_owned(), is_binary: !lib, vcs_config })
}

/// The project configuration for initialising a project in `path`, given
/// whether a `package.json` is already there: refused if so, otherwise as
/// `validate_project_config`.
pub fn init_config_verdict(path: &str, lib: bool, vcs_config: Option<VcsConfig>, manifest_exists: bool) -> (r: Result<ProjectConfig>)
    ensures
        manifest_exists ==> r == Err::<ProjectConfig, Error>(Error::PackageJsonExists),
        !manifest_exists ==> match project_config_outcome(path@) {
            Ok(n) => (r matches Ok(c) && c.name@ == n && c.path@ == path@ && c.is_binary == !lib
                && c.vcs_config == vcs_config),
            Err(why) => (r matches Err(Error::InvalidPackageName { name: _, reason }) && reason@
                == why),
        },
{
    if manifest_exists {
        return Err(Error::PackageJsonExists);
    }
    validate_project_config(path, lib, vcs_config)
}

/// The project configuration for initialising a project in the existing
/// directory `path`: refused when it already holds a `package.json`, which
/// is asked of the disk; otherwise as `validate_project_config`.
pub fn validate_init_config(path: &str, lib: bool, vcs_config: Option<VcsConfig>) -> (r: Result<ProjectConfig>)
    ensures
        r == Err::<ProjectConfig, Error>(Error::PackageJsonExists) || match project_config_outcome(path@) {
            Ok(n) => (r matches Ok(c) && c.name@ == n && c.path@ == path@ && c.is_binary == !lib
                && c.vcs_config == vcs_config),
            Err(why) => (r matches Err(Error::InvalidPackageName { name: _, reason }) && reason@
                == why),
        },
        r matches Ok(c) ==> project_config_outcome(path@) == Ok::<Seq<char>, Seq<char>>(c.name@)
            && c.path@ == path@ && c.is_binary == !lib && c.vcs_config == vcs_config,
{
    let manifest = crate::paths::manifest_path(path);
    init_config_verdict(path, lib, vcs_config, path_exists(manifest.as_str()))
}

/// How a tool is run and what it reads and writes.
#[derive(Debug, Clone)]
pub struct ToolConfig {
    /// Command to run
    pub command: String,
    /// Arguments to pass to the command
    pub args: Vec<String>,
    /// Environment variables to set, a later pair overriding an earlier one
    pub env: Vec<(String, String)>,
    /// Working directory for the command
    pub working_dir: Option<String>,
    /// Input file patterns
    pub inputs: Vec<String>,
    /// Output file patterns (only for commands that generate files)
    pub outputs: Vec<String>,
}

/// The tools declared for the project, by name, a later entry overriding
/// an earlier one with the same name.
#[derive(Debug, Clone)]
pub struct CargonodeConfig {
    pub tools: Vec<(String, ToolConfig)>,
}

/// The index of the entry of `tools` that `name` selects: its last entry
/// of that name.
pub open spec fn tool_index(tools: Seq<(String, ToolConfig)>, name: Seq<char>) -> Option<int>
    decreases tools.len(),
{
    if tools.len() == 0 {
        None
    } else if tools.last().0@ == name {
        Some(tools.len() - 1)
    } else {
        tool_index(tools.drop_last(), name)
    }
}

proof fn lemma_tool_index_range(tools: Seq<(String, ToolConfig)>, name: Seq<char>)
    ensures
        tool_index(tools, name) matches Some(i) ==> 0 <= i < tools.len() && tools[i].0@ == name,
        tool_index(tools, name) is None ==> forall|i: int| 0 <= i < tools.len() ==> #[trigger] tools[i].0@ != name,
    decreases tools.len(),
{
    if tools.len() > 0 {
        lemma_tool_index_range(tools.drop_last(), name);
        if tool_index(tools, name) is None {
            assert forall|i: int| 0 <= i < tools.len() implies #[trigger] tools[i].0@ != name by {
                if i < tools.len() - 1 {
                    assert(tools.drop_last()[i] == tools[i]);
                }
            }
        }
    }
}

/// The configuration of tool `tool_name`, if it is declared.
pub fn get_tool_config<'a>(config: &'a CargonodeConfig, tool_name: &str) -> (r: Option<&'a ToolConfig>)
    ensures
        match tool_index(config.tools@, tool_name@) {
            None => r is None,
            Some(i) => r == Some(&config.tools@[i].1),
        },
{
    let key = tool_name.to_owned();
    let mut i = config.tools.len();
    assert(config.tools@.subrange(0, i as int) =~= config.tools@);
    while i > 0
        invariant
            i <= config.tools@.len(),
            key@ == tool_name@,
            tool_index(config.tools@.subrange(0, i as int), tool_name@) == tool_index(
                config.tools@,
                tool_name@,
            ),
        decreases i,
    {
        let ghost pre = config.tools@.subrange(0, i as int);
        assert(pre.drop_last() =~= config.tools@.subrange(0, i - 1));
        if config.tools[i - 1].0 == key {
            return Some(&config.tools[i - 1].1);
        }
        i = i - 1;
    }
    None
}

/// Why a tool configuration is refused: an empty command, or no input
/// patterns; `None` when it is accepted.
pub open spec fn tool_config_error(tool_name: Seq<char>, config: ToolConfig) -> Option<Seq<char>> {
    if config.command@.len() == 0 {
        Some("Tool '"@ + tool_name + "' has an empty command"@)
    } else if config.inputs@.len() == 0 {
        Some("Tool '"@ + tool_name + "' has no input patterns"@)
    } else {
        None
    }
}

/// Checks that a tool has a command and at least one input pattern.
pub fn validate_tool_config(tool_name: &str, config: &ToolConfig) -> (r: Result<()>)
    ensures
        match tool_config_error(tool_name@, *config) {
            None => r is Ok,
            Some(m) => (r matches Err(Error::Config { message }) && message@ == m),
        },
{
    if config.command.as_str().is_empty() {
        let mut m = String::from_str("Tool '");
        append_str(&mut m, tool_name);
        append_str(&mut m, "' has an empty command");
        return Err(Error::Config { message: m });
    }
    if config.inputs.len() == 0 {
        let mut m = String::from_str("Tool '");
        append_str(&mut m, tool_name);
        append_str(&mut m, "' has no input patterns");
        return Err(Error::Config { message: m });
    }
    Ok(())
}

} // verus!
