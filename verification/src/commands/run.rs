//! The decisions of a tool run made before the tool starts: which
//! configuration applies, and where the tool runs.

use vstd::prelude::*;
use vstd::string::*;

use crate::config::{get_tool_config, tool_config_error, tool_index, validate_tool_config, CargonodeConfig, ToolConfig};
use crate::error::Error;
use crate::fs_query::{path_exists, path_is_dir};
use crate::paths::{join, join_path};
use crate::text::append_str;
use crate::Result;

verus! {

/// Options for running a tool.
#[derive(Debug, Clone)]
pub struct RunOptions {
    /// Project directory
    pub project_dir: String,
    /// Whether to force execution even if cached
    pub force: bool,
    /// Whether to print verbose output
    pub verbose: bool,
}

/// The configuration of tool `tool_name`, once it is found and accepted:
/// refused when it is not declared, or when its declaration has no
/// command or no input pattern.
pub fn tool_for_run<'a>(tool_name: &str, config: &'a CargonodeConfig) -> (r: Result<&'a ToolConfig>)
    ensures
        match tool_index(config.tools@, tool_name@) {
            None => (r matches Err(Error::Config { message }) && message@ == "Tool '"@ + tool_name@
                + "' not found in configuration"@),
            Some(i) => match tool_config_error(tool_name@, config.tools@[i].1) {
                None => r == Ok::<&ToolConfig, Error>(&config.tools@[i].1),
                Some(m) => (r matches Err(Error::Config { message }) && message@ == m),
            },
        },
{
    match get_tool_config(config, tool_name) {
        None => {
            let mut m = String::from_str("Tool '");
            append_str(&mut m, tool_name);
            append_str(&mut m, "' not found in configuration");
            Err(Error::Config { message: m })
        },
        Some(t) => match validate_tool_config(tool_name, t) {
            Ok(()) => Ok(t),
            Err(e) => Err(e),
        },
    }
}

/// The directory a tool runs in: its working directory joined onto the
/// project directory, or the project directory itself.
pub open spec fn tool_dir(project_dir: Seq<char>, tool: ToolConfig) -> Seq<char> {
    match tool.working_dir {
        Some(d) => join_path(project_dir, d@),
        None => project_dir,
    }
}

/// Judges the directory a tool runs in, given whether it exists and is a
/// directory.
pub fn working_dir_verdict(tool_name: &str, dir: String, exists: bool, is_dir: bool) -> (r: Result<String>)
    ensures
        !exists ==> (r matches Err(Error::Config { message }) && message@ == "Working directory '"@
            + dir@ + "' for tool '"@ + tool_name@ + "' does not exist"@),
        exists && !is_dir ==> (r matches Err(Error::Config { message }) && message@
            == "Working directory '"@ + dir@ + "' for tool '"@ + tool_name@ + "' is not a directory"@),
        exists && is_dir ==> (r matches Ok(d) && d@ == dir@),
{
    if !exists {
        let mut m = String::from_str("Working directory '");
        append_str(&mut m, dir.as_str());
        append_str(&mut m, "' for tool '");
        append_str(&mut m, tool_name);
        append_str(&mut m, "' does not exist");
        return Err(Error::Config { message: m });
    }
    if !is_dir {
        let mut m = String::from_str("Working directory '");
        append_str(&mut m, dir.as_str());
        append_str(&mut m, "' for tool '");
        append_str(&mut m, tool_name);
        append_str(&mut m, "' is not a directory");
        return Err(Error::Config { message: m });
    }
    Ok(dir)
}

/// The directory tool `tool_name` runs in, checked on the disk.
pub fn resolve_working_dir(tool_name: &str, tool: &ToolConfig, project_dir: &str) -> (r: Result<String>)
    ensures
        r matches Ok(d) ==> d@ == tool_dir(project_dir@, *tool),
        r matches Err(e) ==> (e matches Error::Config { message } && (message@ == "Working directory '"@
            + tool_dir(project_dir@, *tool) + "' for tool '"@ + tool_name@ + "' does not exist"@
            || message@ == "Working directory '"@ + tool_dir(project_dir@, *tool) + "' for tool '"@
            + tool_name@ + "' is not a directory"@)),
{
    let dir = match &tool.working_dir {
        Some(d) => join(project_dir, d.as_str()),
        None => project_dir.to_owned(),
    };
    let exists = path_exists(dir.as_str());
    let is_dir = if exists {
        path_is_dir(dir.as_str())
    } else {
        false
    };
    working_dir_verdict(tool_name, dir, exists, is_dir)
}

} // verus!
