//! Package creation from a template that may be given by its location.

use vstd::prelude::*;
use vstd::string::*;

use crate::text::{all_in_class, all_in_class_exec, chars_of, is_lower, CharClass};

verus! {

/// Why a package could not be created.
#[derive(Debug, Clone, PartialEq, Eq)]
pub enum Error {
    /// The package name breaks the naming rule.
    InvalidPathName,
    /// The template could not be downloaded.
    GetUrl(String),
    /// The download could not be read.
    ReadResponse(String),
    /// The template archive could not be extracted.
    ZipExtract(String),
    /// A template file could not be read.
    ReadFile(String),
    /// A template file could not be written.
    WriteFile(String),
    /// A template directory could not be renamed.
    RenameDir(String),
    /// The template could not be copied into place.
    CopyToDestination(String),
    /// The template directory could not be renamed.
    RenameTemplateDir(String),
    /// No temporary directory could be made.
    TempDir(String),
    /// `npm install` failed.
    NpmInstall(String),
}

/// Where a project template is found and what it calls the package.
#[derive(Debug, Clone, PartialEq, Eq)]
pub struct TemplateInfo {
    pub url: String,
    pub path: String,
    pub placeholder: String,
}

/// The templates a package can start from: the bundled one, or one given
/// by its location.
#[derive(Debug, Clone)]
pub enum Template {
    NodeTypeScript,
    Custom(TemplateInfo),
}

impl Template {
    /// Where this template is found and what it calls the package.
    pub fn info(&self) -> (r: TemplateInfo)
        ensures
            match self {
                Template::NodeTypeScript => r.url@
                    == "https://github.com/xosnrdev/cargo-node/archive/refs/heads/master.zip"@
                    && r.path@ == "templates"@ && r.placeholder@ == "node_typescript"@,
                Template::Custom(info) => r.url@ == info.url@ && r.path@ == info.path@
                    && r.placeholder@ == info.placeholder@,
            },
    {
        match self {
            Template::NodeTypeScript => TemplateInfo {
                url: String::from_str(
                    "https://github.com/xosnrdev/cargo-node/archive/refs/heads/master.zip",
                ),
                path: String::from_str("templates"),
                placeholder: String::from_str("node_typescript"),
            },
            Template::Custom(info) => TemplateInfo {
                url: info.url.clone(),
                path: info.path.clone(),
                placeholder: info.placeholder.clone(),
            },
        }
    }
}

/// What a package is created from.
#[derive(Debug, Clone)]
pub struct Config {
    pub package_name: String,
    pub current_dir: String,
    pub template: Template,
}

/// A package to be created or initialised.
#[derive(Debug, Clone)]
pub struct Package {
    config: Config,
}

impl Package {
    /// The package's configuration.
    pub closed spec fn config_spec(&self) -> Config {
        self.config
    }

    /// A package created from `config`.
    pub fn new(config: Config) -> (r: Self)
        ensures
            r.config_spec() == config,
    {
        Package { config }
    }

    /// The package's configuration.
    pub fn config(&self) -> (r: &Config)
        ensures
            *r == self.config_spec(),
    {
        &self.config
    }
}

/// The naming rule of packages here: not empty, lowercase ASCII letters,
/// `-` and `_` only, starting with a letter.
pub open spec fn path_name_ok(name: Seq<char>) -> bool {
    &&& name.len() > 0
    &&& all_in_class(name, 0, name.len() as int, CharClass::LowerDashUnderscore)
    &&& is_lower(name[0])
}

/// Checks `name` against the naming rule of packages.
pub fn validate_package_name(name: &str) -> (r: Result<(), Error>)
    ensures
        path_name_ok(name@) ==> r is Ok,
        !path_name_ok(name@) ==> r == Err::<(), Error>(Error::InvalidPathName),
{
    let v = chars_of(name);
    let n = v.len();
    if n > 0 && all_in_class_exec(&v, 0, n, CharClass::LowerDashUnderscore) && 'a' <= v[0] && v[0]
        <= 'z' {
        Ok(())
    } else {
        Err(Error::InvalidPathName)
    }
}

} // verus!
