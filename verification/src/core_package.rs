//! The options of a package to be created, with their builder setters.

use vstd::prelude::*;
use vstd::string::*;

use crate::paths::{file_name, file_name_of};

verus! {

/// Workspace configuration options.
#[derive(Debug, Clone)]
pub struct WorkspaceConfig {
    /// Custom patterns for workspace packages
    pub patterns: Vec<String>,
    /// Whether to inherit scripts from root
    pub inherit_scripts: bool,
    /// Whether to hoist dependencies to root
    pub hoist_dependencies: bool,
}

impl Default for WorkspaceConfig {
    /// Packages under `packages/*`, with scripts inherited and
    /// dependencies hoisted.
    fn default() -> (r: Self)
        ensures
            r.patterns@.len() == 1,
            r.patterns@[0]@ == "packages/*"@,
            r.inherit_scripts,
            r.hoist_dependencies,
    {
        let mut patterns: Vec<String> = Vec::new();
        patterns.push(String::from_str("packages/*"));
        WorkspaceConfig { patterns, inherit_scripts: true, hoist_dependencies: true }
    }
}

/// Package type.
#[derive(Debug, Clone, Copy, PartialEq, Eq, Structural)]
pub enum PackageType {
    Binary,
    Library,
}

/// Version control configuration.
#[derive(Debug, Clone, Copy, PartialEq, Eq, Structural)]
pub enum VcsConfig {
    Enabled,
    Disabled,
}

/// Source language.
#[derive(Debug, Clone, Copy, PartialEq, Eq, Structural)]
pub enum Language {
    JavaScript,
    TypeScript,
}

/// Options for creating a new package.
#[derive(Debug, Clone)]
pub struct PackageOptions {
    /// Path where the package will be created
    pub path: String,
    /// Package type (binary or library)
    pub package_type: PackageType,
    /// Version control system configuration
    pub vcs: VcsConfig,
    /// Package name (defaults to directory name)
    pub name: Option<String>,
    /// Package description
    pub description: Option<String>,
    /// Package author
    pub author: Option<String>,
    /// Whether this is a workspace package
    pub workspace: bool,
    /// Language configuration
    pub language: Language,
    /// Workspace configuration
    pub workspace_config: Option<WorkspaceConfig>,
}

/// The fields of two option sets other than the one a setter changes.
pub open spec fn same_except_type(a: PackageOptions, b: PackageOptions) -> bool {
    a.path == b.path && a.vcs == b.vcs && a.name == b.name && a.description == b.description
        && a.author == b.author && a.workspace == b.workspace && a.language == b.language
        && a.workspace_config == b.workspace_config
}

impl PackageOptions {
    /// Options for a binary JavaScript package at `path`, with version
    /// control, no workspace and nothing else set.
    pub fn new(path: &str) -> (r: Self)
        ensures
            r.path@ == path@,
            r.package_type == PackageType::Binary,
            r.vcs == VcsConfig::Enabled,
            r.name is None,
            r.description is None,
            r.author is None,
            !r.workspace,
            r.language == Language::JavaScript,
            r.workspace_config is None,
    {
        PackageOptions {
            path: path.to_owned(),
            package_type: PackageType::Binary,
            vcs: VcsConfig::Enabled,
            name: None,
            description: None,
            author: None,
            workspace: false,
            language: Language::JavaScript,
            workspace_config: None,
        }
    }

    /// Makes the package a binary one (or a library one when `bin` is false).
    pub fn set_bin(&mut self, bin: bool) -> (r: &mut Self)
        ensures
            r.package_type == (if bin {
                PackageType::Binary
            } else {
                PackageType::Library
            }),
            same_except_type(*r, *old(self)),
            *final(self) == *final(r),
    {
        self.package_type = if bin {
            PackageType::Binary
        } else {
            PackageType::Library
        };
        self
    }

    /// Makes the package a library one (or a binary one when `lib` is false).
    pub fn set_lib(&mut self, lib: bool) -> (r: &mut Self)
        ensures
            r.package_type == (if lib {
                PackageType::Library
            } else {
                PackageType::Binary
            }),
            same_except_type(*r, *old(self)),
            *final(self) == *final(r),
    {
        self.package_type = if lib {
            PackageType::Library
        } else {
            PackageType::Binary
        };
        self
    }

    /// Turns version control on or off.
    pub fn set_vcs(&mut self, vcs: bool) -> (r: &mut Self)
        ensures
            *r == (PackageOptions {
                vcs: if vcs {
                    VcsConfig::Enabled
                } else {
                    VcsConfig::Disabled
                },
                ..*old(self)
            }),
            *final(self) == *final(r),
    {
        self.vcs = if vcs {
            VcsConfig::Enabled
        } else {
            VcsConfig::Disabled
        };
        self
    }

    /// Chooses TypeScript (or JavaScript when `typescript` is false).
    pub fn set_typescript(&mut self, typescript: bool) -> (r: &mut Self)
        ensures
            *r == (PackageOptions {
                language: if typescript {
                    Language::TypeScript
                } else {
                    Language::JavaScript
                },
                ..*old(self)
            }),
            *final(self) == *final(r),
    {
        self.language = if typescript {
            Language::TypeScript
        } else {
            Language::JavaScript
        };
        self
    }

    /// Sets the workspace configuration.
    pub fn set_workspace_config(&mut self, config: WorkspaceConfig) -> (r: &mut Self)
        ensures
            *r == (PackageOptions { workspace_config: Some(config), ..*old(self) }),
            *final(self) == *final(r),
    {
        self.workspace_config = Some(config);
        self
    }

    /// The name the package gets: the one set, else the last component of
    /// its path, else `package`.
    pub open spec fn package_name_spec(&self) -> Seq<char> {
        match self.name {
            Some(n) => n@,
            None => match file_name_of(self.path@) {
                Some(f) => f,
                None => "package"@,
            },
        }
    }

    /// The name the package gets: the one set, else the last component of
    /// its path, else `package`.
    pub fn package_name(&self) -> (r: String)
        ensures
            r@ == self.package_name_spec(),
    {
        match &self.name {
            Some(n) => n.clone(),
            None => match file_name(self.path.as_str()) {
                Some(f) => f,
                None => String::from_str("package"),
            },
        }
    }

    /// Whether the package is a binary one.
    pub fn is_bin(&self) -> (b: bool)
        ensures
            b == (self.package_type == PackageType::Binary),
    {
        self.package_type == PackageType::Binary
    }

    /// Whether the package is a library one.
    pub fn is_lib(&self) -> (b: bool)
        ensures
            b == (self.package_type == PackageType::Library),
    {
        self.package_type == PackageType::Library
    }

    /// Whether the package is written in TypeScript.
    pub fn is_typescript(&self) -> (b: bool)
        ensures
            b == (self.language == Language::TypeScript),
    {
        self.language == Language::TypeScript
    }

    /// Whether version control is on.
    pub fn vcs_enabled(&self) -> (b: bool)
        ensures
            b == (self.vcs == VcsConfig::Enabled),
    {
        self.vcs == VcsConfig::Enabled
    }
}

} // verus!
