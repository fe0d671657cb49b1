//! Package creation from a downloaded template: the template's location,
//! the naming rule of packages, and the text edits made to the template.

use vstd::prelude::*;
use vstd::string::*;

use crate::paths::{file_name, file_name_of};
use crate::text::{
    all_in_class, all_in_class_exec, chars_of, copy_chars, in_class, is_lower, replace_all, replace_str,
    string_from_chars, CharClass,
};

verus! {

/// Why a package could not be created.
#[derive(Debug, Clone, PartialEq, Eq)]
pub enum Error {
    /// A file operation failed: what was being done, and the system's message.
    Io { context: String, message: String },
    /// The package name breaks the naming rule.
    InvalidPackageName,
    /// The template could not be downloaded.
    GetUrl(String),
    /// The template archive could not be extracted.
    ZipExtract(String),
    /// The template could not be copied into place.
    CopyToDestination(String),
    /// A command failed.
    Command(String),
}

/// Where a project template is found and what it calls the package.
#[derive(Debug, Clone, Copy)]
pub struct TemplateInfo {
    pub url: &'static str,
    pub path: &'static str,
    pub placeholder: &'static str,
}

/// The templates a package can start from.
#[derive(Debug, Clone, Copy, PartialEq, Eq, Structural)]
pub enum Template {
    NodeTypeScript,
}

impl Template {
    /// Where this template is found and what it calls the package.
    pub fn info(&self) -> (r: TemplateInfo)
        ensures
            r.url@ == "https://github.com/xosnrdev/cargonode/archive/refs/heads/master.zip"@,
            r.path@ == "templates"@,
            r.placeholder@ == "node_typescript"@,
    {
        match self {
            Template::NodeTypeScript => TemplateInfo {
                url: "https://github.com/xosnrdev/cargonode/archive/refs/heads/master.zip",
                path: "templates",
                placeholder: "node_typescript",
            },
        }
    }
}

/// What a package is created from.
#[derive(Debug, Clone)]
pub struct Config {
    pub package_name: String,
    pub current_dir: String,
    pub template: Template,
}

/// A package to be created or initialised.
#[derive(Debug, Clone)]
pub struct Package {
    config: Config,
}

impl Package {
    /// The package's configuration.
    pub closed spec fn config_spec(&self) -> Config {
        self.config
    }

    /// A package created from `config`.
    pub fn new(config: Config) -> (r: Self)
        ensures
            r.config_spec() == config,
    {
        Package { config }
    }

    /// The package's configuration.
    pub fn config(&self) -> (r: &Config)
        ensures
            *r == self.config_spec(),
    {
        &self.config
    }
}

/// The naming rule of packages: not empty, lowercase ASCII letters, `-`
/// and `_` only, starting with a letter, not ending with `-` or `_`.
pub open spec fn package_name_ok(name: Seq<char>) -> bool {
    &&& name.len() > 0
    &&& all_in_class(name, 0, name.len() as int, CharClass::LowerDashUnderscore)
    &&& is_lower(name[0])
    &&& name.last() != '-' && name.last() != '_'
}

/// Checks `name` against the naming rule of packages.
pub fn validate_package_name(name: &str) -> (r: Result<(), Error>)
    ensures
        package_name_ok(name@) ==> r is Ok,
        !package_name_ok(name@) ==> r == Err::<(), Error>(Error::InvalidPackageName),
{
    let v = chars_of(name);
    let n = v.len();
    if n > 0 && all_in_class_exec(&v, 0, n, CharClass::LowerDashUnderscore) && 'a' <= v[0] && v[0]
        <= 'z' && v[n - 1] != '-' && v[n - 1] != '_' {
        Ok(())
    } else {
        Err(Error::InvalidPackageName)
    }
}

/// `rep` inserted before every character of `s` and at its end (what
/// `str::replace` does with an empty pattern).
pub open spec fn insert_everywhere(s: Seq<char>, rep: Seq<char>) -> Seq<char>
    decreases s.len(),
{
    if s.len() == 0 {
        rep
    } else {
        rep + seq![s[0]] + insert_everywhere(s.skip(1), rep)
    }
}

/// The rule of `str::replace`: every non-overlapping occurrence of `pat`
/// replaced by `rep`, an empty `pat` occurring at every character
/// boundary.
pub open spec fn str_replace(s: Seq<char>, pat: Seq<char>, rep: Seq<char>) -> Seq<char> {
    if pat.len() == 0 {
        insert_everywhere(s, rep)
    } else {
        replace_all(s, pat, rep)
    }
}

/// `s` with `rep` inserted before every character and at the end.
fn insert_everywhere_exec(s: &Vec<char>, rep: &Vec<char>) -> (r: Vec<char>)
    ensures
        r@ == insert_everywhere(s@, rep@),
{
    let mut out: Vec<char> = Vec::new();
    let mut i: usize = 0;
    assert(s@.skip(0) =~= s@);
    assert(out@ + insert_everywhere(s@, rep@) =~= insert_everywhere(s@, rep@));
    while i < s.len()
        invariant
            i <= s@.len(),
            out@ + insert_everywhere(s@.skip(i as int), rep@) == insert_everywhere(s@, rep@),
        decreases s@.len() - i,
    {
        let ghost rest = s@.skip(i as int);
        assert(rest[0] == s@[i as int]);
        assert(rest.skip(1) =~= s@.skip(i + 1));
        let ghost before = out@;
        let mut piece = copy_chars(rep);
        out.append(&mut piece);
        out.push(s[i]);
        assert(out@ =~= before + rep@ + seq![s@[i as int]]);
        assert(before + insert_everywhere(rest, rep@) =~= out@ + insert_everywhere(s@.skip(i + 1), rep@));
        i = i + 1;
    }
    assert(s@.skip(i as int) =~= Seq::<char>::empty());
    let ghost before = out@;
    let mut piece = copy_chars(rep);
    out.append(&mut piece);
    assert(out@ =~= before + rep@);
    out
}

/// `content` with every occurrence of the template's placeholder replaced
/// by the package name (the edit made to each template file, and to each
/// directory name when creating a new package), by the rule of
/// `str::replace`.
pub fn replace_content(content: &str, placeholder: &str, package_name: &str) -> (r: String)
    ensures
        r@ == str_replace(content@, placeholder@, package_name@),
{
    let v = chars_of(content);
    let p = chars_of(placeholder);
    let n = chars_of(package_name);
    if p.len() == 0 {
        string_from_chars(&insert_everywhere_exec(&v, &n))
    } else {
        string_from_chars(&replace_str(&v, &p, &n))
    }
}

/// The name of the directory `current_dir`, which must have one.
pub fn get_current_dir_name(current_dir: &str) -> (r: String)
    requires
        file_name_of(current_dir@) is Some,
    ensures
        file_name_of(current_dir@) == Some(r@),
{
    match file_name(current_dir) {
        Some(n) => n,
        None => String::new(),
    }
}

} // verus!
