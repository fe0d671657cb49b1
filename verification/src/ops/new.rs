//! The source file a new package starts with, by language and kind.

use vstd::prelude::*;
use vstd::string::*;

use crate::core_package::{Language, PackageOptions, PackageType, WorkspaceConfig};
use crate::integration::strs;
use crate::paths::{join, join_path};
use crate::text::{chars_of, ends_with, replace_all, replace_str, string_from_chars, string_from_range};
use crate::util::fs::{dir_package_name, get_package_name};
use crate::cn_core::path::{parent_dir, parent_of};
use crate::fs_query::{dir_has_entries, path_exists, path_is_symlink};
use crate::paths::{components_of, slash};
use crate::text::split;
use crate::ops::init::{init_write_fits, package_writes, InitWrite};

verus! {

/// The source templates of a new package.
#[derive(Debug, Clone, Copy, PartialEq, Eq, Structural)]
pub enum TemplateType {
    Binary,
    Library,
    TypeScriptBinary,
    TypeScriptLibrary,
}

/// The entry script of a JavaScript binary.
pub const BIN_TEMPLATE: &'static str = "#!/usr/bin/env node\n'use strict';\n\nconsole.log('Hello, world!');";

/// The entry script of a TypeScript binary.
pub const BIN_TS_TEMPLATE: &'static str = "#!/usr/bin/env node\n'use strict';\n\nconsole.log('Hello, world!');";

/// The module of a JavaScript library, with a first test.
pub const LIB_TEMPLATE: &'static str = "'use strict';\n\n/**\n * @module my-package\n */\n\nexport default {};\n\n// Basic test included\nimport { test } from 'node:test';\nimport assert from 'node:assert';\n\ntest('my-package', (t) => {\n    assert.ok(true, 'should pass');\n});";

/// The module of a TypeScript library, with a first test.
pub const LIB_TS_TEMPLATE: &'static str = "/**\n * @module my-package\n */\n\nexport interface PackageOptions {\n    name: string;\n    version: string;\n}\n\nexport default class Package {\n    constructor(options: PackageOptions) {\n        // Implementation\n    }\n}\n\n// Basic test included\nimport { test } from 'node:test';\nimport assert from 'node:assert';\n\ntest('my-package', async (t) => {\n    assert.ok(true, 'should pass');\n});";

/// The template for a package in TypeScript or not, library or not.
pub open spec fn package_template(is_typescript: bool, is_lib: bool) -> TemplateType {
    if is_typescript {
        if is_lib {
            TemplateType::TypeScriptLibrary
        } else {
            TemplateType::TypeScriptBinary
        }
    } else if is_lib {
        TemplateType::Library
    } else {
        TemplateType::Binary
    }
}

/// The template for a package in TypeScript or not, library or not.
pub fn get_package_template(is_typescript: bool, is_lib: bool) -> (r: TemplateType)
    ensures
        r == package_template(is_typescript, is_lib),
{
    if is_typescript {
        if is_lib {
            TemplateType::TypeScriptLibrary
        } else {
            TemplateType::TypeScriptBinary
        }
    } else if is_lib {
        TemplateType::Library
    } else {
        TemplateType::Binary
    }
}

/// The source text of a template.
pub open spec fn template_text(template_type: TemplateType) -> Seq<char> {
    match template_type {
        TemplateType::Binary => BIN_TEMPLATE@,
        TemplateType::Library => LIB_TEMPLATE@,
        TemplateType::TypeScriptBinary => BIN_TS_TEMPLATE@,
        TemplateType::TypeScriptLibrary => LIB_TS_TEMPLATE@,
    }
}

/// The source text of a template.
pub fn get_template(template_type: TemplateType) -> (r: &'static str)
    ensures
        r@ == template_text(template_type),
{
    match template_type {
        TemplateType::Binary => BIN_TEMPLATE,
        TemplateType::Library => LIB_TEMPLATE,
        TemplateType::TypeScriptBinary => BIN_TS_TEMPLATE,
        TemplateType::TypeScriptLibrary => LIB_TS_TEMPLATE,
    }
}


/// The TypeScript compiler settings of a TypeScript package.
pub const TSCONFIG_TEMPLATE: &'static str = "{\n  \"compilerOptions\": {\n    \"target\": \"ES2022\",\n    \"module\": \"NodeNext\",\n    \"moduleResolution\": \"NodeNext\",\n    \"declaration\": true,\n    \"declarationMap\": true,\n    \"sourceMap\": true,\n    \"outDir\": \"./dist\",\n    \"strict\": true,\n    \"esModuleInterop\": true,\n    \"skipLibCheck\": true,\n    \"forceConsistentCasingInFileNames\": true\n  },\n  \"include\": [\"src/**/*\"],\n  \"exclude\": [\"node_modules\", \"dist\", \"**/*.test.ts\"]\n}";

/// The ignore file of a new package's repository.
pub const GITIGNORE_TEMPLATE: &'static str = "# Dependencies\nnode_modules/\npackage-lock.json\nyarn.lock\npnpm-lock.yaml\n\n# Build output\ndist/\nbuild/\n*.tsbuildinfo\n\n# Logs\nlogs/\n*.log\nnpm-debug.log*\nyarn-debug.log*\nyarn-error.log*\n\n# Test coverage\ncoverage/\n.nyc_output/\n\n# IDE\n.idea/\n.vscode/\n*.swp\n*.swo\n\n# OS\n.DS_Store\nThumbs.db\n";

/// The ignore file of a new package's publication.
pub const NPMIGNORE_TEMPLATE: &'static str = "# Source\nsrc/\ntests/\n**/*.test.ts\n**/*.test.js\n\n# Config files\ntsconfig.json\n.eslintrc*\n.prettier*\n.editorconfig\n.github/\n.vscode/\n\n# Logs\nlogs/\n*.log\n\n# Dependencies\nnode_modules/\n\n# Build artifacts\ncoverage/\n.nyc_output/\n";

/// The README of a new package, with `{name}` and `{description}` to fill.
pub const README_TEMPLATE: &'static str = "# {name}\n\n## Description\n\n{description}\n\n## Installation\n\n```bash\nnpm install {name}\n```\n\n## Usage\n\n```javascript\n// For libraries\nimport pkg from '{name}';\n\n// For binaries\nnpx {name}\n```\n\n## License\n\nISC\n";

/// The name a package is created under: the one set, else the name of its
/// directory (see `get_package_name`).
pub open spec fn created_name(opts: PackageOptions) -> Seq<char> {
    match opts.name {
        Some(n) => n@,
        None => dir_package_name(opts.path@),
    }
}

/// The manifest written first when a package is created or initialised.
#[derive(Debug, Clone)]
pub struct RootManifest {
    pub name: String,
    pub version: &'static str,
    pub description: &'static str,
    pub main: &'static str,
    pub module_type: &'static str,
    /// Script name and command, in order.
    pub scripts: Vec<(String, String)>,
    /// The workspace patterns, for a workspace.
    pub workspaces: Option<Vec<String>>,
    /// For a workspace: whether scripts are inherited, and whether every
    /// dependency is kept out of hoisting (`nohoist: ["**"]`).
    pub workspace_config: Option<(bool, bool)>,
}

/// `r` is the first manifest of a package with options `opts` (see
/// `root_manifest`).
pub open spec fn root_manifest_fits(opts: PackageOptions, r: RootManifest) -> bool {
    &&& (r.name@ == created_name(opts))
    &&& (r.version@ == "0.1.0"@)
    &&& (r.description@ == "A new Node.js package"@)
    &&& (r.main@ == (if opts.package_type == PackageType::Library {
            "lib.js"@
        } else {
            "index.js"@
        }))
    &&& (r.module_type@ == "module"@)
    &&& (r.scripts@.len() == 1 && r.scripts@[0].0@ == "test"@ && r.scripts@[0].1@ == "node --test"@)
    &&& (!opts.workspace ==> r.workspaces is None && r.workspace_config is None)
    &&& (opts.workspace ==> match opts.workspace_config {
            Some(w) => (r.workspaces matches Some(p) && strs(p@) == strs(w.patterns@))
                && r.workspace_config == (if w.inherit_scripts || !w.hoist_dependencies {
                Some((w.inherit_scripts, !w.hoist_dependencies))
            } else {
                None
            }),
            None => (r.workspaces matches Some(p) && strs(p@) == seq!["packages/*"@])
                && r.workspace_config == Some((true, false)),
        })
}

/// The first manifest of a package: its name, version 0.1.0, a default
/// description, `lib.js` or `index.js` as entry, ES modules, a `test`
/// script; for a workspace, its patterns and, when scripts are inherited
/// or dependencies not hoisted, those two settings.
pub fn root_manifest(opts: &PackageOptions) -> (r: RootManifest)
    ensures
        root_manifest_fits(*opts, r),
{
    let name = match &opts.name {
        Some(n) => n.clone(),
        None => get_package_name(opts.path.as_str()),
    };
    let mut scripts: Vec<(String, String)> = Vec::new();
    scripts.push((String::from_str("test"), String::from_str("node --test")));
    let (workspaces, workspace_config) = if opts.workspace {
        let w = match &opts.workspace_config {
            Some(w) => WorkspaceConfig {
                patterns: crate::integration::copy_strings(&w.patterns),
                inherit_scripts: w.inherit_scripts,
                hoist_dependencies: w.hoist_dependencies,
            },
            None => WorkspaceConfig::default(),
        };
        proof {
            if opts.workspace_config is None {
                assert(strs(w.patterns@) =~= seq!["packages/*"@]);
            }
        }
        let settings = if w.inherit_scripts || !w.hoist_dependencies {
            Some((w.inherit_scripts, !w.hoist_dependencies))
        } else {
            None
        };
        (Some(w.patterns), settings)
    } else {
        (None, None)
    };
    RootManifest {
        name,
        version: "0.1.0",
        description: "A new Node.js package",
        main: if opts.package_type == PackageType::Library {
            "lib.js"
        } else {
            "index.js"
        },
        module_type: "module",
        scripts,
        workspaces,
        workspace_config,
    }
}

/// The directories a workspace pattern asks for: the pattern without its
/// `/*` ending, joined onto the package path; none for other patterns.
pub open spec fn pattern_dir(path: Seq<char>, pattern: Seq<char>) -> Option<Seq<char>> {
    if ends_with(pattern, "/*"@) && pattern.len() >= 2 {
        Some(join_path(path, pattern.subrange(0, pattern.len() - 2)))
    } else {
        None
    }
}

/// The directory that workspace pattern `pattern` asks for under `path`,
/// if any.
pub fn workspace_dir(path: &str, pattern: &str) -> (r: Option<String>)
    ensures
        match pattern_dir(path@, pattern@) {
            Some(d) => (r matches Some(s) && s@ == d),
            None => r is None,
        },
{
    let v = chars_of(pattern);
    let n = v.len();
    proof {
        reveal_strlit("/*");
    }
    if n >= 2 && v[n - 2] == '/' && v[n - 1] == '*' {
        assert(v@.subrange(n - 2, n as int) =~= "/*"@);
        let dir = string_from_range(&v, 0, n - 2);
        Some(join(path, dir.as_str()))
    } else {
        assert(!ends_with(v@, "/*"@) || v@.len() < 2) by {
            if v@.len() >= 2 && ends_with(v@, "/*"@) {
                assert(v@.subrange(n - 2, n as int)[0] == v@[n - 2]);
                assert(v@.subrange(n - 2, n as int)[1] == v@[n - 1]);
            }
        }
        None
    }
}

/// The file extension of sources in the package's language.
pub open spec fn source_ext(opts: PackageOptions) -> Seq<char> {
    if opts.language == Language::TypeScript {
        "ts"@
    } else {
        "js"@
    }
}

/// The path of the package's source file, relative to the package:
/// `src/lib.<ext>` for a library, `src/main.<ext>` otherwise.
pub open spec fn source_path(opts: PackageOptions) -> Seq<char> {
    (if opts.package_type == PackageType::Library {
        "src/lib."@
    } else {
        "src/main."@
    }) + source_ext(opts)
}

/// The README of a package named `name` with the given description.
pub open spec fn readme_text(name: Seq<char>, description: Seq<char>) -> Seq<char> {
    replace_all(replace_all(README_TEMPLATE@, "{name}"@, name), "{description}"@, description)
}

/// The README of the package: its name and description (a default one
/// when none is set) filled in.
pub fn readme_content(opts: &PackageOptions) -> (r: String)
    ensures
        r@ == readme_text(
            opts.package_name_spec(),
            match opts.description {
                Some(d) => d@,
                None => "A new Node.js package"@,
            },
        ),
{
    let name = opts.package_name();
    let description = match &opts.description {
        Some(d) => d.clone(),
        None => String::from_str("A new Node.js package"),
    };
    let t = chars_of(README_TEMPLATE);
    let name_pat = chars_of("{name}");
    let desc_pat = chars_of("{description}");
    proof {
        reveal_strlit("{name}");
        reveal_strlit("{description}");
    }
    let once = replace_str(&t, &name_pat, &chars_of(name.as_str()));
    let twice = replace_str(&once, &desc_pat, &chars_of(description.as_str()));
    string_from_chars(&twice)
}

/// `r` are the files of a new package with options `opts`, path and
/// content (see `source_files`).
pub open spec fn source_files_fit(opts: PackageOptions, r: Vec<(String, String)>) -> bool {
    &&& (r@.len() == (if opts.language == Language::TypeScript {
            5nat
        } else {
            4nat
        }))
    &&& (r@[0].0@ == source_path(opts))
    &&& (r@[0].1@ == template_text(package_template(
            opts.language == Language::TypeScript,
            opts.package_type == PackageType::Library,
        )))
    &&& (r@[1].0@ == ".gitignore"@ && r@[1].1@ == GITIGNORE_TEMPLATE@)
    &&& (r@[2].0@ == ".npmignore"@ && r@[2].1@ == NPMIGNORE_TEMPLATE@)
    &&& (opts.language == Language::TypeScript ==> r@[3].0@ == "tsconfig.json"@ && r@[3].1@
            == TSCONFIG_TEMPLATE@)
    &&& (r@[r@.len() - 1].0@ == "README.md"@)
    &&& (r@[r@.len() - 1].1@ == readme_text(
            opts.package_name_spec(),
            match opts.description {
                Some(d) => d@,
                None => "A new Node.js package"@,
            },
        ))
}

/// The files a package starts with, as (path relative to the package,
/// content), in the order they are written after the manifest: the source
/// file, `.gitignore`, `.npmignore`, `tsconfig.json` for TypeScript, and
/// the README.
pub fn source_files(opts: &PackageOptions) -> (r: Vec<(String, String)>)
    ensures
        source_files_fit(*opts, r),
{
    let ts = opts.language == Language::TypeScript;
    let lib = opts.package_type == PackageType::Library;
    let template = get_template(get_package_template(ts, lib));
    let mut path = String::from_str(if lib { "src/lib." } else { "src/main." });
    crate::text::append_str(&mut path, if ts { "ts" } else { "js" });
    let mut files: Vec<(String, String)> = Vec::new();
    files.push((path, template.to_owned()));
    files.push((String::from_str(".gitignore"), String::from_str(GITIGNORE_TEMPLATE)));
    files.push((String::from_str(".npmignore"), String::from_str(NPMIGNORE_TEMPLATE)));
    if ts {
        files.push((String::from_str("tsconfig.json"), String::from_str(TSCONFIG_TEMPLATE)));
    }
    files.push((String::from_str("README.md"), readme_content(opts)));
    files
}


/// The manifest of a package's structure (before scripts inherited from a
/// workspace root are added).
#[derive(Debug, Clone)]
pub struct PackageManifest {
    pub name: String,
    pub version: &'static str,
    pub description: String,
    /// The entry point: the text of the package's source template.
    pub main: String,
    pub module_type: &'static str,
    /// Script name and command, in order.
    pub scripts: Vec<(String, String)>,
    pub author: String,
    pub license: &'static str,
    /// For TypeScript: the development dependencies, name and version.
    pub dev_dependencies: Option<Vec<(String, String)>>,
    /// For TypeScript: the declaration file.
    pub types: Option<&'static str>,
    /// For a binary: the command name and what it runs.
    pub bin: Option<(String, String)>,
    /// For a library: what `import` of the package loads, and its types.
    pub exports: Option<(String, String)>,
}

/// `s` with spaces turned into `-`.
pub open spec fn dashed(s: Seq<char>) -> Seq<char> {
    replace_all(s, " "@, "-"@)
}

/// The scripts of a package: `test`, and for TypeScript `build`, `dev`,
/// `clean` and `prepublishOnly`.
pub open spec fn package_scripts(ts: bool) -> Seq<(Seq<char>, Seq<char>)> {
    if ts {
        seq![
            ("test"@, "node --test"@),
            ("build"@, "tsc"@),
            ("dev"@, "tsc --watch"@),
            ("clean"@, "rimraf dist"@),
            ("prepublishOnly"@, "npm run clean && npm run build"@),
        ]
    } else {
        seq![("test"@, "node --test"@)]
    }
}

fn pair(a: &str, b: &str) -> (r: (String, String))
    ensures
        r.0@ == a@ && r.1@ == b@,
{
    (a.to_owned(), b.to_owned())
}

/// `r` is the manifest of a new package with options `opts` (see
/// `package_manifest`).
pub open spec fn package_manifest_fits(opts: PackageOptions, r: PackageManifest) -> bool {
    &&& (r.name@ == dashed(opts.package_name_spec()))
    &&& (r.version@ == "0.1.0"@)
    &&& (r.description@ == (match opts.description {
            Some(d) => d@,
            None => ""@,
        }))
    &&& (r.main@ == template_text(
            package_template(opts.language == Language::TypeScript, opts.package_type == PackageType::Library),
        ))
    &&& (r.module_type@ == "module"@)
    &&& (crate::integration::pairs(r.scripts@) == package_scripts(opts.language == Language::TypeScript))
    &&& (r.author@ == (match opts.author {
            Some(a) => a@,
            None => ""@,
        }))
    &&& (r.license@ == "ISC"@)
    &&& ((opts.language == Language::TypeScript) == (r.types is Some))
    &&& ((opts.language == Language::TypeScript) == (r.dev_dependencies is Some))
    &&& (r.types matches Some(t) ==> t@ == "dist/lib.d.ts"@)
    &&& (r.dev_dependencies matches Some(d) ==> crate::integration::pairs(d@) == seq![
            ("typescript"@, "^5.0.0"@),
            ("@types/node"@, "^20.0.0"@),
            ("rimraf"@, "^5.0.0"@),
        ])
    &&& ((opts.package_type == PackageType::Library) == (r.bin is None))
    &&& (r.bin matches Some(b) ==> b.0@ == opts.package_name_spec() && b.1@ == r.main@)
    &&& ((opts.package_type == PackageType::Library) == (r.exports is Some))
    &&& (r.exports matches Some(e) ==> if opts.language == Language::TypeScript {
            e.0@ == "./dist/lib.js"@ && e.1@ == "./dist/lib.d.ts"@
        } else {
            e.0@ == r.main@ && e.1@ == "./types/lib.d.ts"@
        })
}

/// The manifest of the package's structure: its name with spaces as `-`,
/// version 0.1.0, its description and author (empty when unset), the
/// template source as entry point, ES modules, the scripts, the ISC
/// licence; for TypeScript the compiler and its declarations; a binary
/// gets a command named after the package, a library its exports.
pub fn package_manifest(opts: &PackageOptions) -> (r: PackageManifest)
    ensures
        package_manifest_fits(*opts, r),
{
    let ts = opts.language == Language::TypeScript;
    let lib = opts.package_type == PackageType::Library;
    let template = get_template(get_package_template(ts, lib));
    let package_name = opts.package_name();
    proof {
        reveal_strlit(" ");
        reveal_strlit("");
    }
    let name = string_from_chars(&replace_str(&chars_of(package_name.as_str()), &chars_of(" "), &chars_of("-")));
    let mut scripts: Vec<(String, String)> = Vec::new();
    scripts.push(pair("test", "node --test"));
    if ts {
        scripts.push(pair("build", "tsc"));
        scripts.push(pair("dev", "tsc --watch"));
        scripts.push(pair("clean", "rimraf dist"));
        scripts.push(pair("prepublishOnly", "npm run clean && npm run build"));
    }
    assert(crate::integration::pairs(scripts@) =~= package_scripts(ts));
    let (dev_dependencies, types) = if ts {
        let mut d: Vec<(String, String)> = Vec::new();
        d.push(pair("typescript", "^5.0.0"));
        d.push(pair("@types/node", "^20.0.0"));
        d.push(pair("rimraf", "^5.0.0"));
        assert(crate::integration::pairs(d@) =~= seq![
            ("typescript"@, "^5.0.0"@),
            ("@types/node"@, "^20.0.0"@),
            ("rimraf"@, "^5.0.0"@),
        ]);
        (Some(d), Some("dist/lib.d.ts"))
    } else {
        (None, None)
    };
    let bin = if lib {
        None
    } else {
        Some((package_name, template.to_owned()))
    };
    let exports = if lib {
        if ts {
            Some(pair("./dist/lib.js", "./dist/lib.d.ts"))
        } else {
            Some((template.to_owned(), String::from_str("./types/lib.d.ts")))
        }
    } else {
        None
    };
    let r = PackageManifest {
        name,
        version: "0.1.0",
        description: match &opts.description {
            Some(d) => d.clone(),
            None => String::new(),
        },
        main: template.to_owned(),
        module_type: "module",
        scripts,
        author: match &opts.author {
            Some(a) => a.clone(),
            None => String::new(),
        },
        license: "ISC",
        dev_dependencies,
        types,
        bin,
        exports,
    };
    assert(r.name@ == dashed(opts.package_name_spec()));
    assert(r.description@ == (match opts.description { Some(d) => d@, None => ""@ }));
    assert(r.main@ == template_text(package_template(ts, lib)));
    assert(r.author@ == (match opts.author { Some(a) => a@, None => ""@ }));
    assert(r.dev_dependencies matches Some(d) ==> crate::integration::pairs(d@) == seq![
            ("typescript"@, "^5.0.0"@),
            ("@types/node"@, "^20.0.0"@),
            ("rimraf"@, "^5.0.0"@),
        ]);
    r
}


/// What the disk shows of the place of a new package: whether the path is
/// a symbolic link, and whether the directory above it exists and is one.
#[derive(Debug, Clone, Copy, PartialEq, Eq)]
pub struct PlaceLinks {
    pub is_symlink: bool,
    pub parent_exists: bool,
    pub parent_is_symlink: bool,
}

/// Why a new package may not be made at `path`, `None` when it may: a `..`
/// component, a link at the path, or an existing link above it.
pub open spec fn package_place_refusal(path: Seq<char>, disk: PlaceLinks) -> Option<Seq<char>> {
    if components_of(split(path, slash())).contains(seq!['.', '.']) {
        Some("Path traversal detected: "@ + path)
    } else if disk.is_symlink {
        Some("Symlinks are not allowed: "@ + path)
    } else {
        match parent_of(path) {
            Some(q) => if disk.parent_exists && disk.parent_is_symlink {
                Some("Symlinks are not allowed in parent directory: "@ + q)
            } else {
                None
            },
            None => None,
        }
    }
}

/// Judges the place of a new package from what the disk showed (see
/// `package_place_refusal`).
pub fn package_place_verdict(path: &str, disk: PlaceLinks) -> (r: Result<(), String>)
    ensures
        match package_place_refusal(path@, disk) {
            None => r is Ok,
            Some(m) => (r matches Err(e) && e@ == m),
        },
{
    let ok = crate::util::platform::safe_path_verdict(
        path,
        false,
        crate::util::platform::LinkState {
            exists: disk.is_symlink,
            is_symlink: disk.is_symlink,
            parent_exists: disk.parent_exists,
            parent_is_symlink: disk.parent_is_symlink,
        },
    );
    ok
}

/// Checks the place of a new package, asking the disk (see
/// `package_place_refusal`); whatever it answered, the result is the
/// verdict for some answers.
pub fn check_package_place(path: &str) -> (r: Result<(), String>)
    ensures
        exists|disk: PlaceLinks|
            match #[trigger] package_place_refusal(path@, disk) {
                None => r is Ok,
                Some(m) => (r matches Err(e) && e@ == m),
            },
{
    let (parent_exists, parent_is_symlink) = match parent_dir(path) {
        Some(q) => (path_exists(q.as_str()), path_is_symlink(q.as_str())),
        None => (false, false),
    };
    let disk = PlaceLinks { is_symlink: path_is_symlink(path), parent_exists, parent_is_symlink };
    package_place_verdict(path, disk)
}

/// What to do with the destination of a new package.
#[derive(Debug, Clone, Copy, PartialEq, Eq)]
pub enum Destination {
    /// Create the directory.
    Create,
    /// Use the existing, empty directory.
    UseExisting,
}

/// The verdict on the destination of a new package, from whether it
/// exists, what listing it gave (whether it has an entry, or the system's
/// message) and whether a manifest is already there: a missing directory is
/// created; an existing one must list without error, be empty and hold no
/// manifest.
pub open spec fn destination_outcome(
    path: Seq<char>,
    exists: bool,
    listing: core::result::Result<bool, Seq<char>>,
    manifest_exists: bool,
) -> core::result::Result<Destination, Seq<char>> {
    if exists && listing is Err {
        Err(listing->Err_0)
    } else if exists && listing == Ok::<bool, Seq<char>>(true) {
        Err("Destination `"@ + path + "` already exists and is not empty"@)
    } else if manifest_exists {
        Err("package.json already exists"@)
    } else if exists {
        Ok(Destination::UseExisting)
    } else {
        Ok(Destination::Create)
    }
}

/// A listing's outcome with its message as text.
pub open spec fn listing_view(l: core::result::Result<bool, String>) -> core::result::Result<bool, Seq<char>> {
    match l {
        Ok(b) => Ok(b),
        Err(m) => Err(m@),
    }
}

/// `r` is `outcome`, a message as its text.
pub open spec fn destination_agrees(r: Result<Destination, String>, outcome: core::result::Result<Destination, Seq<char>>) -> bool {
    match outcome {
        Ok(d) => r == Ok::<Destination, String>(d),
        Err(m) => r matches Err(e) && e@ == m,
    }
}

/// Judges the destination of a new package (see `destination_outcome`).
pub fn destination_verdict(
    path: &str,
    exists: bool,
    listing: core::result::Result<bool, String>,
    manifest_exists: bool,
) -> (r: Result<Destination, String>)
    ensures
        destination_agrees(
            r,
            destination_outcome(path@, exists, listing_view(listing), manifest_exists),
        ),
{
    let action = if !exists {
        Destination::Create
    } else {
        match listing {
            Err(m) => return Err(m),
            Ok(true) => {
                let mut m = String::from_str("Destination `");
                m.append(path);
                m.append("` already exists and is not empty");
                return Err(m);
            },
            Ok(false) => Destination::UseExisting,
        }
    };
    if manifest_exists {
        return Err(String::from_str("package.json already exists"));
    }
    Ok(action)
}

/// Looks at the destination of a new package on disk and judges it (see
/// `destination_outcome`); whatever the disk answered, the result is the
/// verdict for some answers.
pub fn check_destination(path: &str, manifest_path: &str) -> (r: Result<Destination, String>)
    ensures
        exists|exists: bool, listing: core::result::Result<bool, Seq<char>>, manifest_exists: bool|
            destination_agrees(r, #[trigger] destination_outcome(path@, exists, listing, manifest_exists)),
{
    let exists = path_exists(path);
    let listing = if exists {
        dir_has_entries(path)
    } else {
        Ok(false)
    };
    let manifest_exists = path_exists(manifest_path);
    let ghost lv = listing_view(listing);
    let r = destination_verdict(path, exists, listing, manifest_exists);
    assert(destination_agrees(r, destination_outcome(path@, exists, lv, manifest_exists)));
    r
}

/// What the disk said of the place of a new package: the links at and
/// above it, whether it exists, what listing it gave (whether it has an
/// entry, or the system's message), and whether a manifest is there.
#[derive(Debug)]
pub struct PlaceAnswers {
    pub links: PlaceLinks,
    pub exists: bool,
    pub listing: core::result::Result<bool, String>,
    pub manifest_exists: bool,
}

/// The plan of a new package: what to do with its directory, then what to
/// write.
#[derive(Debug, Clone)]
pub struct PackagePlan {
    pub destination: Destination,
    pub write: InitWrite,
}

/// `r` is what creating a package with options `opts` gives, from what the
/// disk said: a refused place (see `package_place_refusal`), then a
/// refused destination (see `destination_outcome`), gives its message;
/// otherwise the plan keeps or makes the directory and writes the package
/// (see `init_write_fits`).
pub open spec fn package_plan_agrees(
    opts: PackageOptions,
    answers: PlaceAnswers,
    r: Result<PackagePlan, String>,
) -> bool {
    match package_place_refusal(opts.path@, answers.links) {
        Some(m) => (r matches Err(e) && e@ == m),
        None => match destination_outcome(
            opts.path@,
            answers.exists,
            listing_view(answers.listing),
            answers.manifest_exists,
        ) {
            Err(m) => (r matches Err(e) && e@ == m),
            Ok(d) => (r matches Ok(plan) && plan.destination == d && init_write_fits(opts, plan.write)),
        },
    }
}

/// Decides the creation of a package with options `opts` from what the
/// disk said of its place (see `package_plan_agrees`); the caller carries
/// the plan out.
pub fn create_package_plan(opts: &PackageOptions, answers: PlaceAnswers) -> (r: Result<PackagePlan, String>)
    ensures
        package_plan_agrees(*opts, answers, r),
{
    match package_place_verdict(opts.path.as_str(), answers.links) {
        Err(e) => return Err(e),
        Ok(()) => {},
    }
    let destination = match destination_verdict(
        opts.path.as_str(),
        answers.exists,
        answers.listing,
        answers.manifest_exists,
    ) {
        Err(e) => return Err(e),
        Ok(d) => d,
    };
    Ok(PackagePlan { destination, write: package_writes(opts) })
}

/// What `init` does when a manifest is already there.
#[derive(Debug, Clone, Copy, PartialEq, Eq)]
pub enum ExistingManifest {
    /// The workspace is already set up: warn and stop.
    AlreadyWorkspace,
    /// Refuse: the manifest is there.
    Refused,
}

/// What `init` does when a manifest is already there, given whether a
/// workspace is asked for and whether the manifest declares `workspaces`.
pub fn existing_manifest_action(workspace: bool, declares_workspaces: bool) -> (r: ExistingManifest)
    ensures
        r == (if workspace && declares_workspaces {
            ExistingManifest::AlreadyWorkspace
        } else {
            ExistingManifest::Refused
        }),
{
    if workspace && declares_workspaces {
        ExistingManifest::AlreadyWorkspace
    } else {
        ExistingManifest::Refused
    }
}


/// Whether the packages of a workspace take its scripts, from the root's
/// `workspaceConfig.inheritScripts` setting: they do unless it says no.
pub fn inherits_scripts(setting: Option<bool>) -> (r: bool)
    ensures
        r == match setting {
            Some(b) => b,
            None => true,
        },
{
    match setting {
        Some(b) => b,
        None => true,
    }
}

/// The names among `root` that `own` lacks, in order.
pub open spec fn missing_names(own: Seq<Seq<char>>, root: Seq<Seq<char>>) -> Seq<Seq<char>>
    decreases root.len(),
{
    if root.len() == 0 {
        Seq::empty()
    } else if own.contains(root.last()) {
        missing_names(own, root.drop_last())
    } else {
        missing_names(own, root.drop_last()).push(root.last())
    }
}

/// The scripts of the workspace root that a package takes: those whose
/// names it lacks, in the root's order (`own` and `root` are script names).
pub fn scripts_to_inherit(own: &Vec<String>, root: &Vec<String>) -> (r: Vec<String>)
    ensures
        strs(r@) == missing_names(strs(own@), strs(root@)),
{
    let mut r: Vec<String> = Vec::new();
    let mut i: usize = 0;
    while i < root.len()
        invariant
            i <= root@.len(),
            strs(r@) == missing_names(strs(own@), strs(root@).take(i as int)),
        decreases root@.len() - i,
    {
        assert(strs(root@).take(i + 1).drop_last() =~= strs(root@).take(i as int));
        assert(strs(root@).take(i + 1).last() == root@[i as int]@);
        let mut found = false;
        let mut j: usize = 0;
        while j < own.len()
            invariant
                j <= own@.len(),
                i < root@.len(),
                found == (exists|k: int| 0 <= k < j && own@[k]@ == root@[i as int]@),
            decreases own@.len() - j,
        {
            if own[j] == root[i] {
                found = true;
            }
            j = j + 1;
        }
        proof {
            if found {
                let k = choose|k: int| 0 <= k < own@.len() && own@[k]@ == root@[i as int]@;
                assert(strs(own@)[k] == root@[i as int]@);
            } else {
                assert forall|k: int| 0 <= k < strs(own@).len() implies strs(own@)[k] != root@[i as int]@ by {
                    assert(strs(own@)[k] == own@[k]@);
                }
            }
        }
        if !found {
            let ghost before = strs(r@);
            r.push(root[i].clone());
            assert(strs(r@) =~= before.push(root@[i as int]@));
        }
        i = i + 1;
    }
    assert(strs(root@).take(root@.len() as int) =~= strs(root@));
    r
}


/// Inheriting never overrides a script of the package: every name taken
/// from the root is one the package lacks, and one the root has.
pub proof fn law_inherited_scripts_are_missing(own: Seq<Seq<char>>, root: Seq<Seq<char>>)
    ensures
        forall|k: int|
            0 <= k < missing_names(own, root).len() ==> !own.contains(#[trigger] missing_names(own, root)[k])
                && root.contains(missing_names(own, root)[k]),
    decreases root.len(),
{
    if root.len() > 0 {
        law_inherited_scripts_are_missing(own, root.drop_last());
        let rest = missing_names(own, root.drop_last());
        let all = missing_names(own, root);
        assert forall|k: int| 0 <= k < all.len() implies !own.contains(#[trigger] all[k]) && root.contains(all[k]) by {
            if k < rest.len() {
                assert(all[k] == rest[k]);
                let j = choose|j: int| 0 <= j < root.drop_last().len() && root.drop_last()[j] == rest[k];
                assert(root[j] == rest[k]);
            } else {
                assert(all[k] == root.last());
                assert(root[root.len() - 1] == root.last());
            }
        }
    }
}

} // verus!
