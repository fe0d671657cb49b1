//! The `package.json` model of a new project and the source templates
//! that scaffolding writes.

use vstd::prelude::*;

verus! {

/// The kind of Node.js project.
#[derive(Debug, Clone, Copy, PartialEq, Eq, Structural)]
pub enum ProjectType {
    /// A binary project with a main entry point
    Binary,
    /// A library project that can be imported
    Library,
}

/// What `package.json` is generated from.
#[derive(Debug, Clone, PartialEq, Eq)]
pub struct PackageConfig {
    /// Name of the package
    pub name: String,
    /// Type of the project (binary or library)
    pub project_type: ProjectType,
    /// Version of the package (defaults to "0.1.0")
    pub version: Option<String>,
}

/// The contents of a generated `package.json` file.
#[derive(Debug, Clone, PartialEq, Eq)]
pub struct PackageJson {
    pub name: String,
    pub version: String,
    pub private: bool,
    pub main: Option<String>,
    /// The `bin` table: command name to script path.
    pub bin: Option<Vec<(String, String)>>,
}

/// The entry file of a project of the given kind.
pub open spec fn main_file(is_binary: bool) -> Seq<char> {
    if is_binary {
        "src/main.js"@
    } else {
        "src/lib.js"@
    }
}

/// Builds the manifest of a new project: a binary gets a `bin` entry
/// named after the package that points at its main file and is private;
/// a library gets neither. The version defaults to `0.1.0`.
pub fn create_package_json(config: PackageConfig) -> (p: PackageJson)
    ensures
        p.name@ == config.name@,
        p.version@ == (match config.version {
            Some(v) => v@,
            None => "0.1.0"@,
        }),
        p.private == (config.project_type == ProjectType::Binary),
        p.main matches Some(m) && m@ == main_file(config.project_type == ProjectType::Binary),
        config.project_type == ProjectType::Binary ==> (p.bin matches Some(b) && b@.len() == 1
            && b@[0].0@ == config.name@ && b@[0].1@ == main_file(true)),
        config.project_type == ProjectType::Library ==> p.bin is None,
{
    let is_binary = match config.project_type {
        ProjectType::Binary => true,
        ProjectType::Library => false,
    };
    let main_file = if is_binary {
        String::from_str("src/main.js")
    } else {
        String::from_str("src/lib.js")
    };
    let bin = if is_binary {
        let mut bin_map: Vec<(String, String)> = Vec::new();
        bin_map.push((config.name.clone(), main_file.clone()));
        Some(bin_map)
    } else {
        None
    };
    let version = match config.version {
        Some(v) => v,
        None => String::from_str("0.1.0"),
    };
    PackageJson { name: config.name, version, main: Some(main_file), bin, private: is_binary }
}

/// Template content for .gitignore file
pub const GITIGNORE_CONTENT: &'static str = "node_modules/\n.env.*\n";

/// Template content for main.js file
pub const MAIN_JS_CONTENT: &'static str = "function main() {\n    console.log(\"Hello, world!\");\n}\n\nif (import.meta.url === new URL(import.meta.resolve(), import.meta.url).href) {\n    main();\n}\n";

/// Template content for lib.js file
pub const LIB_JS_CONTENT: &'static str = "export function add(left, right) {\n    return left + right;\n}\n\n// Run tests only if the file is executed directly\nif (import.meta.url === new URL(import.meta.resolve(), import.meta.url).href) {\n    import(\"node:assert/strict\").then(assert => {\n        function testAdd() {\n            const result = add(2, 2);\n            assert.strictEqual(result, 4);\n            console.log(\"\u{2705} testAdd passed!\");\n        }\n\n        testAdd();\n    });\n}\n";

} // verus!
