//! The progress of creating a package, as shown to the user.

use vstd::prelude::*;
use vstd::string::*;

use crate::paths::{file_name, file_name_of};

verus! {

/// What is being created (a binary or a library package), and whether it
/// is created anew or initialised in place.
#[derive(Debug, Clone, Copy)]
pub struct Status {
    package_type: &'static str,
    is_new: bool,
}

impl Status {
    /// The kind of package shown.
    pub closed spec fn kind(&self) -> Seq<char> {
        self.package_type@
    }

    /// Whether the package is created anew.
    pub closed spec fn creates(&self) -> bool {
        self.is_new
    }

    /// The status of creating (`is_new`) or initialising a package: a
    /// library when `is_lib` holds (whatever `is_bin` says), a binary
    /// otherwise.
    pub fn new(is_bin: bool, is_lib: bool, is_new: bool) -> (r: Self)
        ensures
            r.kind() == (if is_lib {
                "library"@
            } else {
                "binary"@
            }),
            r.creates() == is_new,
    {
        let package_type = if is_lib {
            "library"
        } else {
            "binary"
        };
        Status { package_type, is_new }
    }

    /// The kind of package shown.
    pub fn package_type(&self) -> (r: &'static str)
        ensures
            r@ == self.kind(),
    {
        self.package_type
    }

    /// Whether the package is created anew.
    pub fn is_new(&self) -> (r: bool)
        ensures
            r == self.creates(),
    {
        self.is_new
    }
}


/// The mark shown, as a picture when `emoji` holds, else as a word.
pub open spec fn mark(emoji: bool, picture: Seq<char>, word: Seq<char>) -> Seq<char> {
    if emoji {
        picture
    } else {
        word
    }
}

fn mark_exec(emoji: bool, picture: &str, word: &str) -> (r: String)
    ensures
        r@ == mark(emoji, picture@, word@),
{
    if emoji {
        picture.to_owned()
    } else {
        word.to_owned()
    }
}

/// How a package's place is named: `current directory` for `.`, else the
/// last component of its path, else the path itself.
pub open spec fn place_name(path: Seq<char>) -> Seq<char> {
    if path == "."@ {
        "current directory"@
    } else {
        match file_name_of(path) {
            Some(n) => n,
            None => path,
        }
    }
}

impl Status {
    /// The line that starts the work on the package at `path`.
    pub fn start_line(&self, path: &str, emoji: bool) -> (r: String)
        ensures
            r@ == "   "@ + (if self.creates() {
                mark(emoji, "🔨"@, "Creating"@)
            } else {
                mark(emoji, "🚀"@, "Initializing"@)
            }) + "  "@ + self.kind() + " package `"@ + place_name(path@) + "` in "@ + path@,
    {
        let action = if self.is_new {
            mark_exec(emoji, "🔨", "Creating")
        } else {
            mark_exec(emoji, "🚀", "Initializing")
        };
        let v = crate::text::chars_of(path);
        let is_dot = v.len() == 1 && v[0] == '.';
        proof {
            reveal_strlit(".");
            if is_dot {
                assert(path@ =~= "."@);
            } else if path@.len() == 1 {
                assert(path@[0] != "."@[0]);
            }
        }
        let place = if is_dot {
            String::from_str("current directory")
        } else {
            match file_name(path) {
                Some(n) => n,
                None => path.to_owned(),
            }
        };
        assert(place@ == place_name(path@));
        let mut r = String::from_str("   ");
        r.append(action.as_str());
        r.append("  ");
        r.append(self.package_type);
        r.append(" package `");
        r.append(place.as_str());
        r.append("` in ");
        r.append(path);
        r
    }

    /// The line shown once the manifest is written.
    pub fn created_manifest_line(&self, emoji: bool) -> (r: String)
        ensures
            r@ == "      "@ + mark(emoji, "📦"@, "package.json"@) + " Created manifest file"@,
    {
        let mut r = String::from_str("      ");
        r.append(mark_exec(emoji, "📦", "package.json").as_str());
        r.append(" Created manifest file");
        r
    }

    /// The line shown once the source files are written.
    pub fn created_source_files_line(&self) -> (r: String)
        ensures
            r@ == "      📄 Created source files"@,
    {
        String::from_str("      📄 Created source files")
    }

    /// The line shown once the workspace is laid out.
    pub fn created_workspace_line(&self, emoji: bool) -> (r: String)
        ensures
            r@ == "      "@ + mark(emoji, "🏗️ "@, "workspace"@) + " Created workspace configuration"@,
    {
        let mut r = String::from_str("      ");
        r.append(mark_exec(emoji, "🏗️ ", "workspace").as_str());
        r.append(" Created workspace configuration");
        r
    }

    /// The line shown once a git repository is made.
    pub fn initialized_git_line(&self, emoji: bool) -> (r: String)
        ensures
            r@ == "      "@ + mark(emoji, "📚"@, "git"@) + " Initialized git repository"@,
    {
        let mut r = String::from_str("      ");
        r.append(mark_exec(emoji, "📚", "git").as_str());
        r.append(" Initialized git repository");
        r
    }

    /// The line shown once the package is complete.
    pub fn created_package_line(&self, emoji: bool) -> (r: String)
        ensures
            r@ == "      "@ + mark(emoji, "✨"@, "*"@) + " Created "@ + self.kind() + " package"@,
    {
        let mut r = String::from_str("      ");
        r.append(mark_exec(emoji, "✨", "*").as_str());
        r.append(" Created ");
        r.append(self.package_type);
        r.append(" package");
        r
    }

    /// The closing line for the package `name`, after a blank line.
    pub fn finish_line(&self, name: &str) -> (r: String)
        ensures
            r@ == "\nSuccessfully "@ + (if self.creates() {
                "created"@
            } else {
                "initialized"@
            }) + " "@ + self.kind() + " package `"@ + name@ + "`"@,
    {
        let mut r = String::from_str("\nSuccessfully ");
        r.append(if self.is_new {
            "created"
        } else {
            "initialized"
        });
        r.append(" ");
        r.append(self.package_type);
        r.append(" package `");
        r.append(name);
        r.append("`");
        r
    }

    /// The line that warns of `message`.
    pub fn warning_line(&self, message: &str, emoji: bool) -> (r: String)
        ensures
            r@ == mark(emoji, "⚠️ "@, "!"@) + " Warning: "@ + message@,
    {
        let mut r = mark_exec(emoji, "⚠️ ", "!");
        r.append(" Warning: ");
        r.append(message);
        r
    }
}

} // verus!
