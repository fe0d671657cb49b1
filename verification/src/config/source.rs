//! Where configurations and templates come from.

use vstd::prelude::*;

verus! {

/// A configuration kept in a file, under a key.
#[derive(Debug, Clone)]
pub struct FileConfigSource {
    pub path: String,
    pub key: String,
}

/// The template bundled with the tool.
#[derive(Debug, Clone, Copy, Default)]
pub struct EmbeddedTemplateSource;

/// A template to be fetched from a location.
#[derive(Debug, Clone)]
pub struct RemoteTemplateSource {
    pub url: String,
    pub path: String,
    pub placeholder: String,
}

impl RemoteTemplateSource {
    /// The template at `url`, under `path`, that calls the package
    /// `placeholder`.
    pub fn new(url: &str, path: &str, placeholder: &str) -> (r: Self)
        ensures
            r.url@ == url@,
            r.path@ == path@,
            r.placeholder@ == placeholder@,
    {
        RemoteTemplateSource { url: url.to_owned(), path: path.to_owned(), placeholder: placeholder.to_owned() }
    }
}

} // verus!
