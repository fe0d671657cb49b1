//! The outputs a tool declares, resolved against the project directory.

use vstd::prelude::*;
use vstd::string::*;

use crate::integration::{lemma_strs_push, strs};
use crate::error::Error;
use crate::paths::{join, join_path};
use crate::text::append_str;
use crate::Result;

verus! {

/// The declared outputs of a tool and the directory they are relative to.
pub struct OutputVerifier {
    base_path: String,
    patterns: Vec<String>,
}

impl OutputVerifier {
    /// The base path.
    pub closed spec fn base(&self) -> Seq<char> {
        self.base_path@
    }

    /// The output patterns.
    pub closed spec fn pattern_texts(&self) -> Seq<Seq<char>> {
        strs(self.patterns@)
    }

    /// A verifier of the outputs `patterns` under `base_path`.
    pub fn new(base_path: &str, patterns: Vec<String>) -> (r: Self)
        ensures
            r.base() == base_path@,
            r.pattern_texts() == strs(patterns@),
    {
        OutputVerifier { base_path: base_path.to_owned(), patterns }
    }

    /// The base path.
    pub fn base_path(&self) -> (r: &str)
        ensures
            r@ == self.base(),
    {
        self.base_path.as_str()
    }

    /// The declared output patterns, copied.
    pub fn get_expected_outputs(&self) -> (r: Vec<String>)
        ensures
            strs(r@) == self.pattern_texts(),
    {
        let mut r: Vec<String> = Vec::new();
        let mut i: usize = 0;
        while i < self.patterns.len()
            invariant
                i <= self.patterns@.len(),
                strs(r@) == strs(self.patterns@).subrange(0, i as int),
            decreases self.patterns@.len() - i,
        {
            let ghost before = r@;
            let c = self.patterns[i].clone();
            r.push(c);
            proof {
                lemma_strs_push(before, c);
            }
            i = i + 1;
            assert(strs(r@) =~= strs(self.patterns@).subrange(0, i as int));
        }
        assert(strs(self.patterns@).subrange(0, self.patterns@.len() as int) =~= strs(
            self.patterns@,
        ));
        r
    }

    /// The paths the outputs are expected at: each pattern joined onto the
    /// base path, in order. (Their parent directories are created by the
    /// caller before the tool runs.)
    pub fn output_paths(&self) -> (r: Vec<String>)
        ensures
            strs(r@) == Seq::new(
                self.pattern_texts().len(),
                |i: int| join_path(self.base(), self.pattern_texts()[i]),
            ),
    {
        let ghost target = Seq::new(
            self.pattern_texts().len(),
            |i: int| join_path(self.base(), self.pattern_texts()[i]),
        );
        let mut r: Vec<String> = Vec::new();
        let mut i: usize = 0;
        while i < self.patterns.len()
            invariant
                i <= self.patterns@.len(),
                target.len() == self.patterns@.len(),
                target == Seq::new(
                    self.pattern_texts().len(),
                    |i: int| join_path(self.base(), self.pattern_texts()[i]),
                ),
                strs(r@) == target.subrange(0, i as int),
            decreases self.patterns@.len() - i,
        {
            let ghost before = r@;
            let p = join(self.base_path.as_str(), self.patterns[i].as_str());
            r.push(p);
            proof {
                lemma_strs_push(before, p);
            }
            i = i + 1;
            assert(strs(r@) =~= target.subrange(0, i as int));
        }
        assert(target.subrange(0, target.len() as int) =~= target);
        r
    }
}

/// The message for an expected output at `path` that tool `tool` did not
/// produce, and the suggestion shown with it.
pub open spec fn missing_output_text(tool: Seq<char>, path: Seq<char>) -> (Seq<char>, Seq<char>) {
    (
        "Expected output not found: "@ + path,
        "Check that tool '"@ + tool + "' writes the outputs it declares."@,
    )
}

/// Judges the outputs of tool `tool_name` after a successful run, given
/// for each expected path (see `output_paths`) whether a file is there:
/// the first missing one is refused; all present pass.
pub fn missing_outputs_verdict(tool_name: &str, paths: &Vec<String>, present: &Vec<bool>) -> (r: Result<()>)
    requires
        paths@.len() == present@.len(),
    ensures
        r is Ok <==> forall|i: int| 0 <= i < present@.len() ==> #[trigger] present@[i],
        r matches Err(e) ==> exists|i: int|
            0 <= i < present@.len() && !present@[i] && (forall|j: int| 0 <= j < i ==> #[trigger] present@[j])
                && (e matches Error::OutputVerificationFailed { message, suggestion } && (message@, suggestion@)
                == missing_output_text(tool_name@, paths@[i]@)),
{
    let mut i: usize = 0;
    while i < present.len()
        invariant
            i <= present@.len(),
            paths@.len() == present@.len(),
            forall|j: int| 0 <= j < i ==> #[trigger] present@[j],
        decreases present@.len() - i,
    {
        if !present[i] {
            let mut message = String::from_str("Expected output not found: ");
            append_str(&mut message, paths[i].as_str());
            let mut suggestion = String::from_str("Check that tool '");
            append_str(&mut suggestion, tool_name);
            append_str(&mut suggestion, "' writes the outputs it declares.");
            return Err(Error::OutputVerificationFailed { message, suggestion });
        }
        i = i + 1;
    }
    Ok(())
}

} // verus!
