//! A placeholder replacer that owns its values and applies them to any
//! text handed to it.

use vstd::prelude::*;

use crate::ops::replace::{rendered, replace_placeholders, Replacements};

verus! {

/// Values for the `{{ NAME }}` placeholders of the texts it is applied to.
pub struct Replacer {
    values: Replacements,
}

impl View for Replacer {
    type V = Map<Seq<char>, Seq<char>>;

    closed spec fn view(&self) -> Map<Seq<char>, Seq<char>> {
        self.values@
    }
}

impl Replacer {
    /// A replacer with no values.
    pub fn new() -> (r: Self)
        ensures
            r@ == Map::<Seq<char>, Seq<char>>::empty(),
    {
        Replacer { values: Replacements::new() }
    }

    /// Sets the value of placeholder `key`, replacing any value it had.
    pub fn add(&mut self, key: &str, val: &str)
        ensures
            final(self)@ == old(self)@.insert(key@, val@),
    {
        self.values.add(key, val);
    }

    /// The value of placeholder `key`, if it has one.
    pub fn get(&self, key: &str) -> (r: Option<&str>)
        ensures
            match r {
                Some(v) => self@.dom().contains(key@) && v@ == self@[key@],
                None => !self@.dom().contains(key@),
            },
    {
        self.values.get(key)
    }

    /// `haystack` with each placeholder replaced by its value, or by
    /// `{{MISSING}}` where it has none.
    pub fn with_haystack(&self, haystack: &str) -> (r: String)
        ensures
            r@ == rendered(haystack@, self@),
    {
        replace_placeholders(haystack, &self.values)
    }
}

} // verus!
