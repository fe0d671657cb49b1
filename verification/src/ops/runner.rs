//! Something that can be run to completion or fail with a message.

use vstd::prelude::*;

verus! {

/// A unit of work of the command line, such as scaffolding a project.
pub trait Runner {
    fn run(&self) -> Result<(), String>;
}

} // verus!
