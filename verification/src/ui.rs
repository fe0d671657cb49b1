//! What the user is told while a package is created.

pub mod status;
