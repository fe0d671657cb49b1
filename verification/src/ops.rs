//! Project operations: name validation, template placeholders and
//! the templates of new packages.

pub mod init;
pub mod new;
pub mod parser;
pub mod replace;
pub mod runner;
pub mod validate;
