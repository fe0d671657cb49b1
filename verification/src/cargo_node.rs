//! Package creation from a downloadable template, and running commands
//! through `npx`.

pub mod exec;
pub mod package;
