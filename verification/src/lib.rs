//! Steam shortcut icons: a verified parser for `.url` desktop shortcut
//! files, together with the decisions a directory scan makes around it —
//! which entries to look at, whether a run must halt on an interrupt, and
//! what download an icon that is missing locally calls for.

pub mod fetch;
pub mod parse;
pub mod scan;
pub mod text;
