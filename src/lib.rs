//! Linking pass for compiled modules: decodes ABI type descriptors and
//! synthesises the signature and placement records of every boundary
//! function.

pub mod descriptor;
pub mod table;
pub mod program;
pub mod records;
pub mod webidl;
pub mod extract;
pub mod steps;
