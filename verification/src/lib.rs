//! Disk-reclamation accounting for a container runtime and for developer
//! caches: reading the sizes that the runtime reports, adding them up,
//! planning removals from what an operator selects, and deciding how each
//! cache is emptied. Nothing here runs the runtime or changes the file
//! system; callers run the commands and walk the directories, and hand the
//! results in.

pub mod decimal;
pub mod display;
pub mod docker;
pub mod execute;
pub mod json;
pub mod plan;
pub mod resources;
pub mod size;
pub mod system;
pub mod text;
pub mod usage;
