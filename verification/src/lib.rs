//! A transparent front-end for a build tool: it discovers a project-local
//! presets file, resolves the active preset, and splices the preset's
//! settings into the argument vector before the real tool is invoked.

pub mod argv;
pub mod commands;
pub mod locate;
pub mod model;
pub mod presets;
pub mod toml_tree;
