//! Format-aware minification of text and binary assets.
//!
//! The library holds the plugins that detect and minify CSS, JavaScript,
//! HTML and GLB input, the statistics they report, the registry that picks a
//! plugin for an input, and the decisions of the command-line front end and
//! of safe file handling; the program around it does the file I/O.

pub mod strings;
pub mod text;
pub mod balance;
pub mod cli;
pub mod css;
pub mod glb;
pub mod html;
pub mod js;
pub mod minifier;
pub mod path;
pub mod pattern;
pub mod registry;
pub mod safety;
pub mod stats;

pub use minifier::{ExitCode, Minifier, MinifyError, MinifyLevel};
pub use stats::{FormatMetrics, MinifyStats};
