//! Context-based environment variable resolution.
//!
//! The crate resolves which environment variables are active for a given
//! working directory from two sources: an allow-list of environment files
//! reachable by directory ancestry, and regex patterns over the directory
//! path that map to literal variable assignments. A script sandbox derives
//! the side effects of shell context files from a framed snapshot diff.

pub mod envmap;
pub mod errors;
pub mod hooks;
pub mod jsonout;
pub mod opt;
pub mod parser;
pub mod paths;
pub mod pattern;
pub mod resolve;
pub mod sandbox;
pub mod settings;
pub mod text;
