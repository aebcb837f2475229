//! Validation of skill manifests: small text documents that begin with a
//! key-value frontmatter block describing a named, reusable capability.
//!
//! The pipeline locates a manifest in a directory, extracts its frontmatter,
//! coerces the raw fields into [`models::SkillProperties`], and checks the
//! naming, length, character-set and cross-field rules, collecting every
//! violation into one report.

pub mod errors;
pub mod frontmatter;
pub mod fs;
pub mod laws;
pub mod models;
pub mod parser;
pub mod paths;
pub mod prompt;
pub mod text;
pub mod unicode;
pub mod validator;
