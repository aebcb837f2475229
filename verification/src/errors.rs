//! The error taxonomy: structural failures (read failure, manifest missing,
//! frontmatter missing, a required field empty at the read stage) are each
//! terminal and reported alone; content failures always carry the complete
//! list of violation messages.

use vstd::prelude::*;
use crate::text::join_sep;
use crate::text::join_with;

verus! {

#[derive(Debug)]
pub enum SkillError {
    /// An underlying read failure, with the reader's message.
    Io(String),
    /// The frontmatter could not be parsed as a key-value block.
    Yaml(String),
    /// Content validation failed; the complete, never truncated list of
    /// violation messages.
    Validation(Vec<String>),
    /// Neither canonical manifest filename exists in the directory.
    SkillFileNotFound,
    /// The document has no delimited frontmatter block.
    MissingFrontmatter,
    /// A required field was absent or empty at the structural-read stage.
    EmptyField(&'static str),
}

/// Joins violation messages into one line, as shown in an error report.
pub fn format_errors(errors: &Vec<String>) -> (r: String)
    ensures
        r@ == join_sep(errors.deep_view(), "; "@),
{
    join_with(errors, "; ")
}

impl SkillError {
    /// What each error kind means, rendered for the reader.
    pub open spec fn message_view(&self) -> Seq<char> {
        match self {
            SkillError::Io(m) => "IO error: "@ + m@,
            SkillError::Yaml(m) => "YAML parsing error: "@ + m@,
            SkillError::Validation(msgs) => "Validation failed: "@ + join_sep(
                msgs.deep_view(),
                "; "@,
            ),
            SkillError::SkillFileNotFound => "No SKILL.md or skill.md found"@,
            SkillError::MissingFrontmatter => "No valid frontmatter found"@,
            SkillError::EmptyField(f) => "Required field is empty: "@ + f@,
        }
    }

    /// Renders the error as one human-readable line.
    pub fn message(&self) -> (r: String)
        ensures
            r@ == self.message_view(),
    {
        match self {
            SkillError::Io(m) => {
                let mut out = String::from_str("IO error: ");
                out.append(m.as_str());
                out
            },
            SkillError::Yaml(m) => {
                let mut out = String::from_str("YAML parsing error: ");
                out.append(m.as_str());
                out
            },
            SkillError::Validation(msgs) => {
                let mut out = String::from_str("Validation failed: ");
                let joined = format_errors(msgs);
                out.append(joined.as_str());
                out
            },
            SkillError::SkillFileNotFound => String::from_str("No SKILL.md or skill.md found"),
            SkillError::MissingFrontmatter => String::from_str("No valid frontmatter found"),
            SkillError::EmptyField(f) => {
                let mut out = String::from_str("Required field is empty: ");
                out.append(f);
                out
            },
        }
    }
}

} // verus!
