//! Templates that say in a leading comment what they are rendered for.

pub mod frontmatter;
pub mod value_vec;

use vstd::prelude::*;

verus! {

/// Why the frontmatter of a template cannot be had.
#[derive(Debug, PartialEq, Eq, Clone, Copy)]
pub enum Error {
    UnableToExtractFrontmatter(FrontmatterProblem),
}

/// What is wrong with the comment that should hold the frontmatter.
#[derive(Debug, PartialEq, Eq, Clone, Copy)]
pub enum FrontmatterProblem {
    /// The template does not begin with a comment.
    NotAtStart,
    /// The comment is not closed.
    NoEnd,
}

impl FrontmatterProblem {
    /// The problem in words.
    pub fn message(&self) -> (r: &'static str)
        ensures
            r@ == match self {
                FrontmatterProblem::NotAtStart => "Frontmatter must be at start of file"@,
                FrontmatterProblem::NoEnd => "No frontmatter end found"@,
            },
    {
        match self {
            FrontmatterProblem::NotAtStart => "Frontmatter must be at start of file",
            FrontmatterProblem::NoEnd => "No frontmatter end found",
        }
    }
}

} // verus!
