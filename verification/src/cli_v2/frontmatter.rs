//! The frontmatter of a template: the text of the comment that the template
//! begins with.

use vstd::prelude::*;
use crate::cli_v2::{Error, FrontmatterProblem};
use crate::text::{
    chars_of, count_leading_white_space, find, find_in, leading_white_space, lemma_find_from_first, matches_at,
    occurs_at, str_eq,
};

verus! {

/// What a template is rendered with.
#[derive(Debug, PartialEq, Eq, Clone, Copy)]
pub enum TemplateScope {
    /// The whole document; the template is rendered once.
    Spec,
    /// One resource; the template is rendered once for each.
    Resource,
}

/// The scope with the given name.
pub open spec fn scope_named(name: Seq<char>) -> Option<TemplateScope> {
    if name == "spec"@ {
        Some(TemplateScope::Spec)
    } else if name == "resource"@ {
        Some(TemplateScope::Resource)
    } else {
        None
    }
}

impl TemplateScope {
    /// The scope with the given name.
    pub fn from_name(name: &str) -> (r: Option<TemplateScope>)
        ensures
            r == scope_named(name@),
    {
        if str_eq(name, "spec") {
            Some(TemplateScope::Spec)
        } else if str_eq(name, "resource") {
            Some(TemplateScope::Resource)
        } else {
            None
        }
    }
}

/// The lesser of two positions, or the one that there is.
pub open spec fn earlier(a: Option<int>, b: Option<int>) -> Option<int> {
    match (a, b) {
        (None, None) => None,
        (Some(x), None) => Some(x),
        (None, Some(y)) => Some(y),
        (Some(x), Some(y)) => Some(if x <= y { x } else { y }),
    }
}

/// The text of the comment that a template begins with, after any white
/// space: what stands between `{#` or `{#-` and the first `#}` or `-#}`.
pub open spec fn frontmatter_of(template: Seq<char>) -> Result<Seq<char>, FrontmatterProblem> {
    let trimmed = template.skip(leading_white_space(template) as int);
    if !occurs_at(trimmed, "{#"@, 0) {
        Err(FrontmatterProblem::NotAtStart)
    } else {
        let start = if occurs_at(trimmed, "{#-"@, 0) { 3int } else { 2int };
        let remaining = trimmed.skip(start);
        match earlier(find(remaining, "-#}"@), find(remaining, "#}"@)) {
            None => Err(FrontmatterProblem::NoEnd),
            Some(end) => Ok(remaining.take(end)),
        }
    }
}

/// The text of the comment that a template begins with.
pub fn extract_frontmatter_from_comment(template: &str) -> (r: Result<&str, Error>)
    ensures
        match r {
            Ok(text) => frontmatter_of(template@) == Ok::<Seq<char>, FrontmatterProblem>(text@),
            Err(Error::UnableToExtractFrontmatter(problem)) => frontmatter_of(template@) == Err::<
                Seq<char>,
                FrontmatterProblem,
            >(problem),
        },
{
    let chars = chars_of(template);
    let n = chars.len();
    let lead = count_leading_white_space(&chars);
    let open = chars_of("{#");
    let open_trim = chars_of("{#-");
    let close = chars_of("#}");
    let close_trim = chars_of("-#}");
    let ghost trimmed = template@.skip(lead as int);
    proof {
        reveal_strlit("{#");
        reveal_strlit("{#-");
        reveal_strlit("#}");
        reveal_strlit("-#}");
        assert(trimmed.len() == n - lead);
    }
    let opens = matches_at(&chars, &open, lead);
    proof {
        if open@.len() <= trimmed.len() {
            assert(trimmed.subrange(0, open@.len() as int) =~= template@.subrange(
                lead as int,
                lead + open@.len(),
            ));
        }
    }
    if !opens {
        return Err(Error::UnableToExtractFrontmatter(FrontmatterProblem::NotAtStart));
    }
    let opens_trim = matches_at(&chars, &open_trim, lead);
    proof {
        if open_trim@.len() <= trimmed.len() {
            assert(trimmed.subrange(0, open_trim@.len() as int) =~= template@.subrange(
                lead as int,
                lead + open_trim@.len(),
            ));
        }
    }
    let start: usize = if opens_trim { 3 } else { 2 };
    let from = lead + start;
    let ghost remaining = trimmed.skip(start as int);
    proof {
        assert(remaining =~= template@.skip(from as int));
    }
    let a = find_in(&chars, &close_trim, from);
    let b = find_in(&chars, &close, from);
    proof {
        lemma_find_shifted(template@, close_trim@, from as int);
        lemma_find_shifted(template@, close@, from as int);
    }
    let end = match (a, b) {
        (None, None) => {
            return Err(Error::UnableToExtractFrontmatter(FrontmatterProblem::NoEnd));
        },
        (Some(x), None) => x,
        (None, Some(y)) => y,
        (Some(x), Some(y)) => if x <= y {
            x
        } else {
            y
        },
    };
    proof {
        lemma_find_from_first(template@, close_trim@, from as int);
        lemma_find_from_first(template@, close@, from as int);
        assert(template@.subrange(from as int, end as int) =~= remaining.take(end - from));
    }
    Ok(template.substring_char(from, end))
}

/// Searching from a position on is searching in what follows the position.
pub proof fn lemma_find_shifted(hay: Seq<char>, needle: Seq<char>, from: int)
    requires
        0 <= from <= hay.len(),
    ensures
        crate::text::find_from(hay, needle, from) == match find(hay.skip(from), needle) {
            Some(p) => Some(p + from),
            None => None,
        },
{
    lemma_find_shifted_from(hay, needle, from, 0);
}

proof fn lemma_find_shifted_from(hay: Seq<char>, needle: Seq<char>, from: int, at: int)
    requires
        0 <= from <= hay.len(),
        0 <= at,
    ensures
        crate::text::find_from(hay, needle, from + at) == match crate::text::find_from(
            hay.skip(from),
            needle,
            at,
        ) {
            Some(p) => Some(p + from),
            None => None,
        },
    decreases hay.len() + 1 - from - at,
{
    let rest = hay.skip(from);
    if at + needle.len() <= rest.len() {
        assert(rest.subrange(at, at + needle.len()) =~= hay.subrange(from + at, from + at + needle.len()));
        if !occurs_at(rest, needle, at) {
            lemma_find_shifted_from(hay, needle, from, at + 1);
        }
    }
}

} // verus!
