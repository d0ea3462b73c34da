//! The text functions that templates call: doc comments, deprecation notes,
//! paths with the placeholders of each language, and questions about
//! operations and variants.

use vstd::prelude::*;
use crate::api::ir::{EnumVariantType, EnumVariantTypeView, SimpleVariant, SimpleVariantView, variants_view};
use crate::api::operation::{Operation, OperationView};
use crate::case::{lower_camel_case, snake_case, to_lower_camel_case, to_snake_case};
use crate::codesamples::{path_with_upto, populate_path, substitutions_view};
use crate::text::{
    chars_of, concat, contains_text, count_trailing_white_space, ends_with, find, replace_all, replaced, split,
    split_on, str_eq, texts, trailing_white_space,
};

verus! {

/// A doc text with a note that what it documents is deprecated.
pub open spec fn with_deprecation(s: Seq<char>, deprecated: bool) -> Seq<char> {
    if deprecated {
        if s.len() == 0 {
            "@deprecated"@
        } else {
            s + "\n\n@deprecated"@
        }
    } else {
        s
    }
}

/// A doc text with a note that what it documents is deprecated, if it is.
pub fn with_javadoc_deprecation(s: &str, deprecated: bool) -> (r: String)
    ensures
        r@ == with_deprecation(s@, deprecated),
{
    if deprecated {
        if s.unicode_len() == 0 {
            "@deprecated".to_owned()
        } else {
            concat(s, "\n\n@deprecated")
        }
    } else {
        s.to_owned()
    }
}

/// The text without the comma that comes last before any white space at
/// its end, and without that white space; the text as it is if there is no
/// such comma.
pub open spec fn without_trailing_comma(s: Seq<char>) -> Seq<char> {
    let trimmed = s.take(s.len() - trailing_white_space(s));
    if ends_with(trimmed, ","@) {
        trimmed.take(trimmed.len() - ","@.len())
    } else {
        s
    }
}

/// The text without the comma at its end.
pub fn strip_trailing_comma(s: &str) -> (r: String)
    ensures
        r@ == without_trailing_comma(s@),
{
    let chars = chars_of(s);
    let trailing = count_trailing_white_space(&chars);
    let kept = chars.len() - trailing;
    let trimmed = s.substring_char(0, kept);
    assert(s@.subrange(0, kept as int) =~= s@.take(kept as int));
    match crate::text::strip_suffix(trimmed, ",") {
        Some(stripped) => stripped.to_owned(),
        None => s.to_owned(),
    }
}

/// A piece of text between two line feeds, without the carriage return at
/// its end.
pub open spec fn line_of(piece: Seq<char>) -> Seq<char> {
    if piece.len() > 0 && piece.last() == '\r' {
        piece.drop_last()
    } else {
        piece
    }
}

/// The lines of a text: it is split at each line feed, a carriage return
/// before a line feed goes with it, and what follows the last line feed is
/// a line only if it is not empty.
pub open spec fn lines_of(s: Seq<char>) -> Seq<Seq<char>> {
    let pieces = split_on(s, '\n');
    let ended = Seq::new((pieces.len() - 1) as nat, |i: int| line_of(pieces[i]));
    if pieces.last().len() == 0 {
        ended
    } else {
        ended.push(pieces.last())
    }
}

/// The first `n` lines, each after `prefix`, with a line feed between each
/// two.
pub open spec fn prefixed_upto(lines: Seq<Seq<char>>, prefix: Seq<char>, n: nat) -> Seq<char>
    decreases n,
{
    if n == 0 || n > lines.len() {
        Seq::empty()
    } else if n == 1 {
        prefix + lines[0]
    } else {
        prefixed_upto(lines, prefix, (n - 1) as nat) + "\n"@ + prefix + lines[n - 1]
    }
}

/// The lines, each after `prefix`.
pub open spec fn prefixed_lines(s: Seq<char>, prefix: Seq<char>) -> Seq<char> {
    prefixed_upto(lines_of(s), prefix, lines_of(s).len())
}

/// Why a text cannot be made a doc comment.
#[derive(Debug, PartialEq, Eq, Clone, Copy)]
pub enum DocCommentError {
    UnsupportedStyle,
}

/// Whether `style` is one of the styles that put a text between `/**` and
/// `*/`.
pub open spec fn is_block_style(style: Seq<char>) -> bool {
    style == "java"@ || style == "kotlin"@ || style == "javascript"@ || style == "js"@ || style == "ts"@
        || style == "typescript"@ || style == "php_class"@
}

/// The marker that begins each line of a doc comment in a line style.
pub open spec fn line_marker(style: Seq<char>) -> Option<Seq<char>> {
    if style == "rust"@ || style == "csharp"@ {
        Some("/// "@)
    } else if style == "go"@ {
        Some("// "@)
    } else if style == "ruby"@ {
        Some("# "@)
    } else {
        None
    }
}

/// A text as a doc comment in the given style.
pub open spec fn doc_comment(s: Seq<char>, style: Seq<char>) -> Result<Seq<char>, DocCommentError> {
    if style == "php_field"@ {
        if find(s, "\n"@) is None {
            Ok(s)
        } else {
            Ok(replaced(s, "\n"@, "\n    * "@))
        }
    } else if style == "python"@ {
        Ok("\"\"\""@ + s + "\"\"\""@)
    } else if is_block_style(style) {
        if find(s, "\n"@) is None {
            Ok("/** "@ + s + " */"@)
        } else {
            Ok("/**\n"@ + prefixed_lines(s, "* "@) + "\n*/"@)
        }
    } else {
        match line_marker(style) {
            Some(marker) => Ok(prefixed_lines(s, marker)),
            None => Err(DocCommentError::UnsupportedStyle),
        }
    }
}

/// The lines of a text.
pub fn lines(s: &str) -> (r: Vec<String>)
    ensures
        texts(r@) == lines_of(s@),
{
    let mut pieces = split(s, '\n');
    let ghost all = texts(pieces@);
    let count = pieces.len();
    assert(all.len() == count);
    assert(count > 0);
    let last = match pieces.pop() {
        Some(p) => p,
        None => String::new(),
    };
    assert(last@ == all.last());
    let mut out: Vec<String> = Vec::new();
    let mut i: usize = 0;
    while i < pieces.len()
        invariant
            i <= pieces.len(),
            pieces@.len() == all.len() - 1,
            forall|j: int| 0 <= j < pieces@.len() ==> pieces@[j]@ == all[j],
            out@.len() == i,
            forall|j: int| 0 <= j < i ==> out@[j]@ == line_of(all[j]),
        decreases pieces.len() - i,
    {
        let piece = pieces[i].as_str();
        let chars = chars_of(piece);
        let n = chars.len();
        if n > 0 && chars[n - 1] == '\r' {
            let line = piece.substring_char(0, n - 1);
            assert(piece@.subrange(0, n - 1) =~= piece@.drop_last());
            out.push(line.to_owned());
        } else {
            out.push(piece.to_owned());
        }
        i += 1;
    }
    if last.as_str().unicode_len() != 0 {
        out.push(last);
    }
    assert(texts(out@) =~= lines_of(s@));
    out
}

/// The lines of a text, each after `prefix`, with a line feed between each
/// two.
pub fn prefix_lines(s: &str, prefix: &str) -> (r: String)
    ensures
        r@ == prefixed_lines(s@, prefix@),
{
    let all = lines(s);
    let mut out = String::new();
    let mut i: usize = 0;
    let ghost ls = texts(all@);
    while i < all.len()
        invariant
            i <= all.len(),
            ls == texts(all@),
            out@ == prefixed_upto(ls, prefix@, i as nat),
        decreases all.len() - i,
    {
        let ghost before = out@;
        if i > 0 {
            out.append("\n");
        }
        out.append(prefix);
        out.append(all[i].as_str());
        proof {
            assert(ls[i as int] == all@[i as int]@);
            if i == 0 {
                assert(before + prefix@ + ls[0] =~= prefix@ + ls[0]);
            }
        }
        i += 1;
    }
    out
}

/// A text as a doc comment in the given style.
pub fn to_doc_comment(s: &str, style: &str) -> (r: Result<String, DocCommentError>)
    ensures
        match r {
            Ok(text) => doc_comment(s@, style@) == Ok::<Seq<char>, DocCommentError>(text@),
            Err(e) => doc_comment(s@, style@) == Err::<Seq<char>, DocCommentError>(e),
        },
{
    if str_eq(style, "php_field") {
        if !contains_text(s, "\n") {
            return Ok(s.to_owned());
        } else {
            return Ok(replace_all(s, "\n", "\n    * "));
        }
    }
    if str_eq(style, "python") {
        let mut out = "\"\"\"".to_owned();
        out.append(s);
        out.append("\"\"\"");
        return Ok(out);
    }
    if str_eq(style, "java") || str_eq(style, "kotlin") || str_eq(style, "javascript") || str_eq(style, "js")
        || str_eq(style, "ts") || str_eq(style, "typescript") || str_eq(style, "php_class") {
        if !contains_text(s, "\n") {
            let mut out = "/** ".to_owned();
            out.append(s);
            out.append(" */");
            return Ok(out);
        }
        let mut out = "/**\n".to_owned();
        out.append(prefix_lines(s, "* ").as_str());
        out.append("\n*/");
        return Ok(out);
    }
    if str_eq(style, "rust") || str_eq(style, "csharp") {
        Ok(prefix_lines(s, "/// "))
    } else if str_eq(style, "go") {
        Ok(prefix_lines(s, "// "))
    } else if str_eq(style, "ruby") {
        Ok(prefix_lines(s, "# "))
    } else {
        Err(DocCommentError::UnsupportedStyle)
    }
}

/// The language of a path string with placeholders.
#[derive(Debug, PartialEq, Eq, Clone, Copy)]
pub enum PathSyntax {
    Kotlin,
    Java,
    Ruby,
    Php,
}

/// What stands in a path string of the given language for the path
/// parameter named `field`.
pub open spec fn path_argument(syntax: PathSyntax, field: Seq<char>) -> Seq<char> {
    match syntax {
        PathSyntax::Kotlin => "$"@ + lower_camel_case(field),
        PathSyntax::Java => "%s"@,
        PathSyntax::Ruby => "#{"@ + snake_case(field) + "}"@,
        PathSyntax::Php => "{$"@ + lower_camel_case(field) + "}"@,
    }
}

/// The path parameters, each with what stands for it in a path string of
/// the given language.
pub open spec fn path_arguments(syntax: PathSyntax, fields: Seq<Seq<char>>) -> Seq<(Seq<char>, Seq<char>)> {
    Seq::new(fields.len(), |i: int| (fields[i], path_argument(syntax, fields[i])))
}

/// The path as a string of the given language, with each `{field}`
/// replaced by what stands for the parameter there.
pub fn generate_path_str(syntax: PathSyntax, path: &str, path_params: &Vec<String>) -> (r: String)
    ensures
        r@ == path_with_upto(path@, path_arguments(syntax, texts(path_params@)), path_params@.len()),
{
    let mut substitutions: Vec<(String, String)> = Vec::new();
    let mut i: usize = 0;
    while i < path_params.len()
        invariant
            i <= path_params.len(),
            substitutions@.len() == i,
            forall|j: int|
                0 <= j < i ==> substitutions@[j].0@ == path_params@[j]@ && substitutions@[j].1@ == path_argument(
                    syntax,
                    path_params@[j]@,
                ),
        decreases path_params.len() - i,
    {
        let field = path_params[i].as_str();
        let argument = match syntax {
            PathSyntax::Kotlin => concat("$", to_lower_camel_case(field).as_str()),
            PathSyntax::Java => "%s".to_owned(),
            PathSyntax::Ruby => {
                let mut a = concat("#{", to_snake_case(field).as_str());
                a.append("}");
                a
            },
            PathSyntax::Php => {
                let mut a = concat("{$", to_lower_camel_case(field).as_str());
                a.append("}");
                a
            },
        };
        substitutions.push((field.to_owned(), argument));
        i += 1;
    }
    assert(substitutions_view(substitutions@) =~= path_arguments(syntax, texts(path_params@)));
    populate_path(path, &substitutions)
}

/// Whether one of the header or query parameters of an operation is
/// required.
pub open spec fn has_required_params(op: OperationView) -> bool {
    (exists|i: int| 0 <= i < op.query_params.len() && #[trigger] op.query_params[i].required) || (exists|i: int|
        0 <= i < op.header_params.len() && #[trigger] op.header_params[i].required)
}

/// Whether one of the header or query parameters of an operation is
/// required.
pub fn has_required_query_or_header_params(op: &Operation) -> (r: bool)
    ensures
        r == has_required_params(op@),
{
    let mut i: usize = 0;
    while i < op.query_params.len()
        invariant
            i <= op.query_params.len(),
            forall|j: int| 0 <= j < i ==> !op@.query_params[j].required,
        decreases op.query_params.len() - i,
    {
        if op.query_params[i].required {
            assert(op@.query_params[i as int].required);
            return true;
        }
        i += 1;
    }
    let mut k: usize = 0;
    while k < op.header_params.len()
        invariant
            k <= op.header_params.len(),
            forall|j: int| 0 <= j < op@.query_params.len() ==> !op@.query_params[j].required,
            forall|j: int| 0 <= j < k ==> !op@.header_params[j].required,
        decreases op.header_params.len() - k,
    {
        if op.header_params[k].required {
            assert(op@.header_params[k as int].required);
            return true;
        }
        k += 1;
    }
    false
}

/// Whether a variant's content is a reference.
pub open spec fn is_ref_variant(v: SimpleVariantView) -> bool {
    v.content is Ref
}

/// What the references of a list refer to.
pub open spec fn referents(list: Seq<&SimpleVariant>) -> Seq<SimpleVariant> {
    Seq::new(list.len(), |i: int| *list[i])
}

/// The variants whose content is a reference, or, with `refs` false, those
/// whose content is a struct; in their order.
pub fn struct_enum_variants(variants: &Vec<SimpleVariant>, refs: bool) -> (r: Vec<&SimpleVariant>)
    ensures
        referents(r@) == variants@.filter(|v: SimpleVariant| is_ref_variant(v@) == refs),
{
    let mut out: Vec<&SimpleVariant> = Vec::new();
    let mut i: usize = 0;
    let ghost wanted = |v: SimpleVariant| is_ref_variant(v@) == refs;
    proof {
        assert(variants@.take(0) =~= Seq::<SimpleVariant>::empty());
        assert(referents(out@) =~= variants@.take(0).filter(wanted));
    }
    while i < variants.len()
        invariant
            i <= variants.len(),
            wanted == |v: SimpleVariant| is_ref_variant(v@) == refs,
            referents(out@) == variants@.take(i as int).filter(wanted),
        decreases variants.len() - i,
    {
        let is_ref = match &variants[i].content {
            EnumVariantType::Ref { .. } => true,
            EnumVariantType::Struct { .. } => false,
        };
        proof {
            let head = variants@.take(i + 1);
            assert(head.drop_last() =~= variants@.take(i as int));
            assert(head.last() == variants@[i as int]);
            reveal(Seq::filter);
        }
        let ghost before = referents(out@);
        if is_ref == refs {
            out.push(&variants[i]);
            assert(referents(out@) =~= before.push(variants@[i as int]));
        }
        i += 1;
    }
    assert(variants@.take(variants@.len() as int) =~= variants@);
    out
}

/// Whether some variant's content is a struct.
pub fn has_non_ref_struct_enum_variants(variants: &Vec<SimpleVariant>) -> (r: bool)
    ensures
        r == exists|i: int| 0 <= i < variants@.len() && !is_ref_variant(#[trigger] variants@[i]@),
{
    let mut i: usize = 0;
    while i < variants.len()
        invariant
            i <= variants.len(),
            forall|j: int| 0 <= j < i ==> is_ref_variant(#[trigger] variants@[j]@),
        decreases variants.len() - i,
    {
        let is_ref = match &variants[i].content {
            EnumVariantType::Ref { .. } => true,
            EnumVariantType::Struct { .. } => false,
        };
        if !is_ref {
            assert(!is_ref_variant(variants@[i as int]@));
            return true;
        }
        i += 1;
    }
    false
}

} // verus!
