//! What a template is for, and how the files written from it are named.

use vstd::prelude::*;
use camino::Utf8Path;
use crate::case::{
    lower_camel_case, snake_case, to_lower_camel_case, to_snake_case, to_upper_camel_case, upper_camel_case,
};
use crate::json::opt_text;
use crate::text::{concat, ends_with, occurs_at, rsplit_once, rsplit_once_of, str_eq, strip_suffix};

verus! {

/// What a template is rendered for.
#[derive(Debug, PartialEq, Eq, Clone, Copy)]
pub enum TemplateKind {
    /// Once for each resource.
    ApiResource,
    /// Once for each operation that has query or header parameters.
    OperationOptions,
    /// Once for each named type.
    Type,
    /// Once in all.
    Summary,
}

/// Why a template name is not one of a template.
#[derive(Debug, PartialEq, Eq, Clone, Copy)]
pub enum GenerateError {
    /// The name has no file name at its end.
    NoFileName,
    /// The file name has no `.`.
    NoExtension,
    /// The file name does not begin with one of the known names.
    UnknownTemplate,
}

/// A template file name taken apart.
#[derive(Debug, PartialEq)]
pub struct TemplateFile {
    /// The file name up to its last `.`.
    pub base_name: String,
    /// The extension of the files that are written from the template.
    pub file_ext: String,
    pub kind: TemplateKind,
}

/// The suffix of a template file.
pub open spec fn template_suffix() -> Seq<char> {
    ".jinja"@
}

/// The path of the template file: the name, with the template suffix if it
/// has none.
pub open spec fn template_path_of(name: Seq<char>) -> Seq<char> {
    if ends_with(name, template_suffix()) {
        name
    } else {
        name + template_suffix()
    }
}

/// The name without the template suffix.
pub open spec fn output_name_of(name: Seq<char>) -> Seq<char> {
    if ends_with(name, template_suffix()) {
        name.take(name.len() - template_suffix().len())
    } else {
        name
    }
}

/// What the template with the given base name is rendered for.
pub open spec fn template_kind_of(base_name: Seq<char>) -> Option<TemplateKind> {
    if base_name == "api_resource"@ {
        Some(TemplateKind::ApiResource)
    } else if base_name == "operation_options"@ {
        Some(TemplateKind::OperationOptions)
    } else if base_name == "api_summary"@ || base_name == "component_type_summary"@ || base_name == "summary"@ {
        Some(TemplateKind::Summary)
    } else if base_name == "component_type"@ {
        Some(TemplateKind::Type)
    } else {
        None
    }
}

/// The parts of a template's file name: the base name, the extension and
/// what the template is for.
pub open spec fn template_file_of(file_name: Option<Seq<char>>) -> Result<
    (Seq<char>, Seq<char>, TemplateKind),
    GenerateError,
> {
    match file_name {
        None => Err(GenerateError::NoFileName),
        Some(f) => match rsplit_once_of(f, '.') {
            None => Err(GenerateError::NoExtension),
            Some((base, ext)) => match template_kind_of(base) {
                None => Err(GenerateError::UnknownTemplate),
                Some(kind) => Ok((base, ext, kind)),
            },
        },
    }
}

/// The path of the template file and the name without the template suffix.
pub fn template_path(tpl_name: &str) -> (r: (String, String))
    ensures
        r.0@ == template_path_of(tpl_name@),
        r.1@ == output_name_of(tpl_name@),
{
    match strip_suffix(tpl_name, ".jinja") {
        Some(without) => (tpl_name.to_owned(), without.to_owned()),
        None => (concat(tpl_name, ".jinja"), tpl_name.to_owned()),
    }
}

/// What the template with the given base name is rendered for.
pub fn template_kind(base_name: &str) -> (r: Option<TemplateKind>)
    ensures
        r == template_kind_of(base_name@),
{
    if str_eq(base_name, "api_resource") {
        Some(TemplateKind::ApiResource)
    } else if str_eq(base_name, "operation_options") {
        Some(TemplateKind::OperationOptions)
    } else if str_eq(base_name, "api_summary") || str_eq(base_name, "component_type_summary") || str_eq(
        base_name,
        "summary",
    ) {
        Some(TemplateKind::Summary)
    } else if str_eq(base_name, "component_type") {
        Some(TemplateKind::Type)
    } else {
        None
    }
}

/// Takes the file name of a template apart.
pub fn classify_file_name(file_name: Option<&str>) -> (r: Result<TemplateFile, GenerateError>)
    ensures
        match r {
            Ok(t) => template_file_of(
                match file_name {
                    Some(f) => Some(f@),
                    None => None,
                },
            ) == Ok::<(Seq<char>, Seq<char>, TemplateKind), GenerateError>(
                (t.base_name@, t.file_ext@, t.kind),
            ),
            Err(e) => template_file_of(
                match file_name {
                    Some(f) => Some(f@),
                    None => None,
                },
            ) == Err::<(Seq<char>, Seq<char>, TemplateKind), GenerateError>(e),
        },
{
    let name = match file_name {
        Some(f) => f,
        None => {
            return Err(GenerateError::NoFileName);
        },
    };
    let (base, ext) = match rsplit_once(name, '.') {
        Some(parts) => parts,
        None => {
            return Err(GenerateError::NoExtension);
        },
    };
    match template_kind(base) {
        Some(kind) => Ok(TemplateFile { base_name: base.to_owned(), file_ext: ext.to_owned(), kind }),
        None => Err(GenerateError::UnknownTemplate),
    }
}

/// Whether `name` can be the file name of `path` on some platform: a file
/// name is a part of the path that is not empty.
pub open spec fn may_be_file_name(path: Seq<char>, name: Option<Seq<char>>) -> bool {
    match name {
        Some(n) => n.len() > 0 && exists|at: int| occurs_at(path, n, at),
        None => true,
    }
}

/// `Utf8Path::file_name` of the `camino` crate: the last component of the
/// path, if the path ends in one. What counts as a separator depends on the
/// platform, so only this is stated: a file name is a part of the path
/// that is not empty.
#[verifier::external_body]
fn file_name_of(path: &str) -> (r: Option<String>)
    ensures
        may_be_file_name(path@, opt_text(r)),
{
    Utf8Path::new(path).file_name().map(str::to_owned)
}

/// The path of the template file named `tpl_name`, and its file name taken
/// apart. The file name is what the platform takes for the last component
/// of the name without the template suffix: a part of that name.
pub fn analyze_template_name(tpl_name: &str) -> (r: (String, Result<TemplateFile, GenerateError>))
    ensures
        r.0@ == template_path_of(tpl_name@),
        exists|file_name: Option<Seq<char>>|
            may_be_file_name(output_name_of(tpl_name@), file_name) && match r.1 {
                Ok(t) => #[trigger] template_file_of(file_name) == Ok::<
                    (Seq<char>, Seq<char>, TemplateKind),
                    GenerateError,
                >((t.base_name@, t.file_ext@, t.kind)),
                Err(e) => #[trigger] template_file_of(file_name) == Err::<
                    (Seq<char>, Seq<char>, TemplateKind),
                    GenerateError,
                >(e),
            },
{
    let (path, without_suffix) = template_path(tpl_name);
    let file_name = file_name_of(without_suffix.as_str());
    let classified = match &file_name {
        Some(f) => classify_file_name(Some(f.as_str())),
        None => classify_file_name(None),
    };
    proof {
        let witness = opt_text(file_name);
        if classified is Ok {
            let t = classified->Ok_0;
            assert(template_file_of(witness) == Ok::<(Seq<char>, Seq<char>, TemplateKind), GenerateError>(
                (t.base_name@, t.file_ext@, t.kind),
            ));
        } else {
            assert(template_file_of(witness) == Err::<(Seq<char>, Seq<char>, TemplateKind), GenerateError>(
                classified->Err_0,
            ));
        }
    }
    (path, classified)
}

/// The name, without extension, of the file that is written for the thing
/// named `output_name`, or for the summary if there is no such name: the
/// name in the case convention of the language that the extension stands
/// for, or the language's name for a summary file.
pub open spec fn basename_of(output_name: Option<Seq<char>>, ext: Seq<char>) -> Seq<char> {
    match output_name {
        Some(name) => if ext == "ts"@ {
            lower_camel_case(name)
        } else if ext == "cs"@ || ext == "java"@ || ext == "kt"@ || ext == "php"@ {
            upper_camel_case(name)
        } else {
            snake_case(name)
        },
        None => if ext == "py"@ {
            "__init__"@
        } else if ext == "rs"@ {
            "mod"@
        } else if ext == "cs"@ || ext == "java"@ || ext == "kt"@ {
            "Summary"@
        } else if ext == "ts"@ {
            "index"@
        } else if ext == "go"@ {
            "models"@
        } else if ext == "rb"@ {
            "svix"@
        } else if ext == "php"@ {
            "Svix"@
        } else {
            "summary"@
        },
    }
}

/// The name, without extension, of the file that is written for the thing
/// named `output_name`, or for the summary if there is no such name.
pub fn basename(output_name: Option<&str>, tpl_file_ext: &str) -> (r: String)
    ensures
        r@ == basename_of(
            match output_name {
                Some(n) => Some(n@),
                None => None,
            },
            tpl_file_ext@,
        ),
{
    match output_name {
        Some(name) => {
            if str_eq(tpl_file_ext, "ts") {
                to_lower_camel_case(name)
            } else if str_eq(tpl_file_ext, "cs") || str_eq(tpl_file_ext, "java") || str_eq(tpl_file_ext, "kt")
                || str_eq(tpl_file_ext, "php") {
                to_upper_camel_case(name)
            } else {
                to_snake_case(name)
            }
        },
        None => {
            if str_eq(tpl_file_ext, "py") {
                "__init__".to_owned()
            } else if str_eq(tpl_file_ext, "rs") {
                "mod".to_owned()
            } else if str_eq(tpl_file_ext, "cs") || str_eq(tpl_file_ext, "java") || str_eq(tpl_file_ext, "kt") {
                "Summary".to_owned()
            } else if str_eq(tpl_file_ext, "ts") {
                "index".to_owned()
            } else if str_eq(tpl_file_ext, "go") {
                "models".to_owned()
            } else if str_eq(tpl_file_ext, "rb") {
                "svix".to_owned()
            } else if str_eq(tpl_file_ext, "php") {
                "Svix".to_owned()
            } else {
                "summary".to_owned()
            }
        },
    }
}

/// The name of the file that is written: the one that the template asked
/// for while it was rendered, or else the base name with the extension.
pub fn output_file_name(summary_filename: Option<&str>, basename: &str, tpl_file_ext: &str) -> (r: String)
    ensures
        r@ == match summary_filename {
            Some(f) => f@,
            None => basename@ + "."@ + tpl_file_ext@,
        },
{
    match summary_filename {
        Some(f) => f.to_owned(),
        None => {
            let mut r = basename.to_owned();
            r.append(".");
            r.append(tpl_file_ext);
            r
        },
    }
}

/// The name under which the options of an operation are written.
pub fn options_output_name(resource_name: &str, operation_name: &str) -> (r: String)
    ensures
        r@ == resource_name@ + "_"@ + operation_name@ + "_Options"@,
{
    let mut r = resource_name.to_owned();
    r.append("_");
    r.append(operation_name);
    r.append("_Options");
    r
}

} // verus!
