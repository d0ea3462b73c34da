//! Which formatters and linters are run on generated files, on what, and
//! what is said when one of them cannot be run.

use vstd::prelude::*;
use crate::name_map::NameSet;
use crate::text::{concat, replace_all, replaced, str_eq, texts};

verus! {

/// The language of a generated file, as far as postprocessing tells them
/// apart.
#[derive(Debug, PartialEq, Eq, PartialOrd, Ord, Clone, Copy, Hash)]
pub enum PostprocessorLanguage {
    Python,
    Rust,
    Go,
    Kotlin,
    CSharp,
    Java,
    TypeScript,
    Ruby,
    Unknown,
}

/// The language that is written by a template, and in which a code sample
/// is formatted.
pub type CodegenLanguage = PostprocessorLanguage;

/// A program with the arguments that come before the paths.
pub struct ToolCommand {
    pub program: &'static str,
    pub args: Vec<&'static str>,
}

/// A sequence of string literals as texts.
pub open spec fn literals(args: Seq<&'static str>) -> Seq<Seq<char>> {
    Seq::new(args.len(), |i: int| args[i]@)
}

impl View for ToolCommand {
    type V = (Seq<char>, Seq<Seq<char>>);

    open spec fn view(&self) -> (Seq<char>, Seq<Seq<char>>) {
        (self.program@, literals(self.args@))
    }
}

/// The views of a list of commands.
pub open spec fn commands_view(commands: Seq<ToolCommand>) -> Seq<(Seq<char>, Seq<Seq<char>>)> {
    Seq::new(commands.len(), |i: int| commands[i]@)
}

/// The language of the files with the extension `ext`.
pub open spec fn language_of(ext: Seq<char>) -> PostprocessorLanguage {
    if ext == "py"@ {
        PostprocessorLanguage::Python
    } else if ext == "rs"@ {
        PostprocessorLanguage::Rust
    } else if ext == "go"@ {
        PostprocessorLanguage::Go
    } else if ext == "kt"@ {
        PostprocessorLanguage::Kotlin
    } else if ext == "cs"@ {
        PostprocessorLanguage::CSharp
    } else if ext == "java"@ {
        PostprocessorLanguage::Java
    } else if ext == "ts"@ {
        PostprocessorLanguage::TypeScript
    } else if ext == "rb"@ {
        PostprocessorLanguage::Ruby
    } else {
        PostprocessorLanguage::Unknown
    }
}

/// The commands that are run on the files of a language, in order.
pub open spec fn commands_of(lang: PostprocessorLanguage) -> Seq<(Seq<char>, Seq<Seq<char>>)> {
    match lang {
        PostprocessorLanguage::Unknown => seq![],
        PostprocessorLanguage::Python => seq![
            ("ruff"@, seq!["check"@, "--no-respect-gitignore"@, "--fix"@]),
            ("ruff"@, seq!["check"@, "--no-respect-gitignore"@, "--select"@, "I"@, "--fix"@]),
            ("ruff"@, seq!["format"@, "--no-respect-gitignore"@]),
        ],
        PostprocessorLanguage::Rust => seq![
            (
                "rustfmt"@,
                seq!["+nightly"@, "--unstable-features"@, "--skip-children"@, "--edition"@, "2021"@],
            ),
        ],
        PostprocessorLanguage::Go => seq![("goimports"@, seq!["-w"@]), ("gofmt"@, seq!["-w"@])],
        PostprocessorLanguage::Kotlin => seq![("ktfmt"@, seq!["--kotlinlang-style"@])],
        PostprocessorLanguage::CSharp => seq![
            ("dotnet"@, seq!["csharpier"@, "--fast"@, "--no-msbuild-check"@]),
        ],
        PostprocessorLanguage::Java => seq![("google-java-format"@, seq!["-i"@, "-a"@])],
        PostprocessorLanguage::TypeScript => seq![
            ("biome"@, seq!["lint"@, "--only=correctness/noUnusedImports"@, "--write"@]),
            (
                "biome"@,
                seq![
                    "check"@,
                    "--formatter-enabled=false"@,
                    "--linter-enabled=false"@,
                    "--organize-imports-enabled=true"@,
                    "--write"@,
                ],
            ),
            (
                "biome"@,
                seq![
                    "format"@,
                    "--trailing-commas=es5"@,
                    "--indent-style=space"@,
                    "--line-width=90"@,
                    "--write"@,
                ],
            ),
        ],
        PostprocessorLanguage::Ruby => seq![
            ("rubyfmt"@, seq!["-i"@, "--include-gitignored"@, "--fail-fast"@]),
        ],
    }
}

/// Whether the tools of a language take the generated files one by one,
/// rather than the output directory.
pub open spec fn takes_files(lang: PostprocessorLanguage) -> bool {
    lang == PostprocessorLanguage::Java || lang == PostprocessorLanguage::Rust
}

fn command(program: &'static str, args: Vec<&'static str>) -> (c: ToolCommand)
    ensures
        c@ == (program@, literals(args@)),
{
    ToolCommand { program, args }
}

impl PostprocessorLanguage {
    /// The language of the files with the extension `ext`.
    pub fn from_ext(ext: &str) -> (lang: PostprocessorLanguage)
        ensures
            lang == language_of(ext@),
    {
        if str_eq(ext, "py") {
            PostprocessorLanguage::Python
        } else if str_eq(ext, "rs") {
            PostprocessorLanguage::Rust
        } else if str_eq(ext, "go") {
            PostprocessorLanguage::Go
        } else if str_eq(ext, "kt") {
            PostprocessorLanguage::Kotlin
        } else if str_eq(ext, "cs") {
            PostprocessorLanguage::CSharp
        } else if str_eq(ext, "java") {
            PostprocessorLanguage::Java
        } else if str_eq(ext, "ts") {
            PostprocessorLanguage::TypeScript
        } else if str_eq(ext, "rb") {
            PostprocessorLanguage::Ruby
        } else {
            PostprocessorLanguage::Unknown
        }
    }

    /// The commands that are run on the files of this language, in order.
    pub fn postprocessing_commands(&self) -> (r: Vec<ToolCommand>)
        ensures
            commands_view(r@) == commands_of(*self),
    {
        let r = match self {
            PostprocessorLanguage::Unknown => vec![],
            PostprocessorLanguage::Python => vec![
                command("ruff", vec!["check", "--no-respect-gitignore", "--fix"]),
                command("ruff", vec!["check", "--no-respect-gitignore", "--select", "I", "--fix"]),
                command("ruff", vec!["format", "--no-respect-gitignore"]),
            ],
            PostprocessorLanguage::Rust => vec![
                command(
                    "rustfmt",
                    vec!["+nightly", "--unstable-features", "--skip-children", "--edition", "2021"],
                ),
            ],
            PostprocessorLanguage::Go => vec![
                command("goimports", vec!["-w"]),
                command("gofmt", vec!["-w"]),
            ],
            PostprocessorLanguage::Kotlin => vec![command("ktfmt", vec!["--kotlinlang-style"])],
            PostprocessorLanguage::CSharp => vec![
                command("dotnet", vec!["csharpier", "--fast", "--no-msbuild-check"]),
            ],
            PostprocessorLanguage::Java => vec![command("google-java-format", vec!["-i", "-a"])],
            PostprocessorLanguage::TypeScript => vec![
                command("biome", vec!["lint", "--only=correctness/noUnusedImports", "--write"]),
                command(
                    "biome",
                    vec![
                        "check",
                        "--formatter-enabled=false",
                        "--linter-enabled=false",
                        "--organize-imports-enabled=true",
                        "--write",
                    ],
                ),
                command(
                    "biome",
                    vec![
                        "format",
                        "--trailing-commas=es5",
                        "--indent-style=space",
                        "--line-width=90",
                        "--write",
                    ],
                ),
            ],
            PostprocessorLanguage::Ruby => vec![
                command("rubyfmt", vec!["-i", "--include-gitignored", "--fail-fast"]),
            ],
        };
        assert(commands_view(r@) =~~= commands_of(*self));
        r
    }
}

/// A program with all of its arguments.
#[derive(Debug, PartialEq)]
pub struct Invocation {
    pub program: &'static str,
    pub args: Vec<String>,
}

impl View for Invocation {
    type V = (Seq<char>, Seq<Seq<char>>);

    open spec fn view(&self) -> (Seq<char>, Seq<Seq<char>>) {
        (self.program@, texts(self.args@))
    }
}

/// The views of a list of invocations.
pub open spec fn invocations_view(list: Seq<Invocation>) -> Seq<(Seq<char>, Seq<Seq<char>>)> {
    Seq::new(list.len(), |i: int| list[i]@)
}

/// What the tools of a language are run on: the files that were written,
/// or the directory that they were written to.
pub open spec fn targets_of(lang: PostprocessorLanguage, files: Seq<Seq<char>>, output_dir: Seq<char>) -> Seq<
    Seq<char>,
> {
    if takes_files(lang) {
        files
    } else {
        seq![output_dir]
    }
}

/// The programs that are run after the files of a language have been
/// written, in order, each with its arguments and then what it is run on.
pub open spec fn invocations_of(lang: PostprocessorLanguage, files: Seq<Seq<char>>, output_dir: Seq<char>) -> Seq<
    (Seq<char>, Seq<Seq<char>>),
> {
    Seq::new(
        commands_of(lang).len(),
        |i: int| (commands_of(lang)[i].0, commands_of(lang)[i].1 + targets_of(lang, files, output_dir)),
    )
}

/// Where the programs are run.
#[derive(Debug, PartialEq, Eq, Clone, Copy)]
pub enum CommandRunner {
    /// On this machine.
    Cli,
    /// In a container.
    Docker,
}

/// What is run on the files that were written from one template.
pub struct Postprocessor {
    pub files_to_process: Vec<String>,
    pub postprocessor_lang: PostprocessorLanguage,
    pub output_dir: String,
    pub runner: CommandRunner,
}

impl Postprocessor {
    /// A postprocessor for files with the extension `ext` that are written
    /// to `output_dir`; no file has been written yet.
    pub fn from_ext(ext: &str, output_dir: &str, use_docker_backend: bool) -> (r: Postprocessor)
        ensures
            r.files_to_process@.len() == 0,
            r.postprocessor_lang == language_of(ext@),
            r.output_dir@ == output_dir@,
            r.runner == if use_docker_backend {
                CommandRunner::Docker
            } else {
                CommandRunner::Cli
            },
    {
        Postprocessor {
            files_to_process: Vec::new(),
            postprocessor_lang: PostprocessorLanguage::from_ext(ext),
            output_dir: output_dir.to_owned(),
            runner: if use_docker_backend {
                CommandRunner::Docker
            } else {
                CommandRunner::Cli
            },
        }
    }

    /// Notes that the file at `path` has been written.
    pub fn add_path(&mut self, path: &str)
        ensures
            texts(final(self).files_to_process@) == texts(old(self).files_to_process@).push(path@),
            final(self).postprocessor_lang == old(self).postprocessor_lang,
            final(self).output_dir == old(self).output_dir,
            final(self).runner == old(self).runner,
    {
        self.files_to_process.push(path.to_owned());
        assert(texts(self.files_to_process@) =~= texts(old(self).files_to_process@).push(path@));
    }

    /// The programs to run, in order.
    pub fn invocations(&self) -> (r: Vec<Invocation>)
        ensures
            invocations_view(r@) == invocations_of(
                self.postprocessor_lang,
                texts(self.files_to_process@),
                self.output_dir@,
            ),
    {
        let commands = self.postprocessor_lang.postprocessing_commands();
        let by_file = match self.postprocessor_lang {
            PostprocessorLanguage::Java | PostprocessorLanguage::Rust => true,
            _ => false,
        };
        let ghost targets = targets_of(self.postprocessor_lang, texts(self.files_to_process@), self.output_dir@);
        let mut out: Vec<Invocation> = Vec::new();
        let mut i: usize = 0;
        while i < commands.len()
            invariant
                i <= commands.len(),
                commands_view(commands@) == commands_of(self.postprocessor_lang),
                by_file == takes_files(self.postprocessor_lang),
                targets == targets_of(self.postprocessor_lang, texts(self.files_to_process@), self.output_dir@),
                out@.len() == i,
                forall|j: int|
                    0 <= j < i ==> out@[j]@ == (commands@[j]@.0, commands@[j]@.1 + targets),
            decreases commands.len() - i,
        {
            let command = &commands[i];
            let mut args: Vec<String> = Vec::new();
            let mut k: usize = 0;
            while k < command.args.len()
                invariant
                    k <= command.args.len(),
                    args@.len() == k,
                    forall|j: int| 0 <= j < k ==> args@[j]@ == command.args@[j]@,
                decreases command.args.len() - k,
            {
                args.push(command.args[k].to_owned());
                k += 1;
            }
            if by_file {
                let mut f: usize = 0;
                while f < self.files_to_process.len()
                    invariant
                        f <= self.files_to_process.len(),
                        args@.len() == command.args@.len() + f,
                        forall|j: int| 0 <= j < command.args@.len() ==> args@[j]@ == command.args@[j]@,
                        forall|j: int|
                            0 <= j < f ==> args@[command.args@.len() + j]@ == self.files_to_process@[j]@,
                    decreases self.files_to_process.len() - f,
                {
                    args.push(self.files_to_process[f].clone());
                    f += 1;
                }
            } else {
                args.push(self.output_dir.clone());
            }
            proof {
                assert(texts(args@) =~= literals(command.args@) + targets);
            }
            out.push(Invocation { program: command.program, args });
            i += 1;
        }
        proof {
            assert(commands_view(commands@).len() == commands@.len());
            assert forall|j: int| 0 <= j < out@.len() implies invocations_view(out@)[j] == invocations_of(
                self.postprocessor_lang,
                texts(self.files_to_process@),
                self.output_dir@,
            )[j] by {
                assert(commands_view(commands@)[j] == commands@[j]@);
            }
            assert(invocations_view(out@) =~= invocations_of(
                self.postprocessor_lang,
                texts(self.files_to_process@),
                self.output_dir@,
            ));
        }
        out
    }
}

/// How the run of a program ended.
#[derive(Debug, PartialEq, Eq, Clone, Copy)]
pub enum CommandResult {
    /// It ran and reported success.
    Success,
    /// It ran and reported failure.
    Failed { exit_code: Option<i32> },
    /// There is no such program.
    NotFound,
    /// It could not be run for another reason.
    RunError,
}

/// What to say of the run of a program.
#[derive(Debug, PartialEq, Eq, Clone, Copy)]
pub enum Notice {
    Failed { exit_code: Option<i32> },
    NotFound,
    RunError,
}

/// The programs that were found missing, so that each is reported once.
pub struct ToolReport {
    not_found: NameSet,
}

impl ToolReport {
    /// The programs that were found missing.
    pub closed spec fn missing(&self) -> Set<Seq<char>> {
        self.not_found.names()
    }

    /// A report with no program in it.
    pub fn new() -> (r: ToolReport)
        ensures
            r.missing() == Set::<Seq<char>>::empty(),
    {
        ToolReport { not_found: NameSet::new() }
    }

    /// Takes note of how the run of `command` ended, and says what to
    /// report of it: nothing of a success, and a missing program only the
    /// first time.
    pub fn record(&mut self, command: &str, result: CommandResult) -> (r: Option<Notice>)
        ensures
            final(self).missing() == if result == CommandResult::NotFound {
                old(self).missing().insert(command@)
            } else {
                old(self).missing()
            },
            r == match result {
                CommandResult::Success => None,
                CommandResult::Failed { exit_code } => Some(Notice::Failed { exit_code }),
                CommandResult::NotFound => if old(self).missing().contains(command@) {
                    None
                } else {
                    Some(Notice::NotFound)
                },
                CommandResult::RunError => Some(Notice::RunError),
            },
    {
        match result {
            CommandResult::Success => None,
            CommandResult::Failed { exit_code } => Some(Notice::Failed { exit_code }),
            CommandResult::NotFound => {
                if self.not_found.insert(command.to_owned()) {
                    Some(Notice::NotFound)
                } else {
                    None
                }
            },
            CommandResult::RunError => Some(Notice::RunError),
        }
    }
}

/// A container in which a program is run on the generated files.
#[derive(Debug, PartialEq)]
pub struct ContainerPlan {
    pub name: String,
    pub image: String,
    /// The output directory, mounted at the working directory.
    pub bind: String,
    pub working_dir: String,
    pub entrypoint: Vec<String>,
}

/// The paths as they are inside the container, where the output directory
/// is mounted at `/tmp`.
pub open spec fn container_paths(paths: Seq<Seq<char>>, output_dir: Seq<char>) -> Seq<Seq<char>> {
    Seq::new(paths.len(), |i: int| replaced(paths[i], output_dir, "/tmp"@))
}

/// The container in which `command` is run with `args` on `paths`. The
/// paths and the output directory are absolute; `suffix` makes the name of
/// the container its own.
pub fn container_plan(command: &str, args: &Vec<String>, paths: &Vec<String>, output_dir: &str, suffix: &str) -> (r:
    ContainerPlan)
    ensures
        r.name@ == "openapi-codegen-postprocess-"@ + suffix@,
        r.image@ == "svix/openapi-codegen-postprocess"@,
        r.bind@ == output_dir@ + ":/tmp"@,
        r.working_dir@ == "/tmp"@,
        texts(r.entrypoint@) == seq![command@] + texts(args@) + container_paths(texts(paths@), output_dir@),
{
    let mut entrypoint: Vec<String> = Vec::new();
    entrypoint.push(command.to_owned());
    let mut i: usize = 0;
    while i < args.len()
        invariant
            i <= args.len(),
            entrypoint@.len() == 1 + i,
            entrypoint@[0]@ == command@,
            forall|j: int| 0 <= j < i ==> entrypoint@[1 + j]@ == args@[j]@,
        decreases args.len() - i,
    {
        entrypoint.push(args[i].clone());
        i += 1;
    }
    let mut k: usize = 0;
    while k < paths.len()
        invariant
            k <= paths.len(),
            entrypoint@.len() == 1 + args@.len() + k,
            entrypoint@[0]@ == command@,
            forall|j: int| 0 <= j < args@.len() ==> entrypoint@[1 + j]@ == args@[j]@,
            forall|j: int|
                0 <= j < k ==> entrypoint@[1 + args@.len() + j]@ == replaced(paths@[j]@, output_dir@, "/tmp"@),
        decreases paths.len() - k,
    {
        entrypoint.push(replace_all(paths[k].as_str(), output_dir, "/tmp"));
        k += 1;
    }
    assert(texts(entrypoint@) =~= seq![command@] + texts(args@) + container_paths(texts(paths@), output_dir@));
    ContainerPlan {
        name: concat("openapi-codegen-postprocess-", suffix),
        image: "svix/openapi-codegen-postprocess".to_owned(),
        bind: concat(output_dir, ":/tmp"),
        working_dir: "/tmp".to_owned(),
        entrypoint,
    }
}

} // verus!
