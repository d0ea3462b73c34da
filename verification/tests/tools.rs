use indexmap::IndexMap;
use openapi_codegen::api::ir::{EnumVariantType, Field, FieldType, SimpleVariant, StructEnumRepr, Type, TypeData};
use openapi_codegen::api::operation::{HeaderParam, Operation, QueryParam};
use openapi_codegen::cli_v2::frontmatter::{extract_frontmatter_from_comment, TemplateScope};
use openapi_codegen::cli_v2::value_vec::{check_call, ensure_n_args, CallError};
use openapi_codegen::cli_v2::{Error, FrontmatterProblem};
use openapi_codegen::codesamples::{populate_path, recursively_resolve_type};
use openapi_codegen::generator::{
    analyze_template_name, basename, classify_file_name, options_output_name, output_file_name,
    template_kind, template_path, GenerateError, TemplateFile, TemplateKind,
};
use openapi_codegen::json::{JsonMember, JsonValue};
use openapi_codegen::name_map::NameMap;
use openapi_codegen::openapi::{
    Components, MediaEntry, MediaType, OpenApi, Operation as SpecOperation, Parameter, ParameterData,
    ParameterSchemaOrContent, PathEntry, PathItem, PathStyle, Paths, ReferenceOr, RequestBody, Response,
    Responses, StatusCode, StatusEntry,
};
use openapi_codegen::pool::SchemaPool;
use openapi_codegen::postprocessing::{
    container_plan, CommandResult, CommandRunner, Invocation, Notice, Postprocessor, PostprocessorLanguage,
    ToolReport,
};
use openapi_codegen::preprocess_spec::{
    add_ee_prefix, add_prefix_to_schema, prefix_ref, prefix_ref_in_place, prefix_str,
};
use openapi_codegen::schema::{
    ArrayItems, ArrayValidation, InstanceType, ObjectValidation, Property, Schema, SchemaObject, SchemaTypes,
};
use openapi_codegen::template::{
    generate_path_str, has_non_ref_struct_enum_variants, has_required_query_or_header_params, lines,
    prefix_lines, strip_trailing_comma, struct_enum_variants, to_doc_comment, with_javadoc_deprecation,
    DocCommentError, PathSyntax,
};
use openapi_codegen::util::{sha256sum_string, to_hex};
use openapi_codegen::webhooks::get_webhooks;
use openapi_codegen::{CodeSample, CodegenLanguage, CodesampleTemplates};

#[test]
fn extensions_name_their_language() {
    let cases = [
        ("py", PostprocessorLanguage::Python),
        ("rs", PostprocessorLanguage::Rust),
        ("go", PostprocessorLanguage::Go),
        ("kt", PostprocessorLanguage::Kotlin),
        ("cs", PostprocessorLanguage::CSharp),
        ("java", PostprocessorLanguage::Java),
        ("ts", PostprocessorLanguage::TypeScript),
        ("rb", PostprocessorLanguage::Ruby),
        ("php", PostprocessorLanguage::Unknown),
        ("", PostprocessorLanguage::Unknown),
        ("PY", PostprocessorLanguage::Unknown),
    ];
    for (ext, lang) in cases {
        assert_eq!(PostprocessorLanguage::from_ext(ext), lang, "{ext}");
    }
}

fn commands(lang: PostprocessorLanguage) -> Vec<(&'static str, Vec<&'static str>)> {
    lang.postprocessing_commands().into_iter().map(|c| (c.program, c.args)).collect()
}

#[test]
fn each_language_has_its_tools() {
    assert_eq!(commands(PostprocessorLanguage::Unknown), vec![]);
    assert_eq!(
        commands(PostprocessorLanguage::Python),
        vec![
            ("ruff", vec!["check", "--no-respect-gitignore", "--fix"]),
            ("ruff", vec!["check", "--no-respect-gitignore", "--select", "I", "--fix"]),
            ("ruff", vec!["format", "--no-respect-gitignore"]),
        ]
    );
    assert_eq!(
        commands(PostprocessorLanguage::Rust),
        vec![("rustfmt", vec!["+nightly", "--unstable-features", "--skip-children", "--edition", "2021"])]
    );
    assert_eq!(commands(PostprocessorLanguage::Go), vec![("goimports", vec!["-w"]), ("gofmt", vec!["-w"])]);
    assert_eq!(commands(PostprocessorLanguage::Kotlin), vec![("ktfmt", vec!["--kotlinlang-style"])]);
    assert_eq!(
        commands(PostprocessorLanguage::CSharp),
        vec![("dotnet", vec!["csharpier", "--fast", "--no-msbuild-check"])]
    );
    assert_eq!(commands(PostprocessorLanguage::Java), vec![("google-java-format", vec!["-i", "-a"])]);
    assert_eq!(
        commands(PostprocessorLanguage::TypeScript),
        vec![
            ("biome", vec!["lint", "--only=correctness/noUnusedImports", "--write"]),
            (
                "biome",
                vec![
                    "check",
                    "--formatter-enabled=false",
                    "--linter-enabled=false",
                    "--organize-imports-enabled=true",
                    "--write"
                ]
            ),
            (
                "biome",
                vec!["format", "--trailing-commas=es5", "--indent-style=space", "--line-width=90", "--write"]
            ),
        ]
    );
    assert_eq!(
        commands(PostprocessorLanguage::Ruby),
        vec![("rubyfmt", vec!["-i", "--include-gitignored", "--fail-fast"])]
    );
}

#[test]
fn tools_run_on_files_or_on_the_directory() {
    let mut java = Postprocessor::from_ext("java", "out", false);
    assert_eq!(java.runner, CommandRunner::Cli);
    java.add_path("out/A.java");
    java.add_path("out/B.java");
    assert_eq!(
        java.invocations(),
        vec![Invocation {
            program: "google-java-format",
            args: vec!["-i".into(), "-a".into(), "out/A.java".into(), "out/B.java".into()],
        }]
    );
    let mut go = Postprocessor::from_ext("go", "out", true);
    assert_eq!(go.runner, CommandRunner::Docker);
    go.add_path("out/a.go");
    assert_eq!(
        go.invocations(),
        vec![
            Invocation { program: "goimports", args: vec!["-w".into(), "out".into()] },
            Invocation { program: "gofmt", args: vec!["-w".into(), "out".into()] },
        ]
    );
    let mut other = Postprocessor::from_ext("txt", "out", false);
    other.add_path("out/a.txt");
    assert_eq!(other.invocations(), vec![]);
    let rust = Postprocessor::from_ext("rs", "out", false);
    assert_eq!(rust.invocations().len(), 1);
    assert_eq!(rust.invocations()[0].args.len(), 5);
}

#[test]
fn a_missing_tool_is_reported_once() {
    let mut report = ToolReport::new();
    assert_eq!(report.record("ruff", CommandResult::Success), None);
    assert_eq!(report.record("ruff", CommandResult::NotFound), Some(Notice::NotFound));
    assert_eq!(report.record("ruff", CommandResult::NotFound), None);
    assert_eq!(report.record("gofmt", CommandResult::NotFound), Some(Notice::NotFound));
    assert_eq!(
        report.record("ruff", CommandResult::Failed { exit_code: Some(2) }),
        Some(Notice::Failed { exit_code: Some(2) })
    );
    assert_eq!(
        report.record("ruff", CommandResult::Failed { exit_code: None }),
        Some(Notice::Failed { exit_code: None })
    );
    assert_eq!(report.record("ruff", CommandResult::RunError), Some(Notice::RunError));
    assert_eq!(report.record("ruff", CommandResult::RunError), Some(Notice::RunError));
    assert_eq!(report.record("gofmt", CommandResult::NotFound), None);
}

#[test]
fn container_sees_the_output_directory_at_tmp() {
    let plan = container_plan(
        "gofmt",
        &vec!["-w".to_string()],
        &vec!["/home/me/out/a.go".to_string(), "/elsewhere/b.go".to_string(), "/home/me/out".to_string()],
        "/home/me/out",
        "abc123",
    );
    assert_eq!(plan.name, "openapi-codegen-postprocess-abc123");
    assert_eq!(plan.image, "svix/openapi-codegen-postprocess");
    assert_eq!(plan.bind, "/home/me/out:/tmp");
    assert_eq!(plan.working_dir, "/tmp");
    assert_eq!(plan.entrypoint, vec!["gofmt", "-w", "/tmp/a.go", "/elsewhere/b.go", "/tmp"]);
}

#[test]
fn template_names_say_what_they_are_for() {
    assert_eq!(
        template_path("templates/api_resource.rs"),
        ("templates/api_resource.rs.jinja".to_string(), "templates/api_resource.rs".to_string())
    );
    assert_eq!(
        template_path("templates/api_resource.rs.jinja"),
        ("templates/api_resource.rs.jinja".to_string(), "templates/api_resource.rs".to_string())
    );
    assert_eq!(template_kind("api_resource"), Some(TemplateKind::ApiResource));
    assert_eq!(template_kind("operation_options"), Some(TemplateKind::OperationOptions));
    assert_eq!(template_kind("api_summary"), Some(TemplateKind::Summary));
    assert_eq!(template_kind("component_type_summary"), Some(TemplateKind::Summary));
    assert_eq!(template_kind("summary"), Some(TemplateKind::Summary));
    assert_eq!(template_kind("component_type"), Some(TemplateKind::Type));
    assert_eq!(template_kind("component"), None);
    assert_eq!(
        classify_file_name(Some("component_type.py")),
        Ok(TemplateFile { base_name: "component_type".into(), file_ext: "py".into(), kind: TemplateKind::Type })
    );
    assert_eq!(classify_file_name(Some("api_resource")), Err(GenerateError::NoExtension));
    assert_eq!(classify_file_name(Some("other.py")), Err(GenerateError::UnknownTemplate));
    assert_eq!(classify_file_name(Some("api.resource.py")), Err(GenerateError::UnknownTemplate));
    assert_eq!(classify_file_name(None), Err(GenerateError::NoFileName));

    let (path, file) = analyze_template_name("templates/rust/api_summary.rs.jinja");
    assert_eq!(path, "templates/rust/api_summary.rs.jinja");
    assert_eq!(
        file,
        Ok(TemplateFile { base_name: "api_summary".into(), file_ext: "rs".into(), kind: TemplateKind::Summary })
    );
    let (path, file) = analyze_template_name("operation_options.kt");
    assert_eq!(path, "operation_options.kt.jinja");
    assert_eq!(file.map(|f| f.kind), Ok(TemplateKind::OperationOptions));
    assert_eq!(analyze_template_name("..").1, Err(GenerateError::NoFileName));
    assert_eq!(analyze_template_name("").1, Err(GenerateError::NoFileName));
}

#[test]
fn output_files_are_named_in_the_case_of_the_language() {
    assert_eq!(basename(Some("message_attempt-endpoint"), "ts"), "messageAttemptEndpoint");
    for ext in ["cs", "java", "kt", "php"] {
        assert_eq!(basename(Some("message_attempt-endpoint"), ext), "MessageAttemptEndpoint");
    }
    for ext in ["rs", "py", "go", "rb", ""] {
        assert_eq!(basename(Some("MessageAttempt-endpoint"), ext), "message_attempt_endpoint");
    }
    assert_eq!(basename(Some("application_create_Options"), "rs"), "application_create_options");
    let summaries = [
        ("py", "__init__"),
        ("rs", "mod"),
        ("cs", "Summary"),
        ("java", "Summary"),
        ("kt", "Summary"),
        ("ts", "index"),
        ("go", "models"),
        ("rb", "svix"),
        ("php", "Svix"),
        ("txt", "summary"),
    ];
    for (ext, expected) in summaries {
        assert_eq!(basename(None, ext), expected);
    }
    assert_eq!(output_file_name(None, "mod", "rs"), "mod.rs");
    assert_eq!(output_file_name(Some("lib.rs"), "mod", "rs"), "lib.rs");
    assert_eq!(options_output_name("application", "list"), "application_list_Options");
}

fn frontmatter_cases() -> [(&'static str, &'static str); 4] {
    [("{#", "#}"), ("{#-", "#}"), ("{#", "-#}"), ("{#-", "-#}")]
}

#[test]
fn test_multiline_comment() {
    for (comment_start, comment_end) in frontmatter_cases() {
        let expected_frontmatter = r#"hello "" ' ' # { } # = -  world"#;
        let tml = format!(
            r#"
        {comment_start}
        hello "" ' ' # {{ }} # = -  world
        {comment_end}
            "#
        );
        let frontmatter = extract_frontmatter_from_comment(&tml).unwrap();
        assert_eq!(frontmatter.trim(), expected_frontmatter);
    }
}

#[test]
fn test_comments_after_frontmatter_ignored() {
    for (comment_start, comment_end) in frontmatter_cases() {
        let expected_frontmatter = r#" template_scope = "spec" "#;
        let tml = format!(
            r#"
        {comment_start} template_scope = "spec" {comment_end}

        {{#    #}}
        {{#-   #}}
        {{#   -#}}
        {{#-  -#}}
        "#
        );
        let frontmatter = extract_frontmatter_from_comment(&tml).unwrap();
        assert_eq!(frontmatter, expected_frontmatter);
    }
}

#[test]
fn test_frontmatter_comment_permutations() {
    for (comment_start, comment_end) in frontmatter_cases() {
        let expected_frontmatter = r#"hello "" ' ' # { } # = -  world"#;
        let tml = format!(r#"{comment_start}hello "" ' ' # {{ }} # = -  world{comment_end}"#);
        let frontmatter = extract_frontmatter_from_comment(&tml).unwrap();
        assert_eq!(frontmatter, expected_frontmatter);
    }
}

#[test]
fn frontmatter_must_open_the_template_and_be_closed() {
    assert_eq!(
        extract_frontmatter_from_comment("text {# late #}"),
        Err(Error::UnableToExtractFrontmatter(FrontmatterProblem::NotAtStart))
    );
    assert_eq!(
        extract_frontmatter_from_comment(""),
        Err(Error::UnableToExtractFrontmatter(FrontmatterProblem::NotAtStart))
    );
    assert_eq!(
        extract_frontmatter_from_comment("  \n\t{"),
        Err(Error::UnableToExtractFrontmatter(FrontmatterProblem::NotAtStart))
    );
    assert_eq!(
        extract_frontmatter_from_comment("{# never closed"),
        Err(Error::UnableToExtractFrontmatter(FrontmatterProblem::NoEnd))
    );
    assert_eq!(
        extract_frontmatter_from_comment("{#}"),
        Err(Error::UnableToExtractFrontmatter(FrontmatterProblem::NoEnd))
    );
    assert_eq!(extract_frontmatter_from_comment("{##}"), Ok(""));
    assert_eq!(extract_frontmatter_from_comment("{#-#}"), Ok(""));
    assert_eq!(extract_frontmatter_from_comment("{#--#}"), Ok(""));
    assert_eq!(extract_frontmatter_from_comment("\u{3000}{# é #} x"), Ok(" é "));
    assert_eq!(FrontmatterProblem::NotAtStart.message(), "Frontmatter must be at start of file");
    assert_eq!(FrontmatterProblem::NoEnd.message(), "No frontmatter end found");
    assert_eq!(TemplateScope::from_name("spec"), Some(TemplateScope::Spec));
    assert_eq!(TemplateScope::from_name("resource"), Some(TemplateScope::Resource));
    assert_eq!(TemplateScope::from_name("Spec"), None);
}

#[test]
fn the_value_list_takes_one_value_at_a_time() {
    assert_eq!(check_call("push", 1), Ok(()));
    assert_eq!(check_call("push", 0), Err(CallError::MissingArgument));
    assert_eq!(check_call("push", 2), Err(CallError::TooManyArguments));
    assert_eq!(check_call("pop", 1), Err(CallError::UnknownMethod));
    assert_eq!(ensure_n_args(3, 3), Ok(()));
    assert_eq!(ensure_n_args(3, 2), Err(CallError::MissingArgument));
    assert_eq!(ensure_n_args(0, 1), Err(CallError::TooManyArguments));
}

#[test]
fn doc_comments_in_each_style() {
    let one = "One line";
    let two = "First\nSecond";
    assert_eq!(to_doc_comment(one, "php_field"), Ok("One line".to_string()));
    assert_eq!(to_doc_comment(two, "php_field"), Ok("First\n    * Second".to_string()));
    assert_eq!(to_doc_comment(two, "python"), Ok("\"\"\"First\nSecond\"\"\"".to_string()));
    for style in ["java", "kotlin", "javascript", "js", "ts", "typescript", "php_class"] {
        assert_eq!(to_doc_comment(one, style), Ok("/** One line */".to_string()));
        assert_eq!(to_doc_comment(two, style), Ok("/**\n* First\n* Second\n*/".to_string()));
    }
    for style in ["rust", "csharp"] {
        assert_eq!(to_doc_comment(two, style), Ok("/// First\n/// Second".to_string()));
    }
    assert_eq!(to_doc_comment(two, "go"), Ok("// First\n// Second".to_string()));
    assert_eq!(to_doc_comment(two, "ruby"), Ok("# First\n# Second".to_string()));
    assert_eq!(to_doc_comment("", "rust"), Ok(String::new()));
    assert_eq!(to_doc_comment("a\r\n\r\nb\n", "go"), Ok("// a\n// \n// b".to_string()));
    assert_eq!(to_doc_comment(one, "cobol"), Err(DocCommentError::UnsupportedStyle));
    for s in ["", "a", "a\n", "a\nb", "a\r\nb\r\n", "\n", "\n\n", "a\rb", "a\r", "\r\n", "a\n\nb", "é\n漢"] {
        let expected: Vec<&str> = s.lines().collect();
        assert_eq!(lines(s), expected, "{s:?}");
    }
    assert_eq!(prefix_lines("a\nb", "> "), "> a\n> b");
}

#[test]
fn deprecation_notes_and_trailing_commas() {
    assert_eq!(with_javadoc_deprecation("Text", false), "Text");
    assert_eq!(with_javadoc_deprecation("Text", true), "Text\n\n@deprecated");
    assert_eq!(with_javadoc_deprecation("", true), "@deprecated");
    assert_eq!(with_javadoc_deprecation("", false), "");
    assert_eq!(strip_trailing_comma("a, b,"), "a, b");
    assert_eq!(strip_trailing_comma("a, b,  \n"), "a, b");
    assert_eq!(strip_trailing_comma("a, b  \n"), "a, b  \n");
    assert_eq!(strip_trailing_comma(",,"), ",");
    assert_eq!(strip_trailing_comma(""), "");
    assert_eq!(strip_trailing_comma("  "), "  ");
    assert_eq!(strip_trailing_comma(","), "");
}

#[test]
fn paths_with_the_placeholders_of_each_language() {
    let params = vec!["app_id".to_string(), "msg_id".to_string()];
    let path = "/api/v1/app/{app_id}/msg/{msg_id}";
    assert_eq!(generate_path_str(PathSyntax::Kotlin, path, &params), "/api/v1/app/$appId/msg/$msgId");
    assert_eq!(generate_path_str(PathSyntax::Java, path, &params), "/api/v1/app/%s/msg/%s");
    assert_eq!(generate_path_str(PathSyntax::Ruby, path, &params), "/api/v1/app/#{app_id}/msg/#{msg_id}");
    assert_eq!(generate_path_str(PathSyntax::Php, path, &params), "/api/v1/app/{$appId}/msg/{$msgId}");
    assert_eq!(generate_path_str(PathSyntax::Ruby, "/x/{appId}", &vec!["appId".to_string()]), "/x/#{app_id}");
    assert_eq!(generate_path_str(PathSyntax::Java, path, &vec![]), path);
    assert_eq!(
        populate_path(path, &vec![("app_id".to_string(), "app_1".to_string()), ("nope".to_string(), "x".to_string())]),
        "/api/v1/app/app_1/msg/{msg_id}"
    );
    assert_eq!(
        populate_path("/{a}/{b}", &vec![("a".to_string(), "{b}".to_string()), ("b".to_string(), "c".to_string())]),
        "/c/c"
    );
}

fn operation(query: Vec<bool>, header: Vec<bool>) -> Operation {
    Operation {
        id: "v1.x.y".into(),
        name: "y".into(),
        description: None,
        deprecated: false,
        method: "get".into(),
        path: "/".into(),
        path_params: vec![],
        header_params: header.into_iter().map(|required| HeaderParam { name: "h".into(), required }).collect(),
        query_params: query
            .into_iter()
            .map(|required| QueryParam { name: "q".into(), description: None, required, ty: FieldType::Bool })
            .collect(),
        request_body_schema_name: None,
        request_body_all_optional: false,
        response_body_schema_name: None,
    }
}

#[test]
fn questions_about_operations_and_variants() {
    assert!(!has_required_query_or_header_params(&operation(vec![], vec![])));
    assert!(!has_required_query_or_header_params(&operation(vec![false, false], vec![false])));
    assert!(has_required_query_or_header_params(&operation(vec![false, true], vec![])));
    assert!(has_required_query_or_header_params(&operation(vec![], vec![false, true])));
    assert!(!operation(vec![], vec![]).has_query_or_header_params());
    assert!(operation(vec![], vec![false]).has_query_or_header_params());

    let variant = |name: &str, is_ref: bool| SimpleVariant {
        name: name.into(),
        content: if is_ref {
            EnumVariantType::Ref { schema_ref: None, inner: None }
        } else {
            EnumVariantType::Struct { fields: vec![] }
        },
    };
    let variants = vec![variant("a", true), variant("b", false), variant("c", true), variant("d", false)];
    let names = |v: Vec<&SimpleVariant>| -> Vec<String> { v.into_iter().map(|x| x.name.clone()).collect() };
    assert_eq!(names(struct_enum_variants(&variants, true)), vec!["a", "c"]);
    assert_eq!(names(struct_enum_variants(&variants, false)), vec!["b", "d"]);
    assert!(has_non_ref_struct_enum_variants(&variants));
    assert!(!has_non_ref_struct_enum_variants(&vec![variant("a", true)]));
    assert!(!has_non_ref_struct_enum_variants(&vec![]));
}

#[test]
fn checksums_are_sha256_in_hex() {
    assert_eq!(
        sha256sum_string("abc"),
        "ba7816bf8f01cfea414140de5dae2223b00361a396177a9cb410ff61f20015ad"
    );
    assert_eq!(
        sha256sum_string(""),
        "e3b0c44298fc1c149afbf4c8996fb92427ae41e4649b934ca495991b7852b855"
    );
    assert_eq!(to_hex(&vec![0x00, 0x0f, 0xa0, 0xff, 0x12]), "000fa0ff12");
    assert_eq!(to_hex(&vec![]), "");
}

fn member(key: &str, value: JsonValue) -> JsonMember {
    JsonMember { key: key.to_string(), value }
}

fn object(members: Vec<(&str, JsonValue)>) -> JsonValue {
    JsonValue::Object(members.into_iter().map(|(k, v)| member(k, v)).collect())
}

fn webhook_method(reference: JsonValue) -> JsonValue {
    object(vec![(
        "requestBody",
        object(vec![(
            "content",
            object(vec![("application/json", object(vec![("schema", object(vec![("$ref", reference)]))]))]),
        )]),
    )])
}

#[test]
fn webhooks_name_their_payload_schemas() {
    let extensions = vec![
        member("x-other", JsonValue::Null),
        member(
            "x-webhooks",
            object(vec![
                (
                    "message.created",
                    object(vec![
                        ("post", webhook_method(JsonValue::String("#/components/schemas/MessageCreated".into()))),
                        ("put", webhook_method(JsonValue::String("Plain".into()))),
                    ]),
                ),
                ("broken", object(vec![("post", object(vec![("requestBody", JsonValue::Null)]))])),
                ("no-string", object(vec![("post", webhook_method(JsonValue::Bool(true)))])),
                ("not-an-object", JsonValue::String("x".into())),
                (
                    "again",
                    object(vec![("post", webhook_method(JsonValue::String("a/b/MessageCreated".into())))]),
                ),
                ("ends-in-slash", object(vec![("post", webhook_method(JsonValue::String("a/".into())))])),
            ]),
        ),
    ];
    assert_eq!(get_webhooks(&extensions).to_vec(), vec!["", "MessageCreated", "Plain"]);
    assert!(get_webhooks(&vec![]).is_empty());
    assert!(get_webhooks(&vec![member("x-webhooks", JsonValue::Array(vec![]))]).is_empty());
}

fn field(name: &str, ty: FieldType) -> Field {
    Field {
        name: name.into(),
        ty,
        default: None,
        description: None,
        required: true,
        nullable: false,
        deprecated: false,
        example: None,
    }
}

fn reference(name: &str, inner: Option<Type>) -> FieldType {
    FieldType::SchemaRef { name: name.into(), inner }
}

fn enum_type(name: &str) -> Type {
    Type {
        name: name.into(),
        description: Some("An enum".into()),
        deprecated: false,
        data: TypeData::StringEnum { values: vec!["a".into()] },
    }
}

#[test]
fn references_are_filled_in_for_samples() {
    let mut types: NameMap<Type> = NameMap::new();
    types.insert("Kind".into(), enum_type("Kind"));
    types.insert(
        "Plain".into(),
        Type {
            name: "Plain".into(),
            description: None,
            deprecated: true,
            data: TypeData::Struct {
                fields: vec![
                    field("kind", reference("Kind", None)),
                    field("gone", reference("Gone", None)),
                    field("many", FieldType::List { inner: std::sync::Arc::new(reference("Kind", None)) }),
                    field("flag", FieldType::Bool),
                ],
            },
        },
    );
    types.insert(
        "Union".into(),
        Type {
            name: "Union".into(),
            description: None,
            deprecated: false,
            data: TypeData::StructEnum {
                discriminator_field: "type".into(),
                repr: StructEnumRepr::AdjacentlyTagged {
                    content_field: "data".into(),
                    variants: vec![
                        SimpleVariant {
                            name: "a".into(),
                            content: EnumVariantType::Ref { schema_ref: Some("Kind".into()), inner: None },
                        },
                        SimpleVariant {
                            name: "b".into(),
                            content: EnumVariantType::Struct { fields: vec![field("k", reference("Kind", None))] },
                        },
                        SimpleVariant {
                            name: "c".into(),
                            content: EnumVariantType::Ref { schema_ref: None, inner: None },
                        },
                        SimpleVariant {
                            name: "d".into(),
                            content: EnumVariantType::Ref { schema_ref: Some("Gone".into()), inner: None },
                        },
                    ],
                },
                fields: vec![field("kind", reference("Kind", None))],
            },
        },
    );
    assert_eq!(recursively_resolve_type("Missing", &types), None);
    assert_eq!(recursively_resolve_type("Kind", &types), Some(enum_type("Kind")));
    let plain = recursively_resolve_type("Plain", &types).unwrap();
    assert_eq!(plain.name, "Plain");
    assert!(plain.deprecated);
    assert_eq!(
        plain.data,
        TypeData::Struct {
            fields: vec![
                field("kind", reference("Kind", Some(enum_type("Kind")))),
                field("gone", reference("Gone", None)),
                field("many", FieldType::List { inner: std::sync::Arc::new(reference("Kind", None)) }),
                field("flag", FieldType::Bool),
            ],
        }
    );
    let union = recursively_resolve_type("Union", &types).unwrap();
    assert_eq!(
        union.data,
        TypeData::StructEnum {
            discriminator_field: "type".into(),
            repr: StructEnumRepr::AdjacentlyTagged {
                content_field: "data".into(),
                variants: vec![
                    SimpleVariant {
                        name: "a".into(),
                        content: EnumVariantType::Ref {
                            schema_ref: Some("Kind".into()),
                            inner: Some(enum_type("Kind")),
                        },
                    },
                    SimpleVariant {
                        name: "b".into(),
                        content: EnumVariantType::Struct {
                            fields: vec![field("k", reference("Kind", Some(enum_type("Kind"))))],
                        },
                    },
                    SimpleVariant { name: "c".into(), content: EnumVariantType::Ref { schema_ref: None, inner: None } },
                    SimpleVariant {
                        name: "d".into(),
                        content: EnumVariantType::Ref { schema_ref: Some("Gone".into()), inner: None },
                    },
                ],
            },
            fields: vec![field("kind", reference("Kind", Some(enum_type("Kind"))))],
        }
    );
    assert_eq!(types.get("Plain").unwrap().duplicate(), *types.get("Plain").unwrap());
    assert_eq!(types.get("Union").unwrap().duplicate(), *types.get("Union").unwrap());
}

#[test]
fn templates_are_kept_in_the_order_added() {
    let mut templates = CodesampleTemplates::default();
    assert!(templates.templates.is_empty());
    templates.add_template("Python", "python", CodegenLanguage::Python, "print()");
    templates.add_template("Go", "go", CodegenLanguage::Go, "fmt.Println()");
    assert_eq!(templates.templates.len(), 2);
    assert_eq!(templates.templates[0].label, "Python");
    assert_eq!(templates.templates[0].lang_name, "python");
    assert_eq!(templates.templates[0].formatting_lang, CodegenLanguage::Python);
    assert_eq!(templates.templates[0].source, "print()");
    assert_eq!(templates.templates[1].label, "Go");
    let sample = CodeSample {
        source: "x".into(),
        lang: "go".into(),
        label: "Go".into(),
        op_id: "v1.a.b".into(),
        formatting_lang: CodegenLanguage::Go,
    };
    assert_eq!(sample.formatting_lang, CodegenLanguage::Go);
    assert!(CodegenLanguage::Python < CodegenLanguage::Rust);
}

fn ref_schema(reference: &str) -> Schema {
    let mut s = SchemaObject::empty();
    s.reference = Some(reference.to_string());
    Schema::Object(s)
}

fn nested_schema() -> Schema {
    let mut s = SchemaObject::empty();
    s.instance_type = Some(SchemaTypes::Single(InstanceType::Object));
    s.reference = Some("#/components/schemas/Base".into());
    let mut o = ObjectValidation::empty();
    o.properties = vec![
        Property { name: "a".into(), schema: ref_schema("#/components/schemas/A") },
        Property { name: "list".into(), schema: {
            let mut l = SchemaObject::empty();
            l.array = Some(Box::new(ArrayValidation {
                items: Some(ArrayItems::Single(Box::new(ref_schema("#/components/schemas/Item")))),
                additional_items: Some(Box::new(ref_schema("#/components/schemas/Extra"))),
                unique_items: None,
            }));
            Schema::Object(l)
        } },
        Property { name: "tuple".into(), schema: {
            let mut l = SchemaObject::empty();
            l.array = Some(Box::new(ArrayValidation {
                items: Some(ArrayItems::Multiple(vec![ref_schema("#/components/schemas/T")])),
                additional_items: None,
                unique_items: None,
            }));
            Schema::Object(l)
        } },
    ];
    o.additional_properties = Some(Box::new(ref_schema("#/components/schemas/More")));
    s.object = Some(Box::new(o));
    Schema::Object(s)
}

fn reference_of(s: &Schema) -> Option<&str> {
    match s {
        Schema::Object(o) => o.reference.as_deref(),
        Schema::Bool(_) => None,
    }
}

#[test]
fn prefix_goes_on_names_and_references() {
    assert_eq!(prefix_str("Foo"), "EeFoo");
    assert_eq!(prefix_str(""), "Ee");
    assert_eq!(prefix_ref("#/components/schemas/Foo"), "#/components/schemas/EeFoo");
    assert_eq!(prefix_ref("#/components/responses/Foo"), "#/components/responses/Foo");
    let mut r = "#/components/schemas/A and #/components/schemas/B".to_string();
    prefix_ref_in_place(&mut r);
    assert_eq!(r, "#/components/schemas/EeA and #/components/schemas/EeB");
    assert_eq!(add_prefix_to_schema(Schema::Bool(true)), Schema::Bool(true));

    let Schema::Object(got) = add_prefix_to_schema(nested_schema()) else { panic!() };
    assert_eq!(got.reference.as_deref(), Some("#/components/schemas/EeBase"));
    let o = got.object.unwrap();
    assert_eq!(reference_of(&o.properties[0].schema), Some("#/components/schemas/EeA"));
    assert_eq!(o.properties[0].name, "a");
    assert_eq!(reference_of(o.additional_properties.as_deref().unwrap()), Some("#/components/schemas/More"));
    let Schema::Object(list) = &o.properties[1].schema else { panic!() };
    let array = list.array.as_ref().unwrap();
    let Some(ArrayItems::Single(item)) = &array.items else { panic!() };
    assert_eq!(reference_of(item), Some("#/components/schemas/EeItem"));
    assert_eq!(reference_of(array.additional_items.as_deref().unwrap()), Some("#/components/schemas/Extra"));
    let Schema::Object(tuple) = &o.properties[2].schema else { panic!() };
    let Some(ArrayItems::Multiple(items)) = &tuple.array.as_ref().unwrap().items else { panic!() };
    assert_eq!(reference_of(&items[0]), Some("#/components/schemas/T"));
}

fn spec_operation(id: &str) -> SpecOperation {
    let json = |name: &str| {
        vec![MediaEntry {
            content_type: "application/json".into(),
            media: MediaType { schema: Some(ref_schema(&format!("#/components/schemas/{name}"))), extensions: vec![] },
        }]
    };
    SpecOperation {
        description: None,
        operation_id: Some(id.to_string()),
        parameters: vec![
            ReferenceOr::Reference { reference: "#/components/schemas/P".into() },
            ReferenceOr::Item(Parameter::Path {
                parameter_data: ParameterData {
                    name: "id".into(),
                    description: None,
                    required: true,
                    format: ParameterSchemaOrContent::Schema(ref_schema("#/components/schemas/Id")),
                },
                style: PathStyle::Simple,
            }),
        ],
        request_body: Some(ReferenceOr::Item(RequestBody { content: json("In"), required: true, extensions: vec![] })),
        responses: Some(Responses {
            default: Some(ReferenceOr::Item(Response { content: json("Default"), extensions: vec![] })),
            responses: vec![StatusEntry {
                status: StatusCode::Code(200),
                response: ReferenceOr::Item(Response { content: json("Out"), extensions: vec![] }),
            }],
            extensions: vec![],
        }),
        deprecated: false,
        extensions: vec![],
    }
}

fn body_reference(op: &SpecOperation) -> Option<&str> {
    match op.request_body.as_ref()? {
        ReferenceOr::Item(b) => reference_of(b.content[0].media.schema.as_ref()?),
        ReferenceOr::Reference { reference } => Some(reference),
    }
}

#[test]
fn documents_get_the_prefix_throughout() {
    let mut pool: SchemaPool = IndexMap::new();
    pool.insert("Foo".into(), ref_schema("#/components/schemas/Bar"));
    pool.insert("Bar".into(), Schema::Bool(false));
    pool.insert("EeFoo".into(), nested_schema());
    let item = PathItem {
        get: Some(spec_operation("v1.a.get")),
        put: None,
        post: Some(spec_operation("v1.a.post")),
        delete: Some(spec_operation("v1.a.delete")),
        options: None,
        head: None,
        patch: None,
        trace: None,
        parameters: vec![],
    };
    let mut spec = OpenApi {
        paths: Some(Paths {
            paths: vec![
                PathEntry { path: "/a".into(), item: ReferenceOr::Item(item) },
                PathEntry { path: "/b".into(), item: ReferenceOr::Reference { reference: "#/x".into() } },
            ],
        }),
        components: Some(Components { schemas: pool }),
        extensions: vec![member("x-webhooks", JsonValue::Null)],
    };
    add_ee_prefix(&mut spec);
    let pool = &spec.components.as_ref().unwrap().schemas;
    let mut names: Vec<&str> = pool.keys().map(|k| k.as_str()).collect();
    names.sort();
    assert_eq!(names, vec!["EeBar", "EeEeFoo", "EeFoo"]);
    assert_eq!(reference_of(&pool["EeFoo"]), Some("#/components/schemas/EeBar"));
    assert_eq!(pool["EeBar"], Schema::Bool(false));
    assert_eq!(reference_of(&pool["EeEeFoo"]), Some("#/components/schemas/EeBase"));

    let paths = &spec.paths.as_ref().unwrap().paths;
    assert_eq!(paths.len(), 2);
    assert_eq!(paths[1], PathEntry { path: "/b".into(), item: ReferenceOr::Reference { reference: "#/x".into() } });
    let ReferenceOr::Item(item) = &paths[0].item else { panic!() };
    let get = item.get.as_ref().unwrap();
    assert_eq!(get.operation_id.as_deref(), Some("v1.a.get"));
    assert_eq!(body_reference(get), Some("#/components/schemas/EeIn"));
    assert_eq!(
        get.parameters[0],
        ReferenceOr::Reference { reference: "#/components/schemas/EeP".into() }
    );
    let ReferenceOr::Item(Parameter::Path { parameter_data, .. }) = &get.parameters[1] else { panic!() };
    let ParameterSchemaOrContent::Schema(s) = &parameter_data.format else { panic!() };
    assert_eq!(reference_of(s), Some("#/components/schemas/EeId"));
    let responses = get.responses.as_ref().unwrap();
    let ReferenceOr::Item(ok) = &responses.responses[0].response else { panic!() };
    assert_eq!(reference_of(ok.content[0].media.schema.as_ref().unwrap()), Some("#/components/schemas/EeOut"));
    let Some(ReferenceOr::Item(default)) = &responses.default else { panic!() };
    assert_eq!(
        reference_of(default.content[0].media.schema.as_ref().unwrap()),
        Some("#/components/schemas/Default")
    );
    assert_eq!(body_reference(item.post.as_ref().unwrap()), Some("#/components/schemas/EeIn"));
    assert_eq!(body_reference(item.delete.as_ref().unwrap()), Some("#/components/schemas/In"));
    assert_eq!(spec.extensions.len(), 1);
}
