use prisma_scaffold::parser::{
    field_from_tokens, has_named_headers, is_header, models_of, parse_field, parse_schema,
    scan_line,
    scan_lines, try_parse_schema, Field, Model, PathAlias, SchemaLine, TsConfig,
    TsConfigCompilerOptions,
};

fn lines(text: &str) -> Vec<String> {
    text.lines().map(String::from).collect()
}

fn field(name: &str, field_type: &str, is_optional: bool) -> Field {
    Field { name: name.to_string(), field_type: field_type.to_string(), is_optional }
}

fn words(list: &[&str]) -> Vec<String> {
    list.iter().map(|w| w.to_string()).collect()
}

#[test]
fn parses_the_user_schema() {
    let schema = lines("model User {\n  id String\n  age Int?\n  email String\n}\n");
    let models = parse_schema(&schema);
    assert_eq!(
        models,
        vec![Model {
            name: "User".to_string(),
            fields: vec![
                field("id", "String", false),
                field("age", "Int", true),
                field("email", "String", false),
            ],
        }]
    );
}

#[test]
fn parses_models_in_order_and_skips_what_is_outside() {
    let schema = lines(
        "generator client {\n  provider = \"prisma-client-js\"\n}\n\nmodel Post {\n  id Int @id @default(autoincrement())\n  title String\n\n  @@index([title])\n  author User @relation(fields: [authorId], references: [id])\n}\n\n// a comment\nmodel User {\n  id Int @id\n}\n",
    );
    let models = parse_schema(&schema);
    assert_eq!(models.len(), 2);
    assert_eq!(models[0].name, "Post");
    assert_eq!(
        models[0].fields,
        vec![
            field("id", "Int", false),
            field("title", "String", false),
            field("author", "User", false),
        ]
    );
    assert_eq!(models[1].name, "User");
    assert_eq!(models[1].fields, vec![field("id", "Int", false)]);
}

#[test]
fn a_block_without_closing_line_runs_to_the_end() {
    let schema = lines("model Open {\n  id String\n  name String?");
    let models = parse_schema(&schema);
    assert_eq!(
        models,
        vec![Model {
            name: "Open".to_string(),
            fields: vec![field("id", "String", false), field("name", "String", true)],
        }]
    );
}

#[test]
fn a_header_inside_a_block_is_a_field_line() {
    let schema = lines("model Outer {\n  model Inner {\n  id Int\n}\nmodel Next {\n}\n");
    let models = parse_schema(&schema);
    assert_eq!(models.len(), 2);
    assert_eq!(models[0].name, "Outer");
    assert_eq!(
        models[0].fields,
        vec![field("model", "Inner", false), field("id", "Int", false)]
    );
    assert_eq!(models[1].name, "Next");
    assert!(models[1].fields.is_empty());
}

#[test]
fn the_closing_line_must_be_the_brace_alone() {
    let schema = lines("model A {\n  id Int\n  } // end\n  name String\n  }  \n");
    let models = parse_schema(&schema);
    assert_eq!(models.len(), 1);
    assert_eq!(
        models[0].fields,
        vec![
            field("id", "Int", false),
            field("}", "//", false),
            field("name", "String", false),
        ]
    );
}

#[test]
fn only_the_word_model_opens_a_block() {
    assert!(parse_schema(&lines("  models Shelf {\n id Int\n}\n")).is_empty());
    assert!(parse_schema(&lines("modelling Notes {\n  id Int\n}\n")).is_empty());
    assert!(parse_schema(&lines("Model Upper {\n}\n")).is_empty());
    assert!(parse_schema(&lines("a model B {\n}\n")).is_empty());
    let models = parse_schema(&lines("modelX\n \tmodel\tKept{\n}\n"));
    assert_eq!(models, vec![Model { name: "Kept{".to_string(), fields: vec![] }]);
}

#[test]
fn a_word_that_only_begins_with_model_needs_no_name() {
    assert_eq!(try_parse_schema(&lines("modelX\n")), Some(vec![]));
    assert_eq!(try_parse_schema(&lines("models\nmodel A {\n}\n")).map(|m| m.len()), Some(1));
}

#[test]
fn an_empty_schema_has_no_models() {
    assert!(parse_schema(&Vec::new()).is_empty());
    assert!(parse_schema(&lines("\n\nenum Role {\n  ADMIN\n}\n")).is_empty());
}

#[test]
fn a_header_without_a_name_is_refused() {
    assert_eq!(try_parse_schema(&lines("model\n  id Int\n}\n")), None);
    assert_eq!(try_parse_schema(&lines("model A {\n}\nmodel   \n")), None);
}

#[test]
fn a_nameless_header_inside_a_block_is_body() {
    let models = try_parse_schema(&lines("model A {\nmodel\n}\n"));
    assert_eq!(models, Some(vec![Model { name: "A".to_string(), fields: vec![] }]));
}

#[test]
fn try_parse_schema_agrees_with_parse_schema() {
    let schema = lines("model User {\n  id String\n}\nmodel Post {\n  id Int?\n}\n");
    assert_eq!(try_parse_schema(&schema), Some(parse_schema(&schema)));
}

#[test]
fn parse_field_reads_name_type_and_marker() {
    assert_eq!(parse_field("id String"), Some(field("id", "String", false)));
    assert_eq!(parse_field("age Int?"), Some(field("age", "Int", true)));
    assert_eq!(
        parse_field("\tcreatedAt   DateTime   @default(now())  "),
        Some(field("createdAt", "DateTime", false))
    );
    assert_eq!(parse_field("odd ?"), Some(field("odd", "", true)));
    assert_eq!(parse_field("twice Int??"), Some(field("twice", "Int?", true)));
    assert_eq!(parse_field("list String[]"), Some(field("list", "String[]", false)));
}

#[test]
fn parse_field_skips_short_lines() {
    assert_eq!(parse_field(""), None);
    assert_eq!(parse_field("   "), None);
    assert_eq!(parse_field("@@unique([a,b])"), None);
    assert_eq!(parse_field("{"), None);
}

#[test]
fn field_from_tokens_takes_the_first_two_words() {
    assert_eq!(
        field_from_tokens(&words(&["price", "Decimal?", "@db.Money"])),
        Some(field("price", "Decimal", true))
    );
    assert_eq!(field_from_tokens(&words(&["price"])), None);
    assert_eq!(field_from_tokens(&words(&[])), None);
}

#[test]
fn scan_line_trims_and_splits() {
    let line = scan_line("  \t name   String?  @unique \r");
    assert_eq!(line.text, "name   String?  @unique");
    assert_eq!(line.tokens, words(&["name", "String?", "@unique"]));
    let blank = scan_line(" \u{a0} ");
    assert_eq!(blank.text, "");
    assert!(blank.tokens.is_empty());
}

#[test]
fn scan_lines_keeps_order_and_count() {
    let scanned = scan_lines(&lines("a b\n\n  }  \n"));
    assert_eq!(scanned.len(), 3);
    assert_eq!(scanned[0].tokens, words(&["a", "b"]));
    assert_eq!(scanned[1].text, "");
    assert_eq!(scanned[2].text, "}");
}

fn prepared(text: &str, tokens: &[&str]) -> SchemaLine {
    SchemaLine { text: text.to_string(), tokens: words(tokens) }
}

#[test]
fn models_of_works_on_prepared_lines() {
    let prepared_lines = vec![
        prepared("model User {", &["model", "User", "{"]),
        prepared("id String", &["id", "String"]),
        prepared("", &[]),
        prepared("}", &["}"]),
        prepared("ignored line", &["ignored", "line"]),
    ];
    assert!(has_named_headers(&prepared_lines));
    assert_eq!(
        models_of(&prepared_lines),
        vec![Model { name: "User".to_string(), fields: vec![field("id", "String", false)] }]
    );
}

#[test]
fn models_of_goes_by_the_first_word() {
    let prepared_lines = vec![
        prepared("modelling Notes {", &["modelling", "Notes", "{"]),
        prepared("id Int", &["id", "Int"]),
        prepared("}", &["}"]),
    ];
    assert!(has_named_headers(&prepared_lines));
    assert!(models_of(&prepared_lines).is_empty());
    assert!(!is_header(&prepared_lines[0]));
    assert!(is_header(&prepared("model A", &["model", "A"])));
    assert!(is_header(&prepared("", &["model"])));
    assert!(!is_header(&prepared("model", &[])));
}

#[test]
fn has_named_headers_finds_the_nameless_one() {
    assert!(!has_named_headers(&vec![prepared("model", &["model"])]));
    assert!(has_named_headers(&vec![
        prepared("model A", &["model", "A"]),
        prepared("model", &["model"]),
    ]));
    assert!(!has_named_headers(&vec![
        prepared("model A", &["model", "A"]),
        prepared("}", &["}"]),
        prepared("model", &["model"]),
    ]));
    assert!(has_named_headers(&Vec::new()));
}

#[test]
fn the_default_configuration_maps_the_source_root() {
    let config = TsConfig::default();
    assert_eq!(
        config,
        TsConfig {
            compiler_options: TsConfigCompilerOptions {
                paths: vec![PathAlias {
                    key: "@src/*".to_string(),
                    targets: vec!["src/*".to_string()],
                }],
            },
        }
    );
    assert_eq!(config.modules(), vec!["src".to_string()]);
    assert_eq!(config.target("src"), Some("src/*".to_string()));
    assert_eq!(config.base_path("src"), Some("src/".to_string()));
    assert_eq!(config.base_path("app"), None);
}

#[test]
fn aliases_resolve_to_their_first_path() {
    let config = TsConfig {
        compiler_options: TsConfigCompilerOptions {
            paths: vec![
                PathAlias {
                    key: "@core/*".to_string(),
                    targets: vec!["libs/core/src/*".to_string(), "other/*".to_string()],
                },
                PathAlias { key: "@empty/*".to_string(), targets: vec![] },
                PathAlias { key: "@core/*".to_string(), targets: vec!["late/*".to_string()] },
            ],
        },
    };
    assert_eq!(
        config.modules(),
        vec!["core".to_string(), "empty".to_string(), "core".to_string()]
    );
    assert_eq!(config.base_path("core"), Some("libs/core/src/".to_string()));
    assert_eq!(config.target("empty"), None);
    assert_eq!(config.base_path("empty"), None);
    assert_eq!(config.base_path("@core/*"), None);
}

#[test]
fn carriage_returns_and_tabs_around_a_line_do_not_count() {
    let schema = vec![
        "\tmodel  Item\t{\r".to_string(),
        "\tid\tInt\r".to_string(),
        " }\r".to_string(),
    ];
    assert_eq!(
        parse_schema(&schema),
        vec![Model { name: "Item".to_string(), fields: vec![field("id", "Int", false)] }]
    );
}

#[test]
fn the_name_is_the_second_word_of_the_header() {
    let schema = lines("model {\n}\nmodel Spaced   Out {\n}\n");
    let models = parse_schema(&schema);
    assert_eq!(models.len(), 2);
    assert_eq!(models[0].name, "{");
    assert_eq!(models[1].name, "Spaced");
}

#[test]
fn a_missing_configuration_falls_back_on_the_default() {
    assert_eq!(TsConfig::or_default(None), TsConfig::default());
    let given = TsConfig {
        compiler_options: TsConfigCompilerOptions {
            paths: vec![PathAlias { key: "@app/*".to_string(), targets: vec!["app/*".to_string()] }],
        },
    };
    let kept = TsConfig::or_default(Some(TsConfig {
        compiler_options: TsConfigCompilerOptions {
            paths: vec![PathAlias { key: "@app/*".to_string(), targets: vec!["app/*".to_string()] }],
        },
    }));
    assert_eq!(kept, given);
    assert_eq!(kept.base_path("app"), Some("app/".to_string()));
}
