use golem_examples::catalog::Catalog;
use golem_examples::catalog::CatalogDir;
use golem_examples::catalog::CatalogEntry;
use golem_examples::catalog::CatalogFile;
use golem_examples::catalog::FsAction;
use golem_examples::index::build_index;
use golem_examples::index::filter_examples;
use golem_examples::index::find_example;
use golem_examples::index::IndexError;
use golem_examples::instantiate::InstantiateError;
use golem_examples::json::metadata_from_value;
use golem_examples::json::parse_json;
use golem_examples::model::Example;
use golem_examples::model::ExampleName;
use golem_examples::model::ExampleParameters;
use golem_examples::model::GuestLanguage;
use golem_examples::model::GuestLanguageTier;
use golem_examples::model::PackageName;
use golem_examples::model::TemplateName;
use golem_examples::transform::file_name_transform;
use golem_examples::transform::transform;
use golem_examples::Examples;
use golem_examples::GolemExamples;

fn file(name: &str, contents: &[u8]) -> CatalogEntry {
    CatalogEntry::File(CatalogFile { name: String::from(name), contents: contents.to_vec() })
}

fn dir(name: &str, entries: Vec<CatalogEntry>) -> CatalogEntry {
    CatalogEntry::Dir(CatalogDir { name: String::from(name), entries })
}

fn root(name: &str, entries: Vec<CatalogEntry>) -> CatalogDir {
    CatalogDir { name: String::from(name), entries }
}

fn params(component: &str, package: &str, target: &str) -> ExampleParameters {
    ExampleParameters {
        template_name: TemplateName::new(component),
        package_name: PackageName::from_string(package).unwrap(),
        target_path: String::from(target),
    }
}

fn mkdir_paths(actions: &[FsAction]) -> Vec<String> {
    let mut out: Vec<String> = Vec::new();
    for a in actions {
        if let FsAction::MkDir { path } = a {
            out.push(path.clone());
        }
    }
    out
}

fn written_files(actions: &[FsAction]) -> Vec<(String, Vec<u8>)> {
    let mut out: Vec<(String, Vec<u8>)> = Vec::new();
    for a in actions {
        if let FsAction::WriteFile { path, contents } = a {
            out.push((path.clone(), contents.clone()));
        }
    }
    out
}

fn plain_example(exclude: Vec<String>) -> Example {
    Example {
        name: ExampleName::from_string("rust-default"),
        language: GuestLanguage::Rust,
        description: String::from("a sample"),
        example_path: vec![String::from("rust"), String::from("rust-default")],
        instructions: String::from("build component-name"),
        adapter: None,
        wit_deps: vec![],
        wit_deps_targets: None,
        exclude,
        transform_exclude: vec![],
    }
}

#[test]
fn transform_rewrites_all_tokens() {
    let p = params("my-app", "golem:component", "out");
    assert_eq!(transform("Hello component_name", &p), "Hello my_app");
    assert_eq!(transform("component-name/ComponentName", &p), "my-app/MyApp");
    assert_eq!(transform("use pack::name;", &p), "use golem::component;");
    assert_eq!(transform("pack:name pack_name pack-name", &p), "golem:component golem_component golem-component");
    assert_eq!(transform("pack/name PackName", &p), "golem/component GolemComponent");
    assert_eq!(transform("pack-ns and PackNs", &p), "golem and Golem");
    assert_eq!(transform("nothing to do", &p), "nothing to do");
}

#[test]
fn file_name_transform_strips_manifest_disguise() {
    let p = params("my-app", "golem:component", "out");
    assert_eq!(file_name_transform("Cargo.toml._", &p), "Cargo.toml");
    assert_eq!(file_name_transform("component-name.txt", &p), "my-app.txt");
}

#[test]
fn instantiate_excludes_listed_names() {
    let examples = root(
        "examples",
        vec![dir(
            "rust",
            vec![dir(
                "rust-default",
                vec![
                    file("metadata.json", b"{}"),
                    file("README.md", b"# component-name"),
                    dir("src", vec![file("lib.rs", b"// component_name")]),
                ],
            )],
        )],
    );
    let catalog = Catalog { examples, adapters: root("adapters", vec![]), wit: root("wit", vec![]) };
    let example = plain_example(vec![String::from("metadata.json")]);
    let p = params("my-app", "golem:component", "out");
    let plan = GolemExamples::instantiate(&catalog, &example, &p).unwrap();
    let files = written_files(&plan.actions);
    let names: Vec<String> = files.iter().map(|f| f.0.clone()).collect();
    assert_eq!(
        names,
        vec![String::from("out/my-app/README.md"), String::from("out/my-app/src/lib.rs")]
    );
    assert_eq!(files[0].1, b"# my-app".to_vec());
    assert_eq!(files[1].1, b"// my_app".to_vec());
    assert_eq!(
        mkdir_paths(&plan.actions),
        vec![String::from("out/my-app"), String::from("out/my-app/src")]
    );
}

#[test]
fn instantiate_renames_files_and_rewrites_contents() {
    let examples = root(
        "examples",
        vec![dir(
            "rust",
            vec![dir(
                "rust-default",
                vec![file("component-name.txt", b"Hello component_name")],
            )],
        )],
    );
    let catalog = Catalog { examples, adapters: root("adapters", vec![]), wit: root("wit", vec![]) };
    let example = plain_example(vec![]);
    let p = params("my-app", "golem:component", "out");
    let plan = GolemExamples::instantiate(&catalog, &example, &p).unwrap();
    let files = written_files(&plan.actions);
    assert_eq!(files.len(), 1);
    assert_eq!(files[0].0, "out/my-app/my-app.txt");
    assert_eq!(files[0].1, b"Hello my_app".to_vec());
    assert_eq!(plan.instructions, "build my-app");
}

#[test]
fn instantiate_keeps_binary_and_excluded_contents_verbatim() {
    let binary = [0xffu8, 0x00, 0xfe];
    let examples = root(
        "examples",
        vec![dir(
            "rust",
            vec![dir(
                "rust-default",
                vec![
                    file("logo.bin", &binary),
                    file("keep.txt", b"component-name stays"),
                ],
            )],
        )],
    );
    let catalog = Catalog { examples, adapters: root("adapters", vec![]), wit: root("wit", vec![]) };
    let mut example = plain_example(vec![]);
    example.transform_exclude = vec![String::from("keep.txt")];
    let p = params("my-app", "golem:component", "out");
    let plan = GolemExamples::instantiate(&catalog, &example, &p).unwrap();
    let files = written_files(&plan.actions);
    assert_eq!(files.len(), 2);
    assert_eq!(files[0].0, "out/my-app/logo.bin");
    assert_eq!(files[0].1, binary.to_vec());
    assert_eq!(files[1].0, "out/my-app/keep.txt");
    assert_eq!(files[1].1, b"component-name stays".to_vec());
}

#[test]
fn instantiate_copies_adapter_for_language_tier() {
    let examples = root(
        "examples",
        vec![dir("rust", vec![dir("rust-default", vec![file("a.txt", b"x")])])],
    );
    let adapters = root(
        "adapters",
        vec![dir("tier2", vec![file("wasi_snapshot_preview1.wasm", &[1u8, 2, 3])])],
    );
    let catalog = Catalog { examples, adapters, wit: root("wit", vec![]) };
    let mut example = plain_example(vec![]);
    example.adapter = Some(vec![
        String::from("tier2"),
        String::from("wasi_snapshot_preview1.wasm"),
    ]);
    let p = params("my-app", "golem:component", "out");
    let plan = GolemExamples::instantiate(&catalog, &example, &p).unwrap();
    assert!(mkdir_paths(&plan.actions).contains(&String::from("out/my-app/adapters/tier2")));
    let files = written_files(&plan.actions);
    let adapter = files
        .iter()
        .find(|f| f.0 == "out/my-app/adapters/tier2/wasi_snapshot_preview1.wasm")
        .unwrap();
    assert_eq!(adapter.1, vec![1u8, 2, 3]);
}

#[test]
fn instantiate_copies_wit_deps_to_default_target() {
    let examples = root(
        "examples",
        vec![dir("rust", vec![dir("rust-default", vec![file("a.txt", b"x")])])],
    );
    let wit = root(
        "wit",
        vec![
            dir("golem", vec![file("golem.wit", b"package golem")]),
            dir("wasm-rpc", vec![file("rpc.wit", b"package rpc")]),
        ],
    );
    let catalog = Catalog { examples, adapters: root("adapters", vec![]), wit };
    let mut example = plain_example(vec![]);
    example.wit_deps = vec![String::from("golem"), String::from("wasm-rpc")];
    let p = params("my-app", "golem:component", "out");
    let plan = GolemExamples::instantiate(&catalog, &example, &p).unwrap();
    let dirs = mkdir_paths(&plan.actions);
    assert!(dirs.contains(&String::from("out/my-app/wit/deps/golem")));
    assert!(dirs.contains(&String::from("out/my-app/wit/deps/wasm-rpc")));
    let files = written_files(&plan.actions);
    assert!(files.contains(&(String::from("out/my-app/wit/deps/golem/golem.wit"), b"package golem".to_vec())));
    assert!(files.contains(&(String::from("out/my-app/wit/deps/wasm-rpc/rpc.wit"), b"package rpc".to_vec())));
}

#[test]
fn instantiate_reports_missing_catalog_paths() {
    let examples = root("examples", vec![]);
    let catalog = Catalog { examples, adapters: root("adapters", vec![]), wit: root("wit", vec![]) };
    let example = plain_example(vec![]);
    let p = params("my-app", "golem:component", "out");
    let err = GolemExamples::instantiate(&catalog, &example, &p).unwrap_err();
    let InstantiateError::MissingEntry(path) = err;
    assert_eq!(path, vec![String::from("rust"), String::from("rust-default")]);
}

#[test]
fn instantiate_is_deterministic() {
    let make_catalog = || {
        Catalog {
            examples: root(
                "examples",
                vec![dir(
                    "rust",
                    vec![dir(
                        "rust-default",
                        vec![
                            file("component-name.txt", b"Hello component_name"),
                            dir("src", vec![file("lib.rs", b"// ComponentName")]),
                        ],
                    )],
                )],
            ),
            adapters: root("adapters", vec![]),
            wit: root("wit", vec![]),
        }
    };
    let example = plain_example(vec![]);
    let p = params("my-app", "golem:component", "out");
    let plan1 = GolemExamples::instantiate(&make_catalog(), &example, &p).unwrap();
    let plan2 = GolemExamples::instantiate(&make_catalog(), &example, &p).unwrap();
    assert_eq!(plan1, plan2);
}

fn full_catalog() -> Catalog {
    let meta = b"{\"description\":\"wasi sample\",\"requiresWASI\":true,\"requiresAdapter\":false,\"exclude\":[\"metadata.json\"]}";
    Catalog {
        examples: root(
            "examples",
            vec![dir(
                "rust",
                vec![
                    file("INSTRUCTIONS", b"run component-name"),
                    dir(
                        "rust-default",
                        vec![file("metadata.json", meta), file("main.rs", b"fn main() {}")],
                    ),
                ],
            )],
        ),
        adapters: root("adapters", vec![]),
        wit: root(
            "wit",
            vec![
                dir("blobstore", vec![file("b.wit", b"b")]),
                dir("cli", vec![file("c.wit", b"c")]),
                dir("clocks", vec![file("k.wit", b"k")]),
                dir("filesystem", vec![file("f.wit", b"f")]),
                dir("http", vec![file("h.wit", b"h")]),
                dir("io", vec![file("i.wit", b"i")]),
                dir("keyvalue", vec![file("v.wit", b"v")]),
                dir("logging", vec![file("l.wit", b"l")]),
                dir("random", vec![file("r.wit", b"r")]),
                dir("sockets", vec![file("s.wit", b"s")]),
            ],
        ),
    }
}

#[test]
fn index_resolves_wasi_dependencies() {
    let catalog = full_catalog();
    let examples = GolemExamples::list_all_examples(&catalog).unwrap();
    assert_eq!(examples.len(), 1);
    let e = &examples[0];
    assert_eq!(e.name.as_string(), "rust-default");
    assert_eq!(e.language, GuestLanguage::Rust);
    assert_eq!(e.description, "wasi sample");
    assert_eq!(e.instructions, "run component-name");
    assert!(e.adapter.is_none());
    let expected: Vec<String> = [
        "blobstore", "cli", "clocks", "filesystem", "http", "io", "keyvalue", "logging",
        "random", "sockets",
    ]
        .iter()
        .map(|s| String::from(*s))
        .collect();
    assert_eq!(e.wit_deps, expected);
}

#[test]
fn wasi_fragments_land_under_wit_deps() {
    let catalog = full_catalog();
    let examples = GolemExamples::list_all_examples(&catalog).unwrap();
    let p = params("my-app", "golem:component", "out");
    let plan = GolemExamples::instantiate(&catalog, &examples[0], &p).unwrap();
    let dirs = mkdir_paths(&plan.actions);
    for name in [
        "blobstore", "cli", "clocks", "filesystem", "http", "io", "keyvalue", "logging",
        "random", "sockets",
    ] {
        let expected = format!("out/my-app/wit/deps/{}", name);
        assert!(dirs.contains(&expected), "missing {}", expected);
    }
    let files = written_files(&plan.actions);
    assert!(files.contains(&(String::from("out/my-app/wit/deps/http/h.wit"), b"h".to_vec())));
    let names: Vec<&String> = files.iter().map(|f| &f.0).collect();
    assert!(!names.contains(&&String::from("out/my-app/metadata.json")));
}

#[test]
fn index_rejects_unknown_language_bucket() {
    let catalog = Catalog {
        examples: root("examples", vec![dir("cobol", vec![])]),
        adapters: root("adapters", vec![]),
        wit: root("wit", vec![]),
    };
    let err = GolemExamples::list_all_examples(&catalog).unwrap_err();
    assert!(matches!(err, IndexError::UnknownLanguage(n) if n == "cobol"));
}

#[test]
fn index_reports_missing_or_bad_metadata() {
    let no_meta = Catalog {
        examples: root(
            "examples",
            vec![dir("rust", vec![file("INSTRUCTIONS", b"i"), dir("broken", vec![])])],
        ),
        adapters: root("adapters", vec![]),
        wit: root("wit", vec![]),
    };
    let err = build_index(&no_meta.examples).unwrap_err();
    assert!(matches!(err, IndexError::MissingMetadata(n) if n == "broken"));

    let bad_json = Catalog {
        examples: root(
            "examples",
            vec![dir(
                "rust",
                vec![
                    file("INSTRUCTIONS", b"i"),
                    dir("broken", vec![file("metadata.json", b"not json")]),
                ],
            )],
        ),
        adapters: root("adapters", vec![]),
        wit: root("wit", vec![]),
    };
    let err = build_index(&bad_json.examples).unwrap_err();
    assert!(matches!(err, IndexError::BadMetadata(n) if n == "broken"));

    let missing_field = Catalog {
        examples: root(
            "examples",
            vec![dir(
                "rust",
                vec![
                    file("INSTRUCTIONS", b"i"),
                    dir("broken", vec![file("metadata.json", b"{\"description\":\"d\"}")]),
                ],
            )],
        ),
        adapters: root("adapters", vec![]),
        wit: root("wit", vec![]),
    };
    let err = build_index(&missing_field.examples).unwrap_err();
    assert!(matches!(err, IndexError::BadMetadata(n) if n == "broken"));
}

#[test]
fn index_reports_instruction_problems() {
    let no_instructions = root(
        "examples",
        vec![dir(
            "rust",
            vec![dir(
                "ex",
                vec![file("metadata.json", b"{\"description\":\"d\",\"exclude\":[]}")],
            )],
        )],
    );
    let err = build_index(&no_instructions).unwrap_err();
    assert!(matches!(err, IndexError::MissingInstructions(n) if n == "ex"));

    let bad_instructions = root(
        "examples",
        vec![dir(
            "rust",
            vec![
                file("INSTRUCTIONS", &[0xffu8, 0xfe]),
                dir("ex", vec![file("metadata.json", b"{\"description\":\"d\",\"exclude\":[]}")]),
            ],
        )],
    );
    let err = build_index(&bad_instructions).unwrap_err();
    assert!(matches!(err, IndexError::BadInstructions(n) if n == "ex"));
}

#[test]
fn index_skips_files_dotdirs_and_reserved_names() {
    let examples = root(
        "examples",
        vec![
            file("README.md", b"top-level file, ignored"),
            dir(
                "rust",
                vec![
                    file("INSTRUCTIONS", b"i"),
                    dir(".hidden", vec![]),
                    dir(
                        "visible",
                        vec![file("metadata.json", b"{\"description\":\"d\",\"exclude\":[]}")],
                    ),
                ],
            ),
        ],
    );
    let list = build_index(&examples).unwrap();
    assert_eq!(list.len(), 1);
    assert_eq!(list[0].name.as_string(), "visible");
}

#[test]
fn metadata_parsing_reads_all_fields() {
    let bytes = b"{\"description\":\"desc\",\"requiresAdapter\":false,\"requiresGolemHostWIT\":true,\"requiresWASI\":false,\"exclude\":[\"a\",\"b\"],\"instructions\":\"CUSTOM\",\"witDepsPaths\":[\"wit/deps\",\"other\"],\"transformExclude\":[\"t.bin\"]}".to_vec();
    let v = parse_json(&bytes).unwrap();
    let m = metadata_from_value(&v).unwrap();
    assert_eq!(m.description, "desc");
    assert_eq!(m.requires_adapter, Some(false));
    assert_eq!(m.requires_golem_host_wit, Some(true));
    assert_eq!(m.requires_wasi, Some(false));
    assert_eq!(m.exclude, vec![String::from("a"), String::from("b")]);
    assert_eq!(m.instructions, Some(String::from("CUSTOM")));
    assert_eq!(
        m.wit_deps_paths,
        Some(vec![String::from("wit/deps"), String::from("other")])
    );
    assert_eq!(m.transform_exclude, Some(vec![String::from("t.bin")]));
}

#[test]
fn metadata_parsing_rejects_wrong_types() {
    let wrong_bool = parse_json(&b"{\"description\":\"d\",\"exclude\":[],\"requiresWASI\":\"yes\"}".to_vec()).unwrap();
    assert!(metadata_from_value(&wrong_bool).is_none());
    let wrong_list = parse_json(&b"{\"description\":\"d\",\"exclude\":[1,2]}".to_vec()).unwrap();
    assert!(metadata_from_value(&wrong_list).is_none());
    let wrong_desc = parse_json(&b"{\"description\":3,\"exclude\":[]}".to_vec()).unwrap();
    assert!(metadata_from_value(&wrong_desc).is_none());
}

#[test]
fn custom_instructions_and_targets_are_honored() {
    let meta = b"{\"description\":\"d\",\"exclude\":[],\"requiresAdapter\":false,\"instructions\":\"SPECIAL\",\"witDepsPaths\":[\"deps-a\",\"deps-b\"],\"requiresGolemHostWIT\":true}";
    let catalog = Catalog {
        examples: root(
            "examples",
            vec![dir(
                "go",
                vec![
                    file("INSTRUCTIONS", b"default"),
                    file("SPECIAL", b"special component-name"),
                    dir("go-ex", vec![file("metadata.json", meta), file("m.go", b"go")]),
                ],
            )],
        ),
        adapters: root("adapters", vec![]),
        wit: root(
            "wit",
            vec![
                dir("golem", vec![file("g.wit", b"g")]),
                dir("wasm-rpc", vec![file("w.wit", b"w")]),
            ],
        ),
    };
    let list = GolemExamples::list_all_examples(&catalog).unwrap();
    assert_eq!(list.len(), 1);
    assert_eq!(list[0].instructions, "special component-name");
    let p = params("cool-app", "golem:component", "out");
    let plan = GolemExamples::instantiate(&catalog, &list[0], &p).unwrap();
    let dirs = mkdir_paths(&plan.actions);
    assert!(dirs.contains(&String::from("out/cool-app/deps-a/golem")));
    assert!(dirs.contains(&String::from("out/cool-app/deps-b/golem")));
    assert!(dirs.contains(&String::from("out/cool-app/deps-a/wasm-rpc")));
    assert!(dirs.contains(&String::from("out/cool-app/deps-b/wasm-rpc")));
    assert_eq!(plan.instructions, "special cool-app");
    assert_eq!(GolemExamples::instructions(&list[0], &p), "special cool-app");
}

fn example_for(language: GuestLanguage, name: &str) -> Example {
    let mut e = plain_example(vec![]);
    e.name = ExampleName::from_string(name);
    e.language = language;
    e
}

#[test]
fn listing_filters_by_tier_and_language() {
    let all = vec![
        example_for(GuestLanguage::Rust, "rust-default"),
        example_for(GuestLanguage::Zig, "zig-default"),
        example_for(GuestLanguage::CSharp, "cs-default"),
        example_for(GuestLanguage::Go, "go-default"),
    ];
    let tier2 = filter_examples(&all, None, Some(GuestLanguageTier::Tier2));
    let names: Vec<&str> = tier2.iter().map(|e| e.name.as_string()).collect();
    assert_eq!(names, vec!["rust-default", "go-default"]);
    for e in &tier2 {
        assert!(e.language.tier().level() <= 2);
    }
    let rust_only = filter_examples(&all, Some(GuestLanguage::Rust), None);
    assert_eq!(rust_only.len(), 1);
    assert_eq!(rust_only[0].name.as_string(), "rust-default");
}

#[test]
fn find_example_is_exact_match() {
    let all = vec![
        example_for(GuestLanguage::Rust, "rust-default"),
        example_for(GuestLanguage::Go, "go-default"),
    ];
    let found = find_example(&all, &ExampleName::from_string("go-default")).unwrap();
    assert_eq!(found.name.as_string(), "go-default");
    assert!(find_example(&all, &ExampleName::from_string("go-def")).is_none());
}
