use dnt::text_changes::TextChange;
use dnt::warnings::{get_declaration_warnings, TypesDependency, TypesEntry};
use dnt::{
    transform, Dependency, MappedSpecifier, ModuleBody, ModuleGraphData, ModuleSource, Polyfill,
    Shim, TransformError, TransformOptions,
};

fn s(x: &str) -> String {
    x.to_string()
}

fn parsed_module(
    specifier: &str,
    path: &str,
    test_only: bool,
    text: &str,
    changes: Vec<TextChange>,
    polyfills: Vec<Polyfill>,
    used_shim: bool,
) -> ModuleSource {
    ModuleSource {
        specifier: s(specifier),
        file_path: s(path),
        test_only,
        body: ModuleBody::Parsed {
            text: s(text),
            changes,
            polyfills,
            used_shim,
            warnings: Vec::new(),
        },
    }
}

fn empty_graph() -> ModuleGraphData {
    ModuleGraphData {
        modules: Vec::new(),
        types: Vec::new(),
        main_mappings: Vec::new(),
        test_mappings: Vec::new(),
        main_polyfill_path: s("_dnt.polyfills.js"),
        main_shim_path: s("_dnt.shims.js"),
        test_polyfill_path: s("_dnt.test_polyfills.js"),
        test_shim_path: s("_dnt.test_shims.js"),
    }
}

fn base_options() -> TransformOptions {
    TransformOptions {
        entry_points: vec![s("mod.js")],
        test_entry_points: Vec::new(),
        shims: Vec::new(),
        test_shims: Vec::new(),
    }
}

#[test]
fn empty_entry_points_fail_before_anything_else() {
    let mut options = base_options();
    options.entry_points = Vec::new();
    // even with shims and mappings configured, validation fails first
    options.shims = vec![Shim {
        package: MappedSpecifier { name: s("pkg"), version: Some(s("1.0.0")) },
        global_names: vec![s("Blob")],
    }];
    let r = transform(options, empty_graph());
    assert_eq!(r.unwrap_err(), TransformError::NoEntryPoints);
}

#[test]
fn single_module_passes_through() {
    let mut graph = empty_graph();
    graph.modules.push(parsed_module(
        "file:///mod.ts",
        "mod.js",
        false,
        "export const a = 1;",
        Vec::new(),
        Vec::new(),
        false,
    ));
    let out = transform(base_options(), graph).unwrap();
    assert_eq!(out.main.files.len(), 1);
    assert_eq!(out.main.files[0].file_path, s("mod.js"));
    assert_eq!(out.main.files[0].file_text, s("export const a = 1;"));
    assert_eq!(out.main.entry_points, vec![s("mod.js")]);
    assert!(out.main.dependencies.is_empty());
    assert!(out.test.files.is_empty());
    assert!(out.warnings.is_empty());
}

#[test]
fn module_edits_are_applied() {
    let mut graph = empty_graph();
    graph.modules.push(parsed_module(
        "file:///mod.ts",
        "mod.js",
        false,
        "import { a } from './dep.ts';",
        vec![TextChange { start: 19, end: 27, new_text: s("./dep.js") }],
        Vec::new(),
        false,
    ));
    let out = transform(base_options(), graph).unwrap();
    assert_eq!(out.main.files[0].file_text, s("import { a } from './dep.js';"));
}

#[test]
fn conflicting_edits_abort_with_the_specifier() {
    let mut graph = empty_graph();
    graph.modules.push(parsed_module(
        "file:///bad.ts",
        "bad.js",
        false,
        "0123456789",
        vec![
            TextChange { start: 0, end: 5, new_text: s("a") },
            TextChange { start: 3, end: 7, new_text: s("b") },
        ],
        Vec::new(),
        false,
    ));
    let r = transform(base_options(), graph);
    assert_eq!(
        r.unwrap_err(),
        TransformError::ModuleTextChanges { specifier: s("file:///bad.ts") }
    );
}

#[test]
fn polyfill_file_and_entry_import_appear_only_when_needed() {
    // no polyfills: untouched
    let mut graph = empty_graph();
    graph.modules.push(parsed_module(
        "file:///mod.ts",
        "mod.js",
        false,
        "export {};",
        Vec::new(),
        Vec::new(),
        false,
    ));
    let out = transform(base_options(), graph).unwrap();
    assert_eq!(out.main.files.len(), 1);
    assert_eq!(out.main.files[0].file_text, s("export {};"));

    // one polyfill: the file appears and the entry point gains one import
    let mut graph = empty_graph();
    graph.modules.push(parsed_module(
        "file:///mod.ts",
        "mod.js",
        false,
        "export {};",
        Vec::new(),
        vec![Polyfill { name: s("object-has-own"), file_text: s("// has-own\n") }],
        false,
    ));
    let out = transform(base_options(), graph).unwrap();
    assert_eq!(out.main.files.len(), 2);
    assert_eq!(out.main.files[0].file_path, s("mod.js"));
    assert_eq!(
        out.main.files[0].file_text,
        s("import './_dnt.polyfills.js';\nexport {};")
    );
    assert_eq!(out.main.files[1].file_path, s("_dnt.polyfills.js"));
    assert_eq!(out.main.files[1].file_text, s("// has-own\n"));
}

#[test]
fn duplicate_polyfills_are_merged_by_name() {
    let pf = || Polyfill { name: s("object-has-own"), file_text: s("// has-own\n") };
    let mut graph = empty_graph();
    graph.modules.push(parsed_module(
        "file:///a.ts", "a.js", false, "export {};", Vec::new(), vec![pf()], false,
    ));
    graph.modules.push(parsed_module(
        "file:///mod.ts", "mod.js", false, "export {};", Vec::new(), vec![pf()], false,
    ));
    let out = transform(base_options(), graph).unwrap();
    // two module files plus one polyfill file holding the text once
    assert_eq!(out.main.files.len(), 3);
    assert_eq!(out.main.files[2].file_text, s("// has-own\n"));
}

#[test]
fn shim_file_and_dependency_stay_in_the_test_environment() {
    let shim = Shim {
        package: MappedSpecifier { name: s("buffer"), version: Some(s("6.0.3")) },
        global_names: vec![s("Buffer"), s("atob")],
    };
    let mut options = base_options();
    options.test_entry_points = vec![s("mod.test.js")];
    options.shims = vec![shim.clone()];
    options.test_shims = vec![shim];
    let mut graph = empty_graph();
    graph.modules.push(parsed_module(
        "file:///mod.ts", "mod.js", false, "export {};", Vec::new(), Vec::new(), false,
    ));
    // only the test-only module references a shim global
    graph.modules.push(parsed_module(
        "file:///mod.test.ts",
        "mod.test.js",
        true,
        "import { Buffer } from './_dnt.test_shims.js';",
        Vec::new(),
        Vec::new(),
        true,
    ));
    let out = transform(options, graph).unwrap();
    // main gets neither the shim file nor the dependency
    assert_eq!(out.main.files.len(), 1);
    assert!(out.main.dependencies.is_empty());
    // test gets both
    assert_eq!(out.test.files.len(), 2);
    assert_eq!(out.test.files[1].file_path, s("_dnt.test_shims.js"));
    assert_eq!(
        out.test.files[1].file_text,
        s("export { Buffer, atob } from \"buffer\";\n")
    );
    assert_eq!(
        out.test.dependencies,
        vec![Dependency { name: s("buffer"), version: s("6.0.3") }]
    );
}

#[test]
fn shim_in_both_environments_is_deduplicated_across_them() {
    let shim = Shim {
        package: MappedSpecifier { name: s("buffer"), version: Some(s("6.0.3")) },
        global_names: vec![s("Buffer")],
    };
    let mut options = base_options();
    options.test_entry_points = vec![s("mod.test.js")];
    options.shims = vec![shim.clone()];
    options.test_shims = vec![shim];
    let mut graph = empty_graph();
    graph.modules.push(parsed_module(
        "file:///mod.ts", "mod.js", false, "export {};", Vec::new(), Vec::new(), true,
    ));
    graph.modules.push(parsed_module(
        "file:///mod.test.ts", "mod.test.js", true, "export {};", Vec::new(), Vec::new(), true,
    ));
    let out = transform(options, graph).unwrap();
    // both environments used the shim, so both get the file, but the exact
    // (name, version) pair is removed from the test list
    assert_eq!(
        out.main.dependencies,
        vec![Dependency { name: s("buffer"), version: s("6.0.3") }]
    );
    assert!(out.test.dependencies.is_empty());
}

#[test]
fn mapped_dependencies_are_seeded_sorted_and_deduplicated_across_environments() {
    let mut options = base_options();
    options.test_entry_points = vec![s("t.js")];
    let mut graph = empty_graph();
    graph.main_mappings = vec![
        MappedSpecifier { name: s("zlib"), version: Some(s("1.0.0")) },
        MappedSpecifier { name: s("abc"), version: Some(s("0.1.0")) },
        MappedSpecifier { name: s("path"), version: None },
    ];
    graph.test_mappings = vec![
        MappedSpecifier { name: s("abc"), version: Some(s("0.1.0")) },
        MappedSpecifier { name: s("chai"), version: Some(s("4.3.0")) },
    ];
    graph.modules.push(parsed_module(
        "file:///mod.ts", "mod.js", false, "export {};", Vec::new(), Vec::new(), false,
    ));
    let out = transform(options, graph).unwrap();
    assert_eq!(
        out.main.dependencies,
        vec![
            Dependency { name: s("abc"), version: s("0.1.0") },
            Dependency { name: s("zlib"), version: s("1.0.0") },
        ]
    );
    // (abc, 0.1.0) is exactly in main, so the test list keeps only chai
    assert_eq!(
        out.test.dependencies,
        vec![Dependency { name: s("chai"), version: s("4.3.0") }]
    );
}

#[test]
fn synthetic_modules_embed_content_and_empty_ones_are_skipped() {
    let mut graph = empty_graph();
    graph.modules.push(parsed_module(
        "file:///mod.ts", "mod.js", false, "export {};", Vec::new(), Vec::new(), false,
    ));
    graph.modules.push(ModuleSource {
        specifier: s("file:///data.json"),
        file_path: s("data.js"),
        test_only: false,
        body: ModuleBody::Synthetic { source: Some(s("{\"k\": \"`v`\"}")) },
    });
    graph.modules.push(ModuleSource {
        specifier: s("file:///nothing.json"),
        file_path: s("nothing.js"),
        test_only: false,
        body: ModuleBody::Synthetic { source: None },
    });
    let out = transform(base_options(), graph).unwrap();
    assert_eq!(out.main.files.len(), 2);
    assert_eq!(out.main.files[1].file_path, s("data.js"));
    assert_eq!(
        out.main.files[1].file_text,
        s("export default JSON.parse(`{\"k\": \"\\`v\\`\"}`);")
    );
}

#[test]
fn remote_selected_declaration_conflicts_use_the_directive_template() {
    let types = vec![TypesEntry {
        code_specifier: s("https://example.com/code.js"),
        selected: TypesDependency {
            specifier: s("https://example.com/code.d.ts"),
            referrer: s("https://example.com/code.js"),
        },
        ignored: vec![TypesDependency {
            specifier: s("file:///local.d.ts"),
            referrer: s("file:///main.ts"),
        }],
    }];
    let warnings = get_declaration_warnings(&types);
    assert_eq!(warnings.len(), 1);
    assert!(warnings[0].starts_with("Duplicate declaration file found for https://example.com/code.js"));
    assert!(warnings[0].ends_with(
        "Supress this warning by specifying a declaration file for this module locally via `@deno-types`."
    ));
}

#[test]
fn local_selected_declaration_conflicts_warn_local_competitors_only() {
    let types = vec![TypesEntry {
        code_specifier: s("file:///code.js"),
        selected: TypesDependency {
            specifier: s("file:///code.d.ts"),
            referrer: s("file:///main.ts"),
        },
        ignored: vec![
            TypesDependency {
                specifier: s("file:///other.d.ts"),
                referrer: s("file:///second.ts"),
            },
            TypesDependency {
                specifier: s("https://example.com/remote.d.ts"),
                referrer: s("https://example.com/mod.ts"),
            },
        ],
    }];
    let warnings = get_declaration_warnings(&types);
    // only the local competitor warns, with the only-one-local advice
    assert_eq!(warnings.len(), 1);
    assert!(warnings[0].contains("Specified file:///other.d.ts in file:///second.ts"));
    assert!(warnings[0].ends_with(
        "Supress this warning by having only one local file specify the declaration file for this module."
    ));
}

#[test]
fn module_warnings_follow_declaration_warnings() {
    let mut graph = empty_graph();
    graph.types = vec![TypesEntry {
        code_specifier: s("https://x.com/c.js"),
        selected: TypesDependency {
            specifier: s("https://x.com/c.d.ts"),
            referrer: s("https://x.com/c.js"),
        },
        ignored: vec![TypesDependency {
            specifier: s("file:///l.d.ts"),
            referrer: s("file:///m.ts"),
        }],
    }];
    graph.modules.push(ModuleSource {
        specifier: s("file:///mod.ts"),
        file_path: s("mod.js"),
        test_only: false,
        body: ModuleBody::Parsed {
            text: s("export {};"),
            changes: Vec::new(),
            polyfills: Vec::new(),
            used_shim: false,
            warnings: vec![s("malformed ignore directive")],
        },
    });
    let out = transform(base_options(), graph).unwrap();
    assert_eq!(out.warnings.len(), 2);
    assert!(out.warnings[0].starts_with("Duplicate declaration file found for"));
    assert_eq!(out.warnings[1], s("malformed ignore directive"));
}
