use dnt::deps::{filter_test_dependencies, get_dependencies};
use dnt::paths::get_relative_specifier;
use dnt::texts::{escape_template, strip_bom, synthetic_module_text};
use dnt::{Dependency, MappedSpecifier};

fn mapped(name: &str, version: Option<&str>) -> MappedSpecifier {
    MappedSpecifier { name: name.to_string(), version: version.map(|v| v.to_string()) }
}

fn dep(name: &str, version: &str) -> Dependency {
    Dependency { name: name.to_string(), version: version.to_string() }
}

#[test]
fn escape_backtick_and_interpolation() {
    assert_eq!(escape_template("a`b"), "a\\`b");
    assert_eq!(escape_template("a${b}"), "a\\${b}");
    assert_eq!(escape_template("plain"), "plain");
}

#[test]
fn escape_single_pass_never_rescans() {
    // a backtick directly followed by an interpolation start: the inserted
    // backslashes must not be escaped again
    assert_eq!(escape_template("`${"), "\\`\\${");
    // a lone dollar sign is untouched
    assert_eq!(escape_template("a$b"), "a$b");
    assert_eq!(escape_template("$"), "$");
}

#[test]
fn strip_bom_removes_only_a_leading_mark() {
    assert_eq!(strip_bom("\u{feff}abc"), "abc");
    assert_eq!(strip_bom("abc"), "abc");
    assert_eq!(strip_bom("a\u{feff}bc"), "a\u{feff}bc");
}

#[test]
fn synthetic_module_text_wraps_escaped_content() {
    assert_eq!(
        synthetic_module_text("{\"a\": 1}"),
        "export default JSON.parse(`{\"a\": 1}`);"
    );
    assert_eq!(
        synthetic_module_text("\u{feff}{\"s\": \"`${x}\"}"),
        "export default JSON.parse(`{\"s\": \"\\`\\${x}\"}`);"
    );
}

#[test]
fn dependencies_are_sorted_and_versionless_mappings_are_dropped() {
    let ms = vec![
        mapped("zeta", Some("1.0.0")),
        mapped("path", None),
        mapped("alpha", Some("2.1.0")),
        mapped("mid", Some("0.3.0")),
    ];
    let deps = get_dependencies(&ms);
    assert_eq!(deps, vec![dep("alpha", "2.1.0"), dep("mid", "0.3.0"), dep("zeta", "1.0.0")]);
}

#[test]
fn duplicate_names_keep_the_first_version() {
    let ms = vec![mapped("a", Some("1.0.0")), mapped("a", Some("2.0.0"))];
    let deps = get_dependencies(&ms);
    assert_eq!(deps, vec![dep("a", "1.0.0")]);
}

#[test]
fn cross_environment_filter_matches_exact_pairs_only() {
    let test_deps = vec![dep("a", "1.0.0"), dep("b", "2.0.0"), dep("c", "3.0.0")];
    let main_deps = vec![dep("a", "1.0.0"), dep("b", "9.9.9")];
    let filtered = filter_test_dependencies(test_deps, &main_deps);
    // the exact (a, 1.0.0) pair leaves; (b, 2.0.0) stays because main holds
    // a different version, surfacing later as an install-time conflict
    assert_eq!(filtered, vec![dep("b", "2.0.0"), dep("c", "3.0.0")]);
}

#[test]
fn relative_specifier_for_sibling_file() {
    assert_eq!(get_relative_specifier("lib/mod.js", "lib/_polyfills.js"), "./_polyfills.js");
    assert_eq!(get_relative_specifier("mod.js", "polyfills.js"), "./polyfills.js");
}

#[test]
fn relative_specifier_climbs_directories() {
    assert_eq!(get_relative_specifier("src/deep/a.js", "src/b.js"), "../b.js");
    assert_eq!(get_relative_specifier("a/b/c.js", "x/y.js"), "../../x/y.js");
    assert_eq!(get_relative_specifier("a.js", "x/y.js"), "./x/y.js");
}
