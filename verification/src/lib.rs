//! Core of a module-graph transform: rewrites a set of source modules written
//! against one module-resolution and global-symbol model into a self-contained
//! output package for a different runtime, split into a "main" and a "test"
//! environment, with polyfill and shim files synthesized only where needed.
//!
//! The module graph itself, specifier classification and the per-module
//! rewrite passes are external collaborators: they hand this crate plain
//! values (module texts, edit batches, per-module pass results), and this
//! crate assembles the two output environments from them.

use vstd::prelude::*;

pub mod analyze;
pub mod deps;
pub mod finalize;
pub mod paths;
pub mod strings;
pub mod text_changes;
pub mod texts;
pub mod warnings;

verus! {

/// One emitted file: an output path and its final text.
#[derive(Debug, PartialEq)]
pub struct OutputFile {
    pub file_path: String,
    pub file_text: String,
}

/// One package dependency of an output environment.
#[derive(Debug, PartialEq)]
pub struct Dependency {
    pub name: String,
    pub version: String,
}

/// A package a specifier is explicitly mapped to. Without a version the
/// package is assumed ambient and produces no dependency entry.
#[derive(Debug, Clone, PartialEq)]
pub struct MappedSpecifier {
    pub name: String,
    pub version: Option<String>,
}

/// A user-configured package that supplies global symbols: referenced global
/// names are rewritten into imports from a synthesized file that re-exports
/// them from this package.
#[derive(Debug, Clone, PartialEq)]
pub struct Shim {
    pub package: MappedSpecifier,
    pub global_names: Vec<String>,
}

/// One required polyfill: an identifying name and the text it contributes to
/// the synthesized polyfill file.
#[derive(Debug, Clone, PartialEq)]
pub struct Polyfill {
    pub name: String,
    pub file_text: String,
}

/// One of the two independent output sets.
#[derive(Debug, PartialEq)]
pub struct TransformOutputEnvironment {
    pub entry_points: Vec<String>,
    pub files: Vec<OutputFile>,
    pub dependencies: Vec<Dependency>,
}

/// The result of a whole transform: both environments plus the collected
/// non-fatal warnings.
#[derive(Debug, PartialEq)]
pub struct TransformOutput {
    pub main: TransformOutputEnvironment,
    pub test: TransformOutputEnvironment,
    pub warnings: Vec<String>,
}

/// Mathematical model of an output file: (path, text).
pub open spec fn file_view(f: &OutputFile) -> (Seq<char>, Seq<char>) {
    (f.file_path@, f.file_text@)
}

pub open spec fn files_view(s: Seq<OutputFile>) -> Seq<(Seq<char>, Seq<char>)> {
    s.map_values(|f: OutputFile| file_view(&f))
}

/// Mathematical model of a dependency: (name, version).
pub open spec fn dep_view(d: &Dependency) -> (Seq<char>, Seq<char>) {
    (d.name@, d.version@)
}

pub open spec fn deps_view(s: Seq<Dependency>) -> Seq<(Seq<char>, Seq<char>)> {
    s.map_values(|d: Dependency| dep_view(&d))
}

/// What one reachable module hands the orchestrator. A parsed-source module
/// comes with its text and the per-module rewrite passes' results: the edits
/// to apply, the polyfills its top-level references require, whether it
/// referenced a configured shim global, and the diagnostics its directives
/// produced. A synthetic module holds raw content or nothing.
pub enum ModuleBody {
    Parsed {
        text: String,
        changes: Vec<text_changes::TextChange>,
        polyfills: Vec<Polyfill>,
        used_shim: bool,
        warnings: Vec<String>,
    },
    Synthetic { source: Option<String> },
}

/// One reachable module, in the graph's stable emission order, routed to the
/// test environment exactly when it is reachable only from test entry points.
pub struct ModuleSource {
    pub specifier: String,
    pub file_path: String,
    pub test_only: bool,
    pub body: ModuleBody,
}

/// What the external module graph hands the orchestrator: the reachable
/// modules in stable order (locals, then remotes, then selected declaration
/// files), the declaration-file conflicts, the explicitly mapped packages of
/// each environment, and each environment's two reserved synthetic output
/// paths.
pub struct ModuleGraphData {
    pub modules: Vec<ModuleSource>,
    pub types: Vec<warnings::TypesEntry>,
    pub main_mappings: Vec<MappedSpecifier>,
    pub test_mappings: Vec<MappedSpecifier>,
    pub main_polyfill_path: String,
    pub main_shim_path: String,
    pub test_polyfill_path: String,
    pub test_shim_path: String,
}

/// The caller's configuration: entry-point output paths per environment and
/// the configured shims per environment.
pub struct TransformOptions {
    pub entry_points: Vec<String>,
    pub test_entry_points: Vec<String>,
    pub shims: Vec<Shim>,
    pub test_shims: Vec<Shim>,
}

/// Why a transform aborted. Both are fatal: no partial output is returned.
#[derive(Debug, PartialEq)]
pub enum TransformError {
    /// No entry point was given; nothing was loaded or emitted.
    NoEntryPoints,
    /// The edit batches of this module's rewrite passes conflict.
    ModuleTextChanges { specifier: String },
}

/// The final text a module contributes: `None` for a synthetic module with
/// no content, `Err` when its edit batches conflict.
pub open spec fn spec_module_result(m: &ModuleSource) -> Option<Result<Seq<char>, ()>> {
    match m.body {
        ModuleBody::Parsed { text, changes, .. } => if text_changes::edits_ok(
            text@,
            text_changes::edits_view(changes@),
        ) {
            Some(Ok(text_changes::apply_edits_result(text@, text_changes::edits_view(changes@))))
        } else {
            Some(Err(()))
        },
        ModuleBody::Synthetic { source } => match source {
            Some(s) => Some(Ok(texts::spec_synthetic_module_text(s@))),
            None => None,
        },
    }
}

pub open spec fn spec_module_failed(m: &ModuleSource) -> bool {
    spec_module_result(m) matches Some(r) && r is Err
}

pub open spec fn spec_some_module_failed(modules: Seq<ModuleSource>) -> bool {
    exists|i: int| 0 <= i < modules.len() && spec_module_failed(&modules[i])
}

/// Module `i` is the first whose edit batches conflict.
pub open spec fn spec_first_failed(modules: Seq<ModuleSource>, i: int) -> bool {
    &&& 0 <= i < modules.len()
    &&& spec_module_failed(&modules[i])
    &&& forall|k: int| 0 <= k < i ==> !spec_module_failed(&modules[k])
}

/// The files an environment's module loop emits, in module order.
pub open spec fn spec_env_files_of(modules: Seq<ModuleSource>, test: bool) -> Seq<
    (Seq<char>, Seq<char>),
>
    decreases modules.len(),
{
    if modules.len() == 0 {
        Seq::empty()
    } else {
        let rest = spec_env_files_of(modules.drop_last(), test);
        let m = modules.last();
        match spec_module_result(&m) {
            Some(r) => match r {
                Ok(t) => if m.test_only == test {
                    rest.push((m.file_path@, t))
                } else {
                    rest
                },
                Err(e) => rest,
            },
            None => rest,
        }
    }
}

pub open spec fn has_polyfill_name(ps: Seq<Polyfill>, n: Seq<char>) -> bool {
    exists|k: int| 0 <= k < ps.len() && (#[trigger] ps[k]).name@ == n
}

/// Merge newly required polyfills into the accumulated set, first use first,
/// one entry per name.
pub open spec fn spec_add_polyfills(acc: Seq<Polyfill>, ps: Seq<Polyfill>) -> Seq<Polyfill>
    decreases ps.len(),
{
    if ps.len() == 0 {
        acc
    } else {
        spec_add_polyfills(
            if has_polyfill_name(acc, ps[0].name@) {
                acc
            } else {
                acc.push(ps[0])
            },
            ps.drop_first(),
        )
    }
}

/// The polyfills an environment requires after its module loop.
pub open spec fn spec_env_polyfills(modules: Seq<ModuleSource>, test: bool) -> Seq<Polyfill>
    decreases modules.len(),
{
    if modules.len() == 0 {
        Seq::empty()
    } else {
        let acc = spec_env_polyfills(modules.drop_last(), test);
        let m = modules.last();
        match m.body {
            ModuleBody::Parsed { polyfills, .. } => if m.test_only == test {
                spec_add_polyfills(acc, polyfills@)
            } else {
                acc
            },
            ModuleBody::Synthetic { .. } => acc,
        }
    }
}

/// Did any module of the environment reference a configured shim global?
pub open spec fn spec_env_used_shim(modules: Seq<ModuleSource>, test: bool) -> bool
    decreases modules.len(),
{
    if modules.len() == 0 {
        false
    } else {
        let rest = spec_env_used_shim(modules.drop_last(), test);
        let m = modules.last();
        match m.body {
            ModuleBody::Parsed { used_shim, .. } => rest || (m.test_only == test && used_shim),
            ModuleBody::Synthetic { .. } => rest,
        }
    }
}

/// The per-module diagnostics, in module order, both environments together.
pub open spec fn spec_module_warnings(modules: Seq<ModuleSource>) -> Seq<Seq<char>>
    decreases modules.len(),
{
    if modules.len() == 0 {
        Seq::empty()
    } else {
        spec_module_warnings(modules.drop_last()) + (match modules.last().body {
            ModuleBody::Parsed { warnings: w, .. } => warnings::warnings_view(w@),
            ModuleBody::Synthetic { .. } => Seq::empty(),
        })
    }
}

/// What the shim step appends to an environment's files.
pub open spec fn spec_shim_stage(
    files: Seq<(Seq<char>, Seq<char>)>,
    used: bool,
    shims: Seq<Shim>,
    spath: Seq<char>,
) -> Seq<(Seq<char>, Seq<char>)> {
    if used {
        files.push((spath, texts::spec_shim_file_text(shims)))
    } else {
        files
    }
}

/// The files of one finished environment: the module files, then the
/// polyfill step, then the shim step.
pub open spec fn spec_env_final_files(
    modules: Seq<ModuleSource>,
    test: bool,
    entries: Seq<Seq<char>>,
    shims: Seq<Shim>,
    ppath: Seq<char>,
    spath: Seq<char>,
) -> Seq<(Seq<char>, Seq<char>)> {
    spec_shim_stage(
        finalize::spec_add_polyfill_files(
            spec_env_files_of(modules, test),
            entries,
            spec_env_polyfills(modules, test),
            ppath,
        ),
        spec_env_used_shim(modules, test),
        shims,
        spath,
    )
}

fn clone_polyfill(p: &Polyfill) -> (r: Polyfill)
    ensures
        r == *p,
{
    let r = Polyfill { name: p.name.clone(), file_text: p.file_text.clone() };
    proof {
        assert(r.name == p.name && r.file_text == p.file_text);
    }
    r
}

fn contains_polyfill_name(ps: &Vec<Polyfill>, name: &String) -> (r: bool)
    ensures
        r == has_polyfill_name(ps@, name@),
{
    let mut i: usize = 0;
    while i < ps.len()
        invariant
            i <= ps@.len(),
            forall|k: int| 0 <= k < i ==> (#[trigger] ps@[k]).name@ != name@,
        decreases ps@.len() - i,
    {
        if strings::str_value_eq(&ps[i].name, name) {
            return true;
        }
        i = i + 1;
    }
    false
}

/// Record one emitted module file in its owning environment and fold the
/// module's side accumulations into the build context.
#[verifier::loop_isolation(false)]
fn record_module(
    ctx: &mut finalize::EnvironmentContext,
    path: &String,
    text: String,
    polyfills: &Vec<Polyfill>,
    used_shim: bool,
)
    ensures
        final(ctx).environment.entry_points == old(ctx).environment.entry_points,
        final(ctx).environment.dependencies == old(ctx).environment.dependencies,
        final(ctx).shims == old(ctx).shims,
        files_view(final(ctx).environment.files@) == files_view(
            old(ctx).environment.files@,
        ).push((path@, text@)),
        final(ctx).polyfills@ == spec_add_polyfills(old(ctx).polyfills@, polyfills@),
        final(ctx).used_shim == (old(ctx).used_shim || used_shim),
{
    let ghost base = files_view(ctx.environment.files@);
    let ghost textv = text@;
    ctx.environment.files.push(OutputFile { file_path: path.clone(), file_text: text });
    proof {
        assert(files_view(ctx.environment.files@) =~= base.push((path@, textv)));
    }
    let ghost files_now = ctx.environment.files@;
    let mut k: usize = 0;
    let ghost start = ctx.polyfills@;
    assert(polyfills@.skip(0) =~= polyfills@);
    while k < polyfills.len()
        invariant
            k <= polyfills@.len(),
            spec_add_polyfills(start, polyfills@) == spec_add_polyfills(
                ctx.polyfills@,
                polyfills@.skip(k as int),
            ),
            ctx.environment.entry_points == old(ctx).environment.entry_points,
            ctx.environment.dependencies == old(ctx).environment.dependencies,
            ctx.environment.files@ == files_now,
            ctx.shims == old(ctx).shims,
            ctx.used_shim == old(ctx).used_shim,
        decreases polyfills@.len() - k,
    {
        proof {
            assert(polyfills@.skip(k as int)[0] == polyfills@[k as int]);
            assert(polyfills@.skip(k as int).drop_first() =~= polyfills@.skip(k + 1));
        }
        if !contains_polyfill_name(&ctx.polyfills, &polyfills[k].name) {
            let p = clone_polyfill(&polyfills[k]);
            ctx.polyfills.push(p);
        }
        k = k + 1;
    }
    proof {
        assert(spec_add_polyfills(ctx.polyfills@, polyfills@.skip(polyfills@.len() as int))
            == ctx.polyfills@);
    }
    if used_shim {
        ctx.used_shim = true;
    }
}

/// Law: when no module of an environment references a polyfill-triggering
/// symbol, the environment's required-polyfill set is empty, so no polyfill
/// file appears in its output and no entry-point text gains an import line:
/// the finalized files are exactly the module files, plus at most the shim
/// file.
pub proof fn lemma_no_polyfills_means_untouched_files(
    modules: Seq<ModuleSource>,
    test: bool,
    entries: Seq<Seq<char>>,
    shims: Seq<Shim>,
    ppath: Seq<char>,
    spath: Seq<char>,
)
    requires
        forall|i: int|
            0 <= i < modules.len() ==> match (#[trigger] modules[i]).body {
                ModuleBody::Parsed { polyfills, .. } => modules[i].test_only == test
                    ==> polyfills@.len() == 0,
                ModuleBody::Synthetic { .. } => true,
            },
    ensures
        spec_env_polyfills(modules, test).len() == 0,
        spec_env_final_files(modules, test, entries, shims, ppath, spath) == spec_shim_stage(
            spec_env_files_of(modules, test),
            spec_env_used_shim(modules, test),
            shims,
            spath,
        ),
{
    lemma_no_polyfills_empty(modules, test);
}

proof fn lemma_no_polyfills_empty(modules: Seq<ModuleSource>, test: bool)
    requires
        forall|i: int|
            0 <= i < modules.len() ==> match (#[trigger] modules[i]).body {
                ModuleBody::Parsed { polyfills, .. } => modules[i].test_only == test
                    ==> polyfills@.len() == 0,
                ModuleBody::Synthetic { .. } => true,
            },
    ensures
        spec_env_polyfills(modules, test).len() == 0,
    decreases modules.len(),
{
    if modules.len() > 0 {
        assert(forall|a: int|
            0 <= a < modules.drop_last().len() ==> #[trigger] modules.drop_last()[a]
                == modules[a]);
        lemma_no_polyfills_empty(modules.drop_last(), test);
        assert(modules[modules.len() - 1] == modules.last());
        match modules.last().body {
            ModuleBody::Parsed { polyfills, .. } => {
                if modules.last().test_only == test {
                    assert(spec_add_polyfills(
                        spec_env_polyfills(modules.drop_last(), test),
                        polyfills@,
                    ).len() == 0) by {
                        lemma_add_polyfills_empty(
                            spec_env_polyfills(modules.drop_last(), test),
                            polyfills@,
                        );
                    }
                }
            },
            ModuleBody::Synthetic { .. } => {},
        }
    }
}

proof fn lemma_add_polyfills_empty(acc: Seq<Polyfill>, ps: Seq<Polyfill>)
    requires
        ps.len() == 0,
    ensures
        spec_add_polyfills(acc, ps) == acc,
{
}

/// Law: when every module that references a configured shim global is
/// reachable only from test entry points, the main environment never marks
/// the shim as used, so the shim file appears in the test environment's
/// output only, and the main environment's files stop at the polyfill stage.
pub proof fn lemma_shim_used_only_in_test(
    modules: Seq<ModuleSource>,
    entries: Seq<Seq<char>>,
    shims: Seq<Shim>,
    ppath: Seq<char>,
    spath: Seq<char>,
)
    requires
        forall|i: int|
            0 <= i < modules.len() ==> match (#[trigger] modules[i]).body {
                ModuleBody::Parsed { used_shim, .. } => used_shim ==> modules[i].test_only,
                ModuleBody::Synthetic { .. } => true,
            },
    ensures
        !spec_env_used_shim(modules, false),
        spec_env_final_files(modules, false, entries, shims, ppath, spath)
            == finalize::spec_add_polyfill_files(
            spec_env_files_of(modules, false),
            entries,
            spec_env_polyfills(modules, false),
            ppath,
        ),
{
    lemma_no_main_shim(modules);
}

proof fn lemma_no_main_shim(modules: Seq<ModuleSource>)
    requires
        forall|i: int|
            0 <= i < modules.len() ==> match (#[trigger] modules[i]).body {
                ModuleBody::Parsed { used_shim, .. } => used_shim ==> modules[i].test_only,
                ModuleBody::Synthetic { .. } => true,
            },
    ensures
        !spec_env_used_shim(modules, false),
    decreases modules.len(),
{
    if modules.len() > 0 {
        assert(forall|a: int|
            0 <= a < modules.drop_last().len() ==> #[trigger] modules.drop_last()[a]
                == modules[a]);
        lemma_no_main_shim(modules.drop_last());
        assert(modules[modules.len() - 1] == modules.last());
    }
}

/// Assemble the two output environments. Validation comes first: with no
/// entry point the transform fails before anything else happens. Every
/// module is routed to its environment and its pass results folded in; a
/// conflicting edit batch aborts the whole transform with that module's
/// specifier. Each environment is then finalized (polyfill file, shim file,
/// shim dependencies), and finally every (name, version) pair of the test
/// environment's dependency list that exactly matches one of main's is
/// removed.
#[verifier::loop_isolation(false)]
#[verifier::rlimit(100)]
pub fn transform(options: TransformOptions, graph: ModuleGraphData) -> (r: Result<
    TransformOutput,
    TransformError,
>)
    ensures
        options.entry_points@.len() == 0 <==> r == Err::<TransformOutput, TransformError>(
            TransformError::NoEntryPoints,
        ),
        (options.entry_points@.len() > 0 && spec_some_module_failed(graph.modules@)) <==> (
        r matches Err(TransformError::ModuleTextChanges { .. })),
        forall|i: int|
            options.entry_points@.len() > 0 && #[trigger] spec_first_failed(graph.modules@, i)
                ==> (r matches Err(TransformError::ModuleTextChanges { specifier }) && specifier@
                == graph.modules@[i].specifier@),
        r matches Ok(out) ==> {
            &&& out.main.entry_points == options.entry_points
            &&& out.test.entry_points == options.test_entry_points
            &&& files_view(out.main.files@) == spec_env_final_files(
                graph.modules@,
                false,
                texts::strs_view(options.entry_points@),
                options.shims@,
                graph.main_polyfill_path@,
                graph.main_shim_path@,
            )
            &&& files_view(out.test.files@) == spec_env_final_files(
                graph.modules@,
                true,
                texts::strs_view(options.test_entry_points@),
                options.test_shims@,
                graph.test_polyfill_path@,
                graph.test_shim_path@,
            )
            &&& warnings::warnings_view(out.warnings@) == warnings::spec_declaration_warnings(
                graph.types@,
            ) + spec_module_warnings(graph.modules@)
            &&& deps::dep_names_strictly_sorted(out.main.dependencies@)
            &&& deps::dep_names_strictly_sorted(out.test.dependencies@)
        },
        r matches Ok(out) ==> forall|p: (Seq<char>, Seq<char>)|
            #[trigger] deps_view(out.main.dependencies@).contains(p) ==> deps::first_versioned(
                graph.main_mappings@,
                p,
            ) || deps::first_versioned(finalize::shim_packages(options.shims@), p),
        r matches Ok(out) ==> forall|p: (Seq<char>, Seq<char>)|
            #[trigger] deps::first_versioned(graph.main_mappings@, p) ==> deps_view(
                out.main.dependencies@,
            ).contains(p),
        r matches Ok(out) ==> (!spec_env_used_shim(graph.modules@, false) ==> forall|
            p: (Seq<char>, Seq<char>),
        |
            #[trigger] deps_view(out.main.dependencies@).contains(p) <==> deps::first_versioned(
                graph.main_mappings@,
                p,
            )),
        r matches Ok(out) ==> (spec_env_used_shim(graph.modules@, false) ==> forall|
            p: (Seq<char>, Seq<char>),
        |
            !deps::has_versioned_name(graph.main_mappings@, p.0)
                && #[trigger] deps::first_versioned(finalize::shim_packages(options.shims@), p)
                ==> deps_view(out.main.dependencies@).contains(p)),
        r matches Ok(out) ==> forall|p: (Seq<char>, Seq<char>)|
            #[trigger] deps_view(out.test.dependencies@).contains(p) ==> !deps_view(
                out.main.dependencies@,
            ).contains(p),
        r matches Ok(out) ==> forall|p: (Seq<char>, Seq<char>)|
            #[trigger] deps_view(out.test.dependencies@).contains(p) ==> deps::first_versioned(
                graph.test_mappings@,
                p,
            ) || deps::first_versioned(finalize::shim_packages(options.test_shims@), p),
        r matches Ok(out) ==> forall|p: (Seq<char>, Seq<char>)|
            #[trigger] deps::first_versioned(graph.test_mappings@, p) && !deps_view(
                out.main.dependencies@,
            ).contains(p) ==> deps_view(out.test.dependencies@).contains(p),
        r matches Ok(out) ==> (spec_env_used_shim(graph.modules@, true) ==> forall|
            p: (Seq<char>, Seq<char>),
        |
            !deps::has_versioned_name(graph.test_mappings@, p.0)
                && #[trigger] deps::first_versioned(finalize::shim_packages(options.test_shims@), p)
                && !deps_view(out.main.dependencies@).contains(p) ==> deps_view(
                out.test.dependencies@,
            ).contains(p)),
{
    if options.entry_points.len() == 0 {
        return Err(TransformError::NoEntryPoints);
    }
    let TransformOptions { entry_points, test_entry_points, shims, test_shims } = options;
    let ModuleGraphData {
        modules,
        types,
        main_mappings,
        test_mappings,
        main_polyfill_path,
        main_shim_path,
        test_polyfill_path,
        test_shim_path,
    } = graph;
    let mut warnings_acc = warnings::get_declaration_warnings(&types);
    let main_seed = deps::get_dependencies(&main_mappings);
    let test_seed = deps::get_dependencies(&test_mappings);
    let ghost main_seed_v = main_seed@;
    let ghost test_seed_v = test_seed@;
    let mut main_ctx = finalize::EnvironmentContext {
        environment: TransformOutputEnvironment {
            entry_points,
            files: Vec::new(),
            dependencies: main_seed,
        },
        polyfills: Vec::new(),
        shims,
        used_shim: false,
    };
    let mut test_ctx = finalize::EnvironmentContext {
        environment: TransformOutputEnvironment {
            entry_points: test_entry_points,
            files: Vec::new(),
            dependencies: test_seed,
        },
        polyfills: Vec::new(),
        shims: test_shims,
        used_shim: false,
    };
    let mut i: usize = 0;
    proof {
        assert(files_view(main_ctx.environment.files@) =~= spec_env_files_of(
            modules@.take(0),
            false,
        ));
        assert(files_view(test_ctx.environment.files@) =~= spec_env_files_of(
            modules@.take(0),
            true,
        ));
        assert(warnings::warnings_view(warnings_acc@) =~= warnings::spec_declaration_warnings(
            types@,
        ) + spec_module_warnings(modules@.take(0)));
    }
    while i < modules.len()
        invariant
            i <= modules@.len(),
            main_ctx.environment.entry_points == options.entry_points,
            test_ctx.environment.entry_points == options.test_entry_points,
            main_ctx.shims == options.shims,
            test_ctx.shims == options.test_shims,
            main_ctx.environment.dependencies@ == main_seed_v,
            test_ctx.environment.dependencies@ == test_seed_v,
            files_view(main_ctx.environment.files@) == spec_env_files_of(
                modules@.take(i as int),
                false,
            ),
            files_view(test_ctx.environment.files@) == spec_env_files_of(
                modules@.take(i as int),
                true,
            ),
            main_ctx.polyfills@ == spec_env_polyfills(modules@.take(i as int), false),
            test_ctx.polyfills@ == spec_env_polyfills(modules@.take(i as int), true),
            main_ctx.used_shim == spec_env_used_shim(modules@.take(i as int), false),
            test_ctx.used_shim == spec_env_used_shim(modules@.take(i as int), true),
            warnings::warnings_view(warnings_acc@) == warnings::spec_declaration_warnings(types@)
                + spec_module_warnings(modules@.take(i as int)),
            forall|k: int| 0 <= k < i ==> !spec_module_failed(&modules@[k]),
        decreases modules@.len() - i,
    {
        proof {
            assert(modules@.take(i + 1).drop_last() =~= modules@.take(i as int));
            assert(modules@.take(i + 1).last() == modules@[i as int]);
        }
        let m = &modules[i];
        match &m.body {
            ModuleBody::Parsed { text, changes, polyfills, used_shim, warnings: mws } => {
                match text_changes::apply_text_changes(text.as_str(), changes) {
                    Ok(t) => {
                        proof {
                            assert(spec_module_result(m) matches Some(q) && q == Ok::<
                                Seq<char>,
                                (),
                            >(t@));
                        }
                        let ghost wbase = warnings::warnings_view(warnings_acc@);
                        let mut w: usize = 0;
                        assert(warnings::warnings_view(mws@).take(0)
                            =~= Seq::<Seq<char>>::empty());
                        while w < mws.len()
                            invariant
                                w <= mws@.len(),
                                warnings::warnings_view(warnings_acc@) == wbase
                                    + warnings::warnings_view(mws@).take(w as int),
                            decreases mws@.len() - w,
                        {
                            let ghost wpre = warnings_acc@;
                            warnings_acc.push(mws[w].clone());
                            proof {
                                assert(warnings::warnings_view(warnings_acc@)
                                    =~= warnings::warnings_view(wpre).push(mws@[w as int]@));
                                assert(warnings::warnings_view(mws@)[w as int]
                                    == mws@[w as int]@);
                                assert(warnings::warnings_view(mws@).take(w + 1)
                                    =~= warnings::warnings_view(mws@).take(w as int).push(
                                    warnings::warnings_view(mws@)[w as int],
                                ));
                                assert(warnings::warnings_view(warnings_acc@)
                                    =~= wbase + warnings::warnings_view(mws@).take(w + 1));
                            }
                            w = w + 1;
                        }
                        proof {
                            assert(warnings::warnings_view(mws@).take(mws@.len() as int)
                                =~= warnings::warnings_view(mws@));
                        }
                        if m.test_only {
                            record_module(&mut test_ctx, &m.file_path, t, polyfills, *used_shim);
                        } else {
                            record_module(&mut main_ctx, &m.file_path, t, polyfills, *used_shim);
                        }
                    },
                    Err(_) => {
                        proof {
                            assert(spec_module_failed(&modules@[i as int]));
                            assert(spec_first_failed(modules@, i as int));
                            assert forall|i2: int| #[trigger] spec_first_failed(
                                modules@,
                                i2,
                            ) implies i2 == i as int by {
                                if i2 < i as int {
                                    assert(spec_module_failed(&modules@[i2]));
                                } else if i2 > i as int {
                                    assert(!spec_module_failed(&modules@[i as int]));
                                }
                            }
                        }
                        return Err(
                            TransformError::ModuleTextChanges { specifier: m.specifier.clone() },
                        );
                    },
                }
            },
            ModuleBody::Synthetic { source } => {
                match source {
                    Some(s) => {
                        let t = texts::synthetic_module_text(s.as_str());
                        let no_polyfills: Vec<Polyfill> = Vec::new();
                        proof {
                            assert(spec_module_result(m) matches Some(q) && q == Ok::<
                                Seq<char>,
                                (),
                            >(t@));
                        }
                        if m.test_only {
                            record_module(&mut test_ctx, &m.file_path, t, &no_polyfills, false);
                        } else {
                            record_module(&mut main_ctx, &m.file_path, t, &no_polyfills, false);
                        }
                    },
                    None => {
                        proof {
                            assert(spec_module_result(m) is None);
                        }
                    },
                }
            },
        }
        i = i + 1;
    }
    proof {
        assert(modules@.take(modules@.len() as int) =~= modules@);
        assert(!spec_some_module_failed(modules@)) by {
            if spec_some_module_failed(modules@) {
                let k = choose|k: int|
                    0 <= k < modules@.len() && spec_module_failed(&modules@[k]);
            }
        }
    }
    finalize::check_add_polyfill_file_to_environment(&mut main_ctx, main_polyfill_path.as_str());
    finalize::check_add_polyfill_file_to_environment(&mut test_ctx, test_polyfill_path.as_str());
    finalize::check_add_shim_file_to_environment(&mut main_ctx, main_shim_path.as_str());
    finalize::check_add_shim_file_to_environment(&mut test_ctx, test_shim_path.as_str());
    let finalize::EnvironmentContext { environment: main_env, .. } = main_ctx;
    let finalize::EnvironmentContext { environment: test_env, .. } = test_ctx;
    let TransformOutputEnvironment { entry_points: t_entries, files: t_files, dependencies: t_deps } =
        test_env;
    let ghost t_deps_v = t_deps@;
    let filtered = deps::filter_test_dependencies(t_deps, &main_env.dependencies);
    proof {
        deps::lemma_filtered_contains(t_deps_v, main_env.dependencies@);
    }
    Ok(
        TransformOutput {
            main: main_env,
            test: TransformOutputEnvironment {
                entry_points: t_entries,
                files: t_files,
                dependencies: filtered,
            },
            warnings: warnings_acc,
        },
    )
}

} // verus!
