//! Whole-environment post-processing: synthesizing the polyfill file and
//! prepending its import to entry points, and synthesizing the shim file and
//! appending the shim packages' dependencies.

use vstd::prelude::*;

use crate::deps::{dep_names_strictly_sorted,
    first_versioned, has_dep_name, has_versioned_name, insert_dependency, versioned_at};
use crate::paths::{get_relative_specifier, spec_relative_specifier};
use crate::strings::str_value_eq;
use crate::texts::{build_polyfill_file_text, build_shim_file, spec_polyfill_file_text,
    spec_shim_file_text, spec_with_polyfill_import, strs_view, with_polyfill_import};
use crate::{deps_view, dep_view, file_view, files_view, Dependency, MappedSpecifier, OutputFile,
    Polyfill, Shim, TransformOutputEnvironment};

verus! {

/// The transient per-environment build state: the environment being
/// assembled, the polyfills it requires (first use first, one entry per
/// name), its configured shims, and whether any module referenced a shim
/// global. Owned by the orchestrator for exactly one environment's build.
pub struct EnvironmentContext {
    pub environment: TransformOutputEnvironment,
    pub polyfills: Vec<Polyfill>,
    pub shims: Vec<Shim>,
    pub used_shim: bool,
}

/// Prepend a polyfill import to the first file whose path equals `entry`.
pub open spec fn spec_prepend_one(
    files: Seq<(Seq<char>, Seq<char>)>,
    entry: Seq<char>,
    ppath: Seq<char>,
) -> Seq<(Seq<char>, Seq<char>)>
    decreases files.len(),
{
    if files.len() == 0 {
        files
    } else if files[0].0 == entry {
        files.update(
            0,
            (files[0].0, spec_with_polyfill_import(
                spec_relative_specifier(entry, ppath),
                files[0].1,
            )),
        )
    } else {
        seq![files[0]] + spec_prepend_one(files.drop_first(), entry, ppath)
    }
}

/// Prepend the polyfill import for every entry point, in order.
pub open spec fn spec_prepend_all(
    files: Seq<(Seq<char>, Seq<char>)>,
    entries: Seq<Seq<char>>,
    ppath: Seq<char>,
) -> Seq<(Seq<char>, Seq<char>)>
    decreases entries.len(),
{
    if entries.len() == 0 {
        files
    } else {
        spec_prepend_one(spec_prepend_all(files, entries.drop_last(), ppath), entries.last(), ppath)
    }
}

/// What the polyfill step does to an environment's files: nothing when no
/// polyfill is required; otherwise the polyfill file is added and every
/// entry-point file gains an import of it.
pub open spec fn spec_add_polyfill_files(
    files: Seq<(Seq<char>, Seq<char>)>,
    entries: Seq<Seq<char>>,
    polyfills: Seq<Polyfill>,
    ppath: Seq<char>,
) -> Seq<(Seq<char>, Seq<char>)> {
    if polyfills.len() == 0 {
        files
    } else {
        spec_prepend_all(
            files.push((ppath, spec_polyfill_file_text(polyfills))),
            entries,
            ppath,
        )
    }
}

proof fn lemma_prepend_one_at(
    files: Seq<(Seq<char>, Seq<char>)>,
    entry: Seq<char>,
    ppath: Seq<char>,
    j: int,
)
    requires
        0 <= j <= files.len(),
        forall|k: int| 0 <= k < j ==> (#[trigger] files[k]).0 != entry,
        j < files.len() ==> files[j].0 == entry,
    ensures
        j < files.len() ==> spec_prepend_one(files, entry, ppath) == files.update(
            j,
            (files[j].0, spec_with_polyfill_import(
                spec_relative_specifier(entry, ppath),
                files[j].1,
            )),
        ),
        j == files.len() ==> spec_prepend_one(files, entry, ppath) == files,
    decreases files.len(),
{
    if files.len() == 0 {
    } else if files[0].0 == entry {
        assert(j == 0);
    } else {
        assert(forall|a: int|
            0 <= a < files.drop_first().len() ==> #[trigger] files.drop_first()[a] == files[a + 1]);
        lemma_prepend_one_at(files.drop_first(), entry, ppath, j - 1);
        if j < files.len() {
            assert(seq![files[0]] + files.drop_first().update(
                j - 1,
                (files[j].0, spec_with_polyfill_import(
                    spec_relative_specifier(entry, ppath),
                    files[j].1,
                )),
            ) =~= files.update(
                j,
                (files[j].0, spec_with_polyfill_import(
                    spec_relative_specifier(entry, ppath),
                    files[j].1,
                )),
            ));
        } else {
            assert(seq![files[0]] + files.drop_first() =~= files);
        }
    }
}

/// If the environment requires any polyfill, synthesize the polyfill file at
/// the reserved path and prepend a relative import of it to every declared
/// entry-point file; otherwise leave the environment untouched.
#[verifier::loop_isolation(false)]
pub fn check_add_polyfill_file_to_environment(
    ctx: &mut EnvironmentContext,
    polyfill_file_path: &str,
)
    ensures
        final(ctx).environment.entry_points == old(ctx).environment.entry_points,
        final(ctx).environment.dependencies == old(ctx).environment.dependencies,
        final(ctx).polyfills == old(ctx).polyfills,
        final(ctx).shims == old(ctx).shims,
        final(ctx).used_shim == old(ctx).used_shim,
        files_view(final(ctx).environment.files@) == spec_add_polyfill_files(
            files_view(old(ctx).environment.files@),
            strs_view(old(ctx).environment.entry_points@),
            old(ctx).polyfills@,
            polyfill_file_path@,
        ),
        old(ctx).polyfills@.len() == 0 ==> *final(ctx) == *old(ctx),
{
    if ctx.polyfills.len() == 0 {
        return ;
    }
    let text = build_polyfill_file_text(&ctx.polyfills);
    let ghost base = files_view(ctx.environment.files@);
    ctx.environment.files.push(
        OutputFile { file_path: polyfill_file_path.to_owned(), file_text: text },
    );
    proof {
        assert(files_view(ctx.environment.files@) =~= base.push(
            (polyfill_file_path@, spec_polyfill_file_text(ctx.polyfills@)),
        ));
    }
    let ghost pushed = files_view(ctx.environment.files@);
    let ghost entries = strs_view(ctx.environment.entry_points@);
    let mut e: usize = 0;
    assert(spec_prepend_all(pushed, entries.take(0), polyfill_file_path@) =~= pushed);
    while e < ctx.environment.entry_points.len()
        invariant
            e <= entries.len(),
            entries == strs_view(ctx.environment.entry_points@),
            ctx.environment.entry_points@.len() == entries.len(),
            files_view(ctx.environment.files@) == spec_prepend_all(
                pushed,
                entries.take(e as int),
                polyfill_file_path@,
            ),
            ctx.environment.entry_points == old(ctx).environment.entry_points,
            ctx.environment.dependencies == old(ctx).environment.dependencies,
            ctx.polyfills == old(ctx).polyfills,
            ctx.shims == old(ctx).shims,
            ctx.used_shim == old(ctx).used_shim,
        decreases entries.len() - e,
    {
        let entry = ctx.environment.entry_points[e].clone();
        assert(entry@ == entries[e as int]);
        let ghost cur = files_view(ctx.environment.files@);
        // find the first file at this entry point's path
        let mut j: usize = 0;
        let n = ctx.environment.files.len();
        while j < n && !str_value_eq(&ctx.environment.files[j].file_path, &entry)
            invariant
                j <= n,
                n == ctx.environment.files@.len(),
                cur == files_view(ctx.environment.files@),
                forall|k: int| 0 <= k < j ==> (#[trigger] cur[k]).0 != entry@,
            decreases n - j,
        {
            assert(cur[j as int] == file_view(&ctx.environment.files@[j as int]));
            j = j + 1;
        }
        proof {
            if (j as int) < cur.len() {
                assert(cur[j as int] == file_view(&ctx.environment.files@[j as int]));
            }
            lemma_prepend_one_at(cur, entry@, polyfill_file_path@, j as int);
            assert(entries.take(e + 1).drop_last() =~= entries.take(e as int));
            assert(entries.take(e + 1).last() == entries[e as int]);
        }
        if j < n {
            let rel = get_relative_specifier(entry.as_str(), polyfill_file_path);
            let f = ctx.environment.files.remove(j);
            let new_text = with_polyfill_import(rel.as_str(), f.file_text.as_str());
            ctx.environment.files.insert(j, OutputFile {
                file_path: f.file_path,
                file_text: new_text,
            });
            proof {
                assert(files_view(ctx.environment.files@) =~= cur.update(
                    j as int,
                    (cur[j as int].0, spec_with_polyfill_import(
                        spec_relative_specifier(entry@, polyfill_file_path@),
                        cur[j as int].1,
                    )),
                ));
            }
        }
        e = e + 1;
    }
    proof {
        assert(entries.take(entries.len() as int) =~= entries);
    }
}

/// The packages of a shim list.
pub open spec fn shim_packages(shims: Seq<Shim>) -> Seq<MappedSpecifier> {
    shims.map_values(|s: Shim| s.package)
}

/// If any module of the environment referenced a shim global, synthesize the
/// shim re-export file at the reserved path and list each versioned shim
/// package as a dependency unless its name is already listed; otherwise
/// leave the environment untouched.
#[verifier::loop_isolation(false)]
pub fn check_add_shim_file_to_environment(ctx: &mut EnvironmentContext, shim_file_path: &str)
    requires
        dep_names_strictly_sorted(old(ctx).environment.dependencies@),
    ensures
        final(ctx).environment.entry_points == old(ctx).environment.entry_points,
        final(ctx).polyfills == old(ctx).polyfills,
        final(ctx).shims == old(ctx).shims,
        final(ctx).used_shim == old(ctx).used_shim,
        !old(ctx).used_shim ==> *final(ctx) == *old(ctx),
        old(ctx).used_shim ==> files_view(final(ctx).environment.files@) == files_view(
            old(ctx).environment.files@,
        ).push((shim_file_path@, spec_shim_file_text(old(ctx).shims@))),
        !old(ctx).used_shim ==> final(ctx).environment.files == old(ctx).environment.files,
        // the dependency list stays strictly sorted
        dep_names_strictly_sorted(final(ctx).environment.dependencies@),
        // nothing is dropped
        forall|p: (Seq<char>, Seq<char>)|
            deps_view(old(ctx).environment.dependencies@).contains(p) ==> deps_view(
                final(ctx).environment.dependencies@,
            ).contains(p),
        // everything added is owed to a versioned shim package of a fresh name
        forall|p: (Seq<char>, Seq<char>)|
            deps_view(final(ctx).environment.dependencies@).contains(p) ==> deps_view(
                old(ctx).environment.dependencies@,
            ).contains(p) || (old(ctx).used_shim && !has_dep_name(
                old(ctx).environment.dependencies@,
                p.0,
            ) && first_versioned(shim_packages(old(ctx).shims@), p)),
        // and every versioned shim package of a fresh name is added
        old(ctx).used_shim ==> forall|p: (Seq<char>, Seq<char>)|
            !has_dep_name(old(ctx).environment.dependencies@, p.0) && first_versioned(
                shim_packages(old(ctx).shims@),
                p,
            ) ==> deps_view(final(ctx).environment.dependencies@).contains(p),
{
    if !ctx.used_shim {
        return ;
    }
    let text = build_shim_file(&ctx.shims);
    let ghost base_files = files_view(ctx.environment.files@);
    ctx.environment.files.push(
        OutputFile { file_path: shim_file_path.to_owned(), file_text: text },
    );
    proof {
        assert(files_view(ctx.environment.files@) =~= base_files.push(
            (shim_file_path@, spec_shim_file_text(ctx.shims@)),
        ));
    }
    let ghost files_after_push = ctx.environment.files@;
    let ghost base_deps = ctx.environment.dependencies@;
    let ghost packages = shim_packages(ctx.shims@);
    let mut i: usize = 0;
    proof {
        crate::deps::lemma_versioned_name_take(packages, 0);
    }
    assert(packages.take(0) =~= Seq::<MappedSpecifier>::empty());
    while i < ctx.shims.len()
        invariant
            i <= ctx.shims@.len(),
            ctx.shims == old(ctx).shims,
            ctx.shims@ == old(ctx).shims@,
            packages == shim_packages(ctx.shims@),
            packages.len() == ctx.shims@.len(),
            ctx.environment.entry_points == old(ctx).environment.entry_points,
            ctx.environment.files@ == files_after_push,
            ctx.polyfills == old(ctx).polyfills,
            ctx.used_shim == old(ctx).used_shim,
            dep_names_strictly_sorted(ctx.environment.dependencies@),
            forall|p: (Seq<char>, Seq<char>)|
                deps_view(base_deps).contains(p) ==> deps_view(
                    ctx.environment.dependencies@,
                ).contains(p),
            forall|p: (Seq<char>, Seq<char>)|
                deps_view(ctx.environment.dependencies@).contains(p) ==> deps_view(
                    base_deps,
                ).contains(p) || (!has_dep_name(base_deps, p.0) && first_versioned(
                    packages.take(i as int),
                    p,
                )),
            forall|p: (Seq<char>, Seq<char>)|
                !has_dep_name(base_deps, p.0) && first_versioned(packages.take(i as int), p)
                    ==> deps_view(ctx.environment.dependencies@).contains(p),
            forall|n: Seq<char>|
                #[trigger] has_dep_name(ctx.environment.dependencies@, n) <==> has_dep_name(
                    base_deps,
                    n,
                ) || has_versioned_name(packages.take(i as int), n),
        decreases ctx.shims@.len() - i,
    {
        proof {
            assert(packages[i as int] == ctx.shims@[i as int].package);
            crate::deps::lemma_versioned_name_take(packages, i as int);
            crate::deps::lemma_has_versioned_step(packages, i as int);
        }
        let name_listed = crate::deps::contains_dep_name(
            &ctx.environment.dependencies,
            &ctx.shims[i].package.name,
        );
        if !name_listed {
            match &ctx.shims[i].package.version {
                Some(version) => {
                    let d = Dependency {
                        name: ctx.shims[i].package.name.clone(),
                        version: version.clone(),
                    };
                    let ghost pre = ctx.environment.dependencies@;
                    insert_dependency(&mut ctx.environment.dependencies, d);
                    proof {
                        crate::deps::lemma_take_versioned_at(packages, i as int, dep_view(&d));
                        lemma_shim_dep_step(
                            packages,
                            i as int,
                            base_deps,
                            pre,
                            ctx.environment.dependencies@,
                            dep_view(&d),
                        );
                    }
                },
                None => {
                    proof {
                        lemma_shim_dep_step_noadd(
                            packages,
                            i as int,
                            base_deps,
                            ctx.environment.dependencies@,
                        );
                    }
                },
            }
        } else {
            proof {
                lemma_shim_dep_step_noadd(
                    packages,
                    i as int,
                    base_deps,
                    ctx.environment.dependencies@,
                );
            }
        }
        i = i + 1;
    }
    proof {
        assert(packages.take(packages.len() as int) =~= packages);
    }
}

/// One versioned shim package of a fresh name was inserted.
proof fn lemma_shim_dep_step(
    packages: Seq<MappedSpecifier>,
    i: int,
    base: Seq<Dependency>,
    pre: Seq<Dependency>,
    post: Seq<Dependency>,
    dv: (Seq<char>, Seq<char>),
)
    requires
        0 <= i < packages.len(),
        packages[i].version matches Some(v) && v@ == dv.1,
        dv.0 == packages[i].name@,
        !has_dep_name(pre, dv.0),
        forall|n: Seq<char>|
            #[trigger] has_dep_name(pre, n) <==> has_dep_name(base, n) || has_versioned_name(
                packages.take(i),
                n,
            ),
        forall|n: Seq<char>|
            #[trigger] has_versioned_name(packages.take(i + 1), n) <==> (has_versioned_name(
                packages.take(i),
                n,
            ) || (packages[i].version is Some && n == packages[i].name@)),
        forall|k: int|
            #[trigger] versioned_at(packages.take(i), k, dv) <==> (k < i && versioned_at(
                packages,
                k,
                dv,
            )),
        forall|p: (Seq<char>, Seq<char>)|
            deps_view(pre).contains(p) ==> deps_view(base).contains(p) || (!has_dep_name(base, p.0)
                && first_versioned(packages.take(i), p)),
        forall|p: (Seq<char>, Seq<char>)|
            !has_dep_name(base, p.0) && first_versioned(packages.take(i), p) ==> deps_view(
                pre,
            ).contains(p),
        forall|p: (Seq<char>, Seq<char>)|
            deps_view(post).contains(p) <==> deps_view(pre).contains(p) || p == dv,
        forall|n: Seq<char>|
            #[trigger] has_dep_name(post, n) <==> has_dep_name(pre, n) || n == dv.0,
    ensures
        forall|p: (Seq<char>, Seq<char>)|
            deps_view(post).contains(p) ==> deps_view(base).contains(p) || (!has_dep_name(base, p.0)
                && first_versioned(packages.take(i + 1), p)),
        forall|p: (Seq<char>, Seq<char>)|
            !has_dep_name(base, p.0) && first_versioned(packages.take(i + 1), p) ==> deps_view(
                post,
            ).contains(p),
        forall|n: Seq<char>|
            #[trigger] has_dep_name(post, n) <==> has_dep_name(base, n) || has_versioned_name(
                packages.take(i + 1),
                n,
            ),
{
    assert(forall|a: int| 0 <= a < i + 1 ==> #[trigger] packages.take(i + 1)[a] == packages[a]);
    assert(forall|a: int| 0 <= a < i ==> #[trigger] packages.take(i)[a] == packages[a]);
    assert forall|p: (Seq<char>, Seq<char>)| deps_view(post).contains(p) implies deps_view(
        base,
    ).contains(p) || (!has_dep_name(base, p.0) && first_versioned(packages.take(i + 1), p)) by {
        if p == dv {
            assert(!has_dep_name(base, dv.0));
            assert(!has_versioned_name(packages.take(i), dv.0));
            assert forall|k: int| 0 <= k < i implies !((#[trigger] packages[k]).name@ == dv.0
                && packages[k].version is Some) by {
                if packages[k].name@ == dv.0 && packages[k].version is Some {
                    assert(packages.take(i)[k] == packages[k]);
                    assert(has_versioned_name(packages.take(i), dv.0));
                }
            }
            assert(versioned_at(packages, i, dv));
            assert(versioned_at(packages.take(i + 1), i, dv)) by {
                assert forall|k2: int| 0 <= k2 < i implies !((#[trigger] packages.take(
                    i + 1,
                )[k2]).name@ == dv.0 && packages.take(i + 1)[k2].version is Some) by {
                    assert(packages.take(i + 1)[k2] == packages[k2]);
                }
            }
        } else if deps_view(pre).contains(p) && !deps_view(base).contains(p) {
            let k = choose|k: int| #[trigger] versioned_at(packages.take(i), k, p);
            assert(versioned_at(packages, k, p)) by {
                assert(packages.take(i)[k] == packages[k]);
                assert forall|k2: int| 0 <= k2 < k implies !((#[trigger] packages[k2]).name@
                    == p.0 && packages[k2].version is Some) by {
                    assert(packages.take(i)[k2] == packages[k2]);
                }
            }
            assert(versioned_at(packages.take(i + 1), k, p)) by {
                assert(packages.take(i + 1)[k] == packages[k]);
                assert forall|k2: int| 0 <= k2 < k implies !((#[trigger] packages.take(
                    i + 1,
                )[k2]).name@ == p.0 && packages.take(i + 1)[k2].version is Some) by {
                    assert(packages.take(i + 1)[k2] == packages[k2]);
                    assert(packages.take(i)[k2] == packages[k2]);
                }
            }
        }
    }
    assert forall|p: (Seq<char>, Seq<char>)|
        !has_dep_name(base, p.0) && first_versioned(packages.take(i + 1), p) implies deps_view(
        post,
    ).contains(p) by {
        let k = choose|k: int| #[trigger] versioned_at(packages.take(i + 1), k, p);
        if k < i {
            assert(versioned_at(packages, k, p)) by {
                assert(packages.take(i + 1)[k] == packages[k]);
                assert forall|k2: int| 0 <= k2 < k implies !((#[trigger] packages[k2]).name@
                    == p.0 && packages[k2].version is Some) by {
                    assert(packages.take(i + 1)[k2] == packages[k2]);
                }
            }
            assert(versioned_at(packages.take(i), k, p)) by {
                assert(packages.take(i)[k] == packages[k]);
                assert forall|k2: int| 0 <= k2 < k implies !((#[trigger] packages.take(
                    i,
                )[k2]).name@ == p.0 && packages.take(i)[k2].version is Some) by {
                    assert(packages.take(i)[k2] == packages[k2]);
                    assert(packages.take(i + 1)[k2] == packages[k2]);
                }
            }
            assert(deps_view(pre).contains(p));
        } else {
            assert(packages.take(i + 1)[k] == packages[k]);
            assert(k == i);
            assert(p.0 == dv.0 && p.1 == dv.1);
            assert(p == dv);
        }
    }
}

/// Nothing was inserted: either the name is already listed (so any shim
/// package of that name is not fresh, or an earlier one already won), or the
/// package has no version.
proof fn lemma_shim_dep_step_noadd(
    packages: Seq<MappedSpecifier>,
    i: int,
    base: Seq<Dependency>,
    cur: Seq<Dependency>,
)
    requires
        0 <= i < packages.len(),
        // either the name is listed, or the package is unversioned
        has_dep_name(cur, packages[i].name@) || packages[i].version is None,
        forall|n: Seq<char>|
            #[trigger] has_dep_name(cur, n) <==> has_dep_name(base, n) || has_versioned_name(
                packages.take(i),
                n,
            ),
        forall|n: Seq<char>|
            #[trigger] has_versioned_name(packages.take(i + 1), n) <==> (has_versioned_name(
                packages.take(i),
                n,
            ) || (packages[i].version is Some && n == packages[i].name@)),
        forall|p: (Seq<char>, Seq<char>)|
            deps_view(cur).contains(p) ==> deps_view(base).contains(p) || (!has_dep_name(base, p.0)
                && first_versioned(packages.take(i), p)),
        forall|p: (Seq<char>, Seq<char>)|
            !has_dep_name(base, p.0) && first_versioned(packages.take(i), p) ==> deps_view(
                cur,
            ).contains(p),
    ensures
        forall|p: (Seq<char>, Seq<char>)|
            deps_view(cur).contains(p) ==> deps_view(base).contains(p) || (!has_dep_name(base, p.0)
                && first_versioned(packages.take(i + 1), p)),
        forall|p: (Seq<char>, Seq<char>)|
            !has_dep_name(base, p.0) && first_versioned(packages.take(i + 1), p) ==> deps_view(
                cur,
            ).contains(p),
        forall|n: Seq<char>|
            #[trigger] has_dep_name(cur, n) <==> has_dep_name(base, n) || has_versioned_name(
                packages.take(i + 1),
                n,
            ),
{
    assert(forall|a: int| 0 <= a < i + 1 ==> #[trigger] packages.take(i + 1)[a] == packages[a]);
    assert(forall|a: int| 0 <= a < i ==> #[trigger] packages.take(i)[a] == packages[a]);
    assert forall|p: (Seq<char>, Seq<char>)| deps_view(cur).contains(p) implies deps_view(
        base,
    ).contains(p) || (!has_dep_name(base, p.0) && first_versioned(packages.take(i + 1), p)) by {
        if !deps_view(base).contains(p) {
            let k = choose|k: int| #[trigger] versioned_at(packages.take(i), k, p);
            assert(versioned_at(packages.take(i + 1), k, p)) by {
                assert forall|k2: int| 0 <= k2 < k implies !((#[trigger] packages.take(
                    i + 1,
                )[k2]).name@ == p.0 && packages.take(i + 1)[k2].version is Some) by {
                    assert(k2 < packages.take(i).len());
                }
            }
        }
    }
    assert forall|p: (Seq<char>, Seq<char>)|
        !has_dep_name(base, p.0) && first_versioned(packages.take(i + 1), p) implies deps_view(
        cur,
    ).contains(p) by {
        let k = choose|k: int| #[trigger] versioned_at(packages.take(i + 1), k, p);
        if k < i {
            assert(versioned_at(packages.take(i), k, p)) by {
                assert forall|k2: int| 0 <= k2 < k implies !((#[trigger] packages.take(
                    i,
                )[k2]).name@ == p.0 && packages.take(i)[k2].version is Some) by {
                    assert(k2 < packages.take(i + 1).len());
                }
            }
        } else {
            // the new package is versioned at position i with a name not in
            // base: then it was not listed, so the name-listed case fails and
            // an unversioned package contradicts versioned_at
            assert(k == i);
            assert(packages[i].version is Some);
            assert(has_dep_name(cur, packages[i].name@));
            assert(p.0 == packages[i].name@);
            assert(has_dep_name(base, p.0) || has_versioned_name(packages.take(i), p.0));
            let k0 = choose|k0: int|
                0 <= k0 < packages.take(i).len() && (#[trigger] packages.take(i)[k0]).name@ == p.0
                    && packages.take(i)[k0].version is Some;
            assert(!((#[trigger] packages.take(i + 1)[k0]).name@ == p.0 && packages.take(
                i + 1,
            )[k0].version is Some));
            assert(false);
        }
    }
}

} // verus!
