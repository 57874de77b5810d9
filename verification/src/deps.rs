//! Dependency lists: building the seed list of an environment from its
//! explicitly mapped specifiers, keeping the list strictly sorted by package
//! name, and the final cross-environment filter.

use vstd::prelude::*;

use crate::strings::{lemma_str_lt_connected, lemma_str_lt_transitive, spec_str_lt, str_lt,
    str_value_eq};
use crate::{dep_view, deps_view, Dependency, MappedSpecifier};

verus! {

/// Dependency names strictly increase: sorted by name, no duplicate name.
pub open spec fn dep_names_strictly_sorted(deps: Seq<Dependency>) -> bool {
    forall|i: int, j: int|
        0 <= i < j < deps.len() ==> spec_str_lt(
            (#[trigger] deps[i]).name@,
            (#[trigger] deps[j]).name@,
        )
}

/// Some dependency is listed under this name.
pub open spec fn has_dep_name(deps: Seq<Dependency>, n: Seq<char>) -> bool {
    exists|k: int| 0 <= k < deps.len() && (#[trigger] deps[k]).name@ == n
}

/// Some mapping with a version carries this name.
pub open spec fn has_versioned_name(ms: Seq<MappedSpecifier>, n: Seq<char>) -> bool {
    exists|k: int| 0 <= k < ms.len() && (#[trigger] ms[k]).name@ == n && ms[k].version is Some
}

/// Entry `i` is the first mapping with a version for its name.
pub open spec fn versioned_at(ms: Seq<MappedSpecifier>, i: int, p: (Seq<char>, Seq<char>)) -> bool {
    &&& 0 <= i < ms.len()
    &&& ms[i].name@ == p.0
    &&& ms[i].version matches Some(v) && v@ == p.1
    &&& forall|k: int|
        0 <= k < i ==> !((#[trigger] ms[k]).name@ == p.0 && ms[k].version is Some)
}

/// The (name, version) pairs owed to a mapping list: the first versioned
/// mapping of each name; mappings without a version owe nothing.
pub open spec fn first_versioned(ms: Seq<MappedSpecifier>, p: (Seq<char>, Seq<char>)) -> bool {
    exists|i: int| #[trigger] versioned_at(ms, i, p)
}

proof fn lemma_seq_insert_contains<A>(s: Seq<A>, j: int, x: A)
    requires
        0 <= j <= s.len(),
    ensures
        forall|p: A| s.insert(j, x).contains(p) <==> s.contains(p) || p == x,
{
    s.insert_ensures(j, x);
    assert forall|p: A| s.insert(j, x).contains(p) <==> s.contains(p) || p == x by {
        if s.insert(j, x).contains(p) {
            let k = choose|k: int| 0 <= k < s.insert(j, x).len() && s.insert(j, x)[k] == p;
            if k < j {
                assert(s[k] == p);
            } else if k == j {
            } else {
                assert(s[k - 1] == p);
            }
        }
        if s.contains(p) {
            let k = choose|k: int| 0 <= k < s.len() && s[k] == p;
            if k < j {
                assert(s.insert(j, x)[k] == p);
            } else {
                assert(s.insert(j, x)[k + 1] == p);
            }
        }
        if p == x {
            assert(s.insert(j, x)[j] == p);
        }
    }
}

/// Is some dependency already listed under this name?
pub fn contains_dep_name(deps: &Vec<Dependency>, name: &String) -> (r: bool)
    ensures
        r == exists|k: int| 0 <= k < deps@.len() && (#[trigger] deps@[k]).name@ == name@,
{
    let mut i: usize = 0;
    while i < deps.len()
        invariant
            i <= deps@.len(),
            forall|k: int| 0 <= k < i ==> (#[trigger] deps@[k]).name@ != name@,
        decreases deps@.len() - i,
    {
        if str_value_eq(&deps[i].name, name) {
            return true;
        }
        i = i + 1;
    }
    false
}

/// Is this exact (name, version) pair already listed?
pub fn contains_dep_exact(deps: &Vec<Dependency>, d: &Dependency) -> (r: bool)
    ensures
        r == deps_view(deps@).contains(dep_view(d)),
{
    let mut i: usize = 0;
    while i < deps.len()
        invariant
            i <= deps@.len(),
            forall|k: int| 0 <= k < i ==> deps_view(deps@)[k] != dep_view(d),
        decreases deps@.len() - i,
    {
        assert(deps_view(deps@)[i as int] == dep_view(&deps@[i as int]));
        if str_value_eq(&deps[i].name, &d.name) && str_value_eq(&deps[i].version, &d.version) {
            assert(deps_view(deps@).contains(dep_view(d)));
            return true;
        }
        i = i + 1;
    }
    assert(forall|k: int| 0 <= k < deps_view(deps@).len() ==> #[trigger] deps_view(deps@)[k] != dep_view(d));
    false
}

/// Insert a dependency whose name is not yet listed, keeping the list
/// strictly sorted by name.
#[verifier::loop_isolation(false)]
pub fn insert_dependency(deps: &mut Vec<Dependency>, d: Dependency)
    requires
        dep_names_strictly_sorted(old(deps)@),
        forall|k: int| 0 <= k < old(deps)@.len() ==> (#[trigger] old(deps)@[k]).name@ != d.name@,
    ensures
        dep_names_strictly_sorted(final(deps)@),
        final(deps)@.len() == old(deps)@.len() + 1,
        forall|p: (Seq<char>, Seq<char>)|
            deps_view(final(deps)@).contains(p) <==> deps_view(old(deps)@).contains(p) || p
                == dep_view(&d),
        forall|n: Seq<char>|
            #[trigger] has_dep_name(final(deps)@, n) <==> has_dep_name(old(deps)@, n) || n
                == d.name@,
{
    let mut j: usize = 0;
    while j < deps.len() && str_lt(deps[j].name.as_str(), d.name.as_str())
        invariant
            j <= deps@.len(),
            deps@ == old(deps)@,
            forall|k: int| 0 <= k < j ==> spec_str_lt((#[trigger] deps@[k]).name@, d.name@),
        decreases deps@.len() - j,
    {
        j = j + 1;
    }
    proof {
        if (j as int) < deps@.len() {
            lemma_str_lt_connected(deps@[j as int].name@, d.name@);
            assert(spec_str_lt(d.name@, deps@[j as int].name@));
        }
    }
    let ghost pre = deps@;
    deps.insert(j, d);
    proof {
        pre.insert_ensures(j as int, d);
        assert forall|a: int, b: int| 0 <= a < b < deps@.len() implies spec_str_lt(
            (#[trigger] deps@[a]).name@,
            (#[trigger] deps@[b]).name@,
        ) by {
            if a < j && b == j {
            } else if a == j && b > j {
                assert(deps@[b] == pre[b - 1]);
                if b - 1 > j as int {
                    lemma_str_lt_transitive(d.name@, pre[j as int].name@, pre[b - 1].name@);
                } else {
                }
            } else if a < j && b > j {
                assert(deps@[a] == pre[a] && deps@[b] == pre[b - 1]);
            } else if a > j && b > j {
                assert(deps@[a] == pre[a - 1] && deps@[b] == pre[b - 1]);
            }
        }
        lemma_seq_insert_contains(pre, j as int, d);
        assert(deps_view(deps@) =~= deps_view(pre).insert(j as int, dep_view(&d)));
        lemma_seq_insert_contains(deps_view(pre), j as int, dep_view(&d));
        assert forall|n: Seq<char>|
            #[trigger] has_dep_name(deps@, n) <==> has_dep_name(pre, n) || n == d.name@ by {
            if has_dep_name(deps@, n) {
                let k = choose|k: int| 0 <= k < deps@.len() && (#[trigger] deps@[k]).name@ == n;
                if k < j {
                    assert(pre[k].name@ == n);
                } else if k > j {
                    assert(pre[k - 1].name@ == n);
                }
            }
            if has_dep_name(pre, n) {
                let k = choose|k: int| 0 <= k < pre.len() && (#[trigger] pre[k]).name@ == n;
                if k < j {
                    assert(deps@[k].name@ == n);
                } else {
                    assert(deps@[k + 1].name@ == n);
                }
            }
            if n == d.name@ {
                assert(deps@[j as int].name@ == n);
            }
        }
    }
}

/// Build the dependency list owed to a list of explicitly mapped packages:
/// one entry per versioned package name (the first version mentioned wins),
/// strictly sorted by name. Mappings without a version produce no entry.
#[verifier::loop_isolation(false)]
pub fn get_dependencies(mappings: &Vec<MappedSpecifier>) -> (r: Vec<Dependency>)
    ensures
        dep_names_strictly_sorted(r@),
        forall|p: (Seq<char>, Seq<char>)| deps_view(r@).contains(p) <==> first_versioned(
            mappings@,
            p,
        ),
        forall|n: Seq<char>|
            #[trigger] has_dep_name(r@, n) <==> has_versioned_name(mappings@, n),
{
    let mut result: Vec<Dependency> = Vec::new();
    let mut i: usize = 0;
    while i < mappings.len()
        invariant
            i <= mappings@.len(),
            dep_names_strictly_sorted(result@),
            forall|p: (Seq<char>, Seq<char>)| deps_view(result@).contains(p) <==> first_versioned(
                mappings@.take(i as int),
                p,
            ),
            forall|n: Seq<char>|
                #[trigger] has_dep_name(result@, n) <==> has_versioned_name(
                    mappings@.take(i as int),
                    n,
                ),
        decreases mappings@.len() - i,
    {
        let m = &mappings[i];
        proof {
            lemma_versioned_name_take(mappings@, i as int);
            lemma_has_versioned_step(mappings@, i as int);
        }
        match &m.version {
            Some(version) => {
                if !contains_dep_name(&result, &m.name) {
                    let d = Dependency { name: m.name.clone(), version: version.clone() };
                    proof {
                        assert(!has_dep_name(result@, d.name@));
                        assert(!has_versioned_name(mappings@.take(i as int), d.name@));
                        assert(!(exists|k: int|
                            0 <= k < i && (#[trigger] mappings@[k]).name@ == d.name@
                                && mappings@[k].version is Some));
                    }
                    let ghost pre = result@;
                    insert_dependency(&mut result, d);
                    proof {
                        lemma_get_dependencies_step(mappings@, i as int, pre, result@, dep_view(&d));
                    }
                } else {
                    proof {
                        assert(has_dep_name(result@, m.name@));
                        assert(has_versioned_name(mappings@.take(i as int), m.name@));
                        assert(exists|k: int|
                            0 <= k < i && (#[trigger] mappings@[k]).name@ == m.name@
                                && mappings@[k].version is Some);
                        lemma_get_dependencies_step_dup(mappings@, i as int, result@);
                    }
                }
            },
            None => {
                proof {
                    lemma_get_dependencies_step_unversioned(mappings@, i as int, result@);
                }
            },
        }
        i = i + 1;
    }
    proof {
        assert(mappings@.take(mappings@.len() as int) =~= mappings@);
    }
    result
}

pub proof fn lemma_take_versioned_at(ms: Seq<MappedSpecifier>, i: int, p: (Seq<char>, Seq<char>))
    requires
        0 <= i <= ms.len(),
    ensures
        forall|k: int|
            #[trigger] versioned_at(ms.take(i), k, p) <==> (k < i && versioned_at(ms, k, p)),
{
    assert(forall|a: int| 0 <= a < i ==> #[trigger] ms.take(i)[a] == ms[a]);
    assert forall|k: int|
        #[trigger] versioned_at(ms.take(i), k, p) <==> (k < i && versioned_at(ms, k, p)) by {
        if versioned_at(ms.take(i), k, p) {
            assert(0 <= k < i);
            assert(ms.take(i)[k] == ms[k]);
            assert forall|k2: int| 0 <= k2 < k implies !((#[trigger] ms[k2]).name@ == p.0
                && ms[k2].version is Some) by {
                assert(ms.take(i)[k2] == ms[k2]);
            }
            assert(versioned_at(ms, k, p));
        }
        if 0 <= k < i && versioned_at(ms, k, p) {
            assert(ms.take(i)[k] == ms[k]);
            assert forall|k2: int| 0 <= k2 < k implies !((#[trigger] ms.take(i)[k2]).name@ == p.0
                && ms.take(i)[k2].version is Some) by {
                assert(ms.take(i)[k2] == ms[k2]);
            }
            assert(versioned_at(ms.take(i), k, p));
        }
    }
}

/// `has_versioned_name` on a prefix, element-wise.
pub proof fn lemma_versioned_name_take(ms: Seq<MappedSpecifier>, i: int)
    requires
        0 <= i <= ms.len(),
    ensures
        forall|n: Seq<char>|
            #[trigger] has_versioned_name(ms.take(i), n) <==> exists|k: int|
                0 <= k < i && (#[trigger] ms[k]).name@ == n && ms[k].version is Some,
{
    assert(forall|a: int| 0 <= a < i ==> #[trigger] ms.take(i)[a] == ms[a]);
    assert forall|n: Seq<char>|
        #[trigger] has_versioned_name(ms.take(i), n) <==> exists|k: int|
            0 <= k < i && (#[trigger] ms[k]).name@ == n && ms[k].version is Some by {
        if has_versioned_name(ms.take(i), n) {
            let k = choose|k: int|
                0 <= k < ms.take(i).len() && (#[trigger] ms.take(i)[k]).name@ == n && ms.take(
                    i,
                )[k].version is Some;
            assert(ms[k].name@ == n && ms[k].version is Some);
        }
        if exists|k: int| 0 <= k < i && (#[trigger] ms[k]).name@ == n && ms[k].version is Some {
            let k = choose|k: int|
                0 <= k < i && (#[trigger] ms[k]).name@ == n && ms[k].version is Some;
            assert((#[trigger] ms.take(i)[k]).name@ == n && ms.take(i)[k].version is Some);
        }
    }
}

/// Extending the prefix by one mapping extends the versioned names by its
/// name, when it carries a version.
pub proof fn lemma_has_versioned_step(ms: Seq<MappedSpecifier>, i: int)
    requires
        0 <= i < ms.len(),
    ensures
        forall|n: Seq<char>|
            #[trigger] has_versioned_name(ms.take(i + 1), n) <==> (has_versioned_name(
                ms.take(i),
                n,
            ) || (ms[i].version is Some && n == ms[i].name@)),
{
    lemma_versioned_name_take(ms, i);
    lemma_versioned_name_take(ms, i + 1);
    assert forall|n: Seq<char>|
        #[trigger] has_versioned_name(ms.take(i + 1), n) <==> (has_versioned_name(ms.take(i), n)
            || (ms[i].version is Some && n == ms[i].name@)) by {
        if has_versioned_name(ms.take(i + 1), n) {
            let k = choose|k: int|
                0 <= k < i + 1 && (#[trigger] ms[k]).name@ == n && ms[k].version is Some;
            if k < i {
                assert(exists|k2: int|
                    0 <= k2 < i && (#[trigger] ms[k2]).name@ == n && ms[k2].version is Some);
            }
        }
        if has_versioned_name(ms.take(i), n) {
            let k = choose|k: int|
                0 <= k < i && (#[trigger] ms[k]).name@ == n && ms[k].version is Some;
            assert(0 <= k < i + 1 && (#[trigger] ms[k]).name@ == n && ms[k].version is Some);
        }
        if ms[i].version is Some && n == ms[i].name@ {
            assert(0 <= i < i + 1 && (#[trigger] ms[i]).name@ == n && ms[i].version is Some);
        }
    }
}

/// After inserting the first versioned mapping of a fresh name, the owed set
/// grows by exactly that pair.
proof fn lemma_get_dependencies_step(
    ms: Seq<MappedSpecifier>,
    i: int,
    pre: Seq<Dependency>,
    post: Seq<Dependency>,
    dv: (Seq<char>, Seq<char>),
)
    requires
        0 <= i < ms.len(),
        ms[i].version matches Some(v) && v@ == dv.1,
        dv.0 == ms[i].name@,
        // the name was not yet owed by the prefix
        !(exists|k: int|
            0 <= k < i && (#[trigger] ms[k]).name@ == dv.0 && ms[k].version is Some),
        forall|p: (Seq<char>, Seq<char>)| deps_view(pre).contains(p) <==> first_versioned(
            ms.take(i),
            p,
        ),
        forall|p: (Seq<char>, Seq<char>)|
            deps_view(post).contains(p) <==> deps_view(pre).contains(p) || p == dv,
    ensures
        forall|p: (Seq<char>, Seq<char>)| deps_view(post).contains(p) <==> first_versioned(
            ms.take(i + 1),
            p,
        ),
{
    assert forall|p: (Seq<char>, Seq<char>)|
        deps_view(post).contains(p) <==> first_versioned(ms.take(i + 1), p) by {
        lemma_take_versioned_at(ms, i, p);
        lemma_take_versioned_at(ms, i + 1, p);
        if deps_view(post).contains(p) {
            if p == dv {
                assert(versioned_at(ms, i, p));
                assert(versioned_at(ms.take(i + 1), i, p));
            } else {
                let k = choose|k: int| #[trigger] versioned_at(ms.take(i), k, p);
                assert(versioned_at(ms.take(i + 1), k, p));
            }
        }
        if first_versioned(ms.take(i + 1), p) {
            let k = choose|k: int| #[trigger] versioned_at(ms.take(i + 1), k, p);
            if k < i {
                assert(versioned_at(ms.take(i), k, p));
            } else {
                assert(p == dv);
            }
        }
    }
}

/// A mapping whose name is already owed adds nothing.
proof fn lemma_get_dependencies_step_dup(ms: Seq<MappedSpecifier>, i: int, r: Seq<Dependency>)
    requires
        0 <= i < ms.len(),
        forall|p: (Seq<char>, Seq<char>)| deps_view(r).contains(p) <==> first_versioned(
            ms.take(i),
            p,
        ),
        exists|k: int|
            0 <= k < i && (#[trigger] ms[k]).name@ == ms[i].name@ && ms[k].version is Some,
    ensures
        forall|p: (Seq<char>, Seq<char>)| deps_view(r).contains(p) <==> first_versioned(
            ms.take(i + 1),
            p,
        ),
{
    assert forall|p: (Seq<char>, Seq<char>)|
        deps_view(r).contains(p) <==> first_versioned(ms.take(i + 1), p) by {
        lemma_take_versioned_at(ms, i, p);
        lemma_take_versioned_at(ms, i + 1, p);
        if first_versioned(ms.take(i + 1), p) {
            let k = choose|k: int| #[trigger] versioned_at(ms.take(i + 1), k, p);
            if k == i {
                let k0 = choose|k0: int|
                    0 <= k0 < i && (#[trigger] ms[k0]).name@ == ms[i].name@ && ms[k0].version
                        is Some;
                assert(false);
            } else {
                assert(versioned_at(ms.take(i), k, p));
            }
        }
        if deps_view(r).contains(p) {
            let k = choose|k: int| #[trigger] versioned_at(ms.take(i), k, p);
            assert(versioned_at(ms.take(i + 1), k, p));
        }
    }
}

/// A mapping without a version owes nothing.
proof fn lemma_get_dependencies_step_unversioned(
    ms: Seq<MappedSpecifier>,
    i: int,
    r: Seq<Dependency>,
)
    requires
        0 <= i < ms.len(),
        ms[i].version is None,
        forall|p: (Seq<char>, Seq<char>)| deps_view(r).contains(p) <==> first_versioned(
            ms.take(i),
            p,
        ),
    ensures
        forall|p: (Seq<char>, Seq<char>)| deps_view(r).contains(p) <==> first_versioned(
            ms.take(i + 1),
            p,
        ),
{
    assert forall|p: (Seq<char>, Seq<char>)|
        deps_view(r).contains(p) <==> first_versioned(ms.take(i + 1), p) by {
        lemma_take_versioned_at(ms, i, p);
        lemma_take_versioned_at(ms, i + 1, p);
        if first_versioned(ms.take(i + 1), p) {
            let k = choose|k: int| #[trigger] versioned_at(ms.take(i + 1), k, p);
            assert(k != i);
            assert(versioned_at(ms.take(i), k, p));
        }
        if deps_view(r).contains(p) {
            let k = choose|k: int| #[trigger] versioned_at(ms.take(i), k, p);
            assert(versioned_at(ms.take(i + 1), k, p));
        }
    }
}

/// The pairs a cross-environment filter keeps, in order: every pair of the
/// test list that is not exactly present in the main list.
pub open spec fn spec_filtered_deps(
    test: Seq<Dependency>,
    main: Seq<Dependency>,
) -> Seq<(Seq<char>, Seq<char>)>
    decreases test.len(),
{
    if test.len() == 0 {
        Seq::empty()
    } else {
        spec_filtered_deps(test.drop_last(), main) + (if deps_view(main).contains(
            dep_view(&test.last()),
        ) {
            Seq::empty()
        } else {
            seq![dep_view(&test.last())]
        })
    }
}

/// Remove from the test environment's list every (name, version) pair exactly
/// present in the main environment's list. Name-and-version equality only: a
/// same-name-different-version pair stays, to surface later as an install
/// conflict rather than being resolved here.
#[verifier::loop_isolation(false)]
pub fn filter_test_dependencies(test_deps: Vec<Dependency>, main_deps: &Vec<Dependency>) -> (r:
    Vec<Dependency>)
    ensures
        deps_view(r@) == spec_filtered_deps(test_deps@, main_deps@),
        dep_names_strictly_sorted(test_deps@) ==> dep_names_strictly_sorted(r@),
{
    let mut result: Vec<Dependency> = Vec::new();
    let mut rest = test_deps;
    // consume from the back so each kept entry is moved, not cloned
    let ghost orig = rest@;
    let ghost full = spec_filtered_deps(orig, main_deps@);
    proof {
        assert(orig.take(orig.len() as int) =~= orig);
        assert(full.skip(full.len() as int) =~= Seq::<(Seq<char>, Seq<char>)>::empty());
        assert(deps_view(result@) =~= Seq::<(Seq<char>, Seq<char>)>::empty());
    }
    while rest.len() > 0
        invariant
            rest@.len() <= orig.len(),
            rest@ == orig.take(rest@.len() as int),
            deps_view(result@) == full.skip(
                spec_filtered_deps(rest@, main_deps@).len() as int,
            ),
            spec_filtered_deps(rest@, main_deps@).len() <= full.len(),
            dep_names_strictly_sorted(orig) ==> dep_names_strictly_sorted(result@),
            forall|k: int|
                0 <= k < result@.len() ==> exists|m: int|
                    rest@.len() <= m < orig.len() && #[trigger] result@[k] == orig[m],
        decreases rest@.len(),
    {
        let ghost n = rest@.len() as int;
        let d = rest.pop().unwrap();
        proof {
            assert(orig.take(n).drop_last() =~= orig.take(n - 1));
            assert(rest@ =~= orig.take(n - 1));
            assert(d == orig[n - 1]);
            lemma_filtered_prefix(orig, main_deps@, n);
            lemma_filtered_prefix(orig, main_deps@, n - 1);
        }
        let ghost f_cur = spec_filtered_deps(orig.take(n), main_deps@);
        let ghost f_next = spec_filtered_deps(orig.take(n - 1), main_deps@);
        if contains_dep_exact(main_deps, &d) {
            proof {
                assert(f_cur =~= f_next);
                assert forall|k: int| 0 <= k < result@.len() implies exists|m: int|
                    n - 1 <= m < orig.len() && #[trigger] result@[k] == orig[m] by {
                    let m = choose|m: int| n <= m < orig.len() && result@[k] == orig[m];
                    assert(n - 1 <= m < orig.len() && result@[k] == orig[m]);
                }
            }
        } else {
            let ghost pre = result@;
            result.insert(0, d);
            proof {
                assert(f_cur =~= f_next + seq![dep_view(&d)]);
                assert(f_cur.len() == f_next.len() + 1);
                // full.take(f_cur.len()) == f_cur, so the pair before the
                // kept suffix is exactly this dependency's pair
                assert(full[f_cur.len() - 1] == f_cur[f_cur.len() - 1]) by {
                    assert(full.take(f_cur.len() as int)[f_cur.len() - 1] == full[f_cur.len()
                        - 1]);
                }
                assert(full[f_next.len() as int] == dep_view(&d));
                assert(deps_view(result@) =~= seq![dep_view(&d)] + deps_view(pre));
                assert(deps_view(result@) =~= full.skip(f_next.len() as int));
                pre.insert_ensures(0, d);
                assert forall|k: int| 0 <= k < result@.len() implies exists|m: int|
                    n - 1 <= m < orig.len() && #[trigger] result@[k] == orig[m] by {
                    if k == 0 {
                        assert(result@[0] == orig[n - 1]);
                    } else {
                        let m = choose|m: int| n <= m < orig.len() && pre[k - 1] == orig[m];
                        assert(result@[k] == orig[m]);
                    }
                }
                if dep_names_strictly_sorted(orig) {
                    lemma_filter_sorted_step(orig, main_deps@, n, pre, result@, d);
                }
            }
        }
    }
    proof {
        assert(rest@.len() == 0);
        assert(spec_filtered_deps(rest@, main_deps@) =~= Seq::<(Seq<char>, Seq<char>)>::empty());
        assert(full.skip(0) =~= full);
    }
    result
}

/// A pair survives the cross-environment filter exactly when the test list
/// holds it and the main list does not.
pub proof fn lemma_filtered_contains(test: Seq<Dependency>, main: Seq<Dependency>)
    ensures
        forall|p: (Seq<char>, Seq<char>)|
            #[trigger] spec_filtered_deps(test, main).contains(p) <==> (deps_view(
                test,
            ).contains(p) && !deps_view(main).contains(p)),
    decreases test.len(),
{
    if test.len() == 0 {
        assert forall|p: (Seq<char>, Seq<char>)|
            #[trigger] spec_filtered_deps(test, main).contains(p) <==> (deps_view(
                test,
            ).contains(p) && !deps_view(main).contains(p)) by {
            assert(deps_view(test).len() == 0);
            assert(spec_filtered_deps(test, main).len() == 0);
        }
    } else {
        lemma_filtered_contains(test.drop_last(), main);
        let fc = spec_filtered_deps(test, main);
        let fp = spec_filtered_deps(test.drop_last(), main);
        let lastv = dep_view(&test.last());
        assert forall|p: (Seq<char>, Seq<char>)|
            #[trigger] spec_filtered_deps(test, main).contains(p) <==> (deps_view(
                test,
            ).contains(p) && !deps_view(main).contains(p)) by {
            if fc.contains(p) {
                let k = choose|k: int| 0 <= k < fc.len() && fc[k] == p;
                if k < fp.len() {
                    assert(fp[k] == p);
                    assert(fp.contains(p));
                    let m = choose|m: int|
                        0 <= m < deps_view(test.drop_last()).len() && deps_view(
                            test.drop_last(),
                        )[m] == p;
                    assert(deps_view(test)[m] == p);
                    assert(deps_view(test).contains(p));
                } else {
                    assert(p == lastv);
                    assert(deps_view(test)[test.len() - 1] == p);
                    assert(deps_view(test).contains(p));
                }
            }
            if deps_view(test).contains(p) && !deps_view(main).contains(p) {
                let m = choose|m: int| 0 <= m < deps_view(test).len() && deps_view(test)[m] == p;
                if m < test.len() - 1 {
                    assert(deps_view(test.drop_last())[m] == p);
                    assert(deps_view(test.drop_last()).contains(p));
                    assert(fp.contains(p));
                    let k = choose|k: int| 0 <= k < fp.len() && fp[k] == p;
                    assert(fc[k] == p);
                    assert(fc.contains(p));
                } else {
                    assert(p == lastv);
                    assert(fc[fc.len() - 1] == p);
                    assert(fc.contains(p));
                }
            }
        }
    }
}

/// The filtered sequence of a prefix is a prefix of the filtered sequence.
proof fn lemma_filtered_prefix(test: Seq<Dependency>, main: Seq<Dependency>, n: int)
    requires
        0 <= n <= test.len(),
    ensures
        spec_filtered_deps(test, main).skip(
            spec_filtered_deps(test.take(n), main).len() as int,
        ).len() <= spec_filtered_deps(test, main).len(),
        spec_filtered_deps(test.take(n), main) == spec_filtered_deps(test, main).take(
            spec_filtered_deps(test.take(n), main).len() as int,
        ),
        spec_filtered_deps(test.take(n), main).len() <= spec_filtered_deps(test, main).len(),
    decreases test.len() - n,
{
    if n == test.len() {
        assert(test.take(n) =~= test);
        assert(spec_filtered_deps(test, main).take(spec_filtered_deps(test, main).len() as int)
            =~= spec_filtered_deps(test, main));
    } else {
        lemma_filtered_prefix(test, main, n + 1);
        assert(test.take(n + 1).drop_last() =~= test.take(n));
        assert(test.take(n + 1).last() == test[n]);
        let fp = spec_filtered_deps(test.take(n), main);
        let fp1 = spec_filtered_deps(test.take(n + 1), main);
        assert(fp1.take(fp.len() as int) =~= fp);
        assert(spec_filtered_deps(test, main).take(fp1.len() as int).take(fp.len() as int)
            =~= spec_filtered_deps(test, main).take(fp.len() as int));
    }
}

proof fn lemma_filter_sorted_step(
    orig: Seq<Dependency>,
    main: Seq<Dependency>,
    n: int,
    pre: Seq<Dependency>,
    post: Seq<Dependency>,
    d: Dependency,
)
    requires
        dep_names_strictly_sorted(orig),
        0 < n <= orig.len(),
        d == orig[n - 1],
        post == pre.insert(0, d),
        // every element already kept comes from strictly after position n - 1
        forall|k: int|
            0 <= k < pre.len() ==> exists|m: int| n <= m < orig.len() && #[trigger] pre[k] == orig[m],
        dep_names_strictly_sorted(pre),
    ensures
        dep_names_strictly_sorted(post),
        forall|k: int|
            0 <= k < post.len() ==> exists|m: int|
                n - 1 <= m < orig.len() && #[trigger] post[k] == orig[m],
{
    pre.insert_ensures(0, d);
    assert forall|a: int, b: int| 0 <= a < b < post.len() implies spec_str_lt(
        (#[trigger] post[a]).name@,
        (#[trigger] post[b]).name@,
    ) by {
        if a == 0 {
            assert(post[b] == pre[b - 1]);
            let m = choose|m: int| n <= m < orig.len() && pre[b - 1] == orig[m];
            assert(spec_str_lt(orig[n - 1].name@, orig[m].name@));
        } else {
            assert(post[a] == pre[a - 1] && post[b] == pre[b - 1]);
        }
    }
    assert forall|k: int| 0 <= k < post.len() implies exists|m: int|
        n - 1 <= m < orig.len() && #[trigger] post[k] == orig[m] by {
        if k == 0 {
            assert(post[0] == orig[n - 1]);
        } else {
            let m = choose|m: int| n <= m < orig.len() && pre[k - 1] == orig[m];
            assert(post[k] == orig[m]);
        }
    }
}

} // verus!
