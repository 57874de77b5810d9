//! Declaration-conflict warnings: when several declaration files compete for
//! one code module, every reference that lost the selection earns a warning,
//! phrased one way when the selected reference came from a local file and
//! another way when it came from a remote one.

use vstd::prelude::*;

use crate::strings::{is_local_specifier, spec_is_local_specifier};
use crate::texts::{dep_warning, spec_dep_warning};

verus! {

/// One declaration-file reference: the declaration file and the module that
/// referenced it.
#[derive(Debug, Clone, PartialEq)]
pub struct TypesDependency {
    pub specifier: String,
    pub referrer: String,
}

/// The competing declaration files of one code module: the reference that was
/// selected and the ones that were passed over.
#[derive(Debug, Clone, PartialEq)]
pub struct TypesEntry {
    pub code_specifier: String,
    pub selected: TypesDependency,
    pub ignored: Vec<TypesDependency>,
}

/// The closing advice when the selected reference is local: several local
/// files disagree.
pub open spec fn spec_local_post_message() -> Seq<char> {
    "Supress this warning by having only one local file specify the declaration file for this module."@
}

/// The closing advice when the selected reference is remote: a local
/// directive would override it.
pub open spec fn spec_remote_post_message() -> Seq<char> {
    "Supress this warning by specifying a declaration file for this module locally via `@deno-types`."@
}

pub open spec fn spec_entry_warning(e: &TypesEntry, d: &TypesDependency, post: Seq<char>) -> Seq<
    char,
> {
    spec_dep_warning(e.code_specifier@, d.specifier@, d.referrer@, e.selected.specifier@, post)
}

/// Warnings of one entry whose selected reference is local: one per ignored
/// reference that is itself local.
pub open spec fn spec_local_warnings(e: &TypesEntry, deps: Seq<TypesDependency>) -> Seq<Seq<char>>
    decreases deps.len(),
{
    if deps.len() == 0 {
        Seq::empty()
    } else {
        spec_local_warnings(e, deps.drop_last()) + (if spec_is_local_specifier(
            deps.last().referrer@,
        ) {
            seq![spec_entry_warning(e, &deps.last(), spec_local_post_message())]
        } else {
            Seq::empty()
        })
    }
}

/// Warnings of one entry whose selected reference is remote: one per ignored
/// reference.
pub open spec fn spec_remote_warnings(e: &TypesEntry, deps: Seq<TypesDependency>) -> Seq<Seq<char>>
    decreases deps.len(),
{
    if deps.len() == 0 {
        Seq::empty()
    } else {
        spec_remote_warnings(e, deps.drop_last()) + seq![spec_entry_warning(
            e,
            &deps.last(),
            spec_remote_post_message(),
        )]
    }
}

pub open spec fn spec_entry_warnings(e: &TypesEntry) -> Seq<Seq<char>> {
    if spec_is_local_specifier(e.selected.referrer@) {
        spec_local_warnings(e, e.ignored@)
    } else {
        spec_remote_warnings(e, e.ignored@)
    }
}

/// All declaration-conflict warnings, in entry order.
pub open spec fn spec_declaration_warnings(types: Seq<TypesEntry>) -> Seq<Seq<char>>
    decreases types.len(),
{
    if types.len() == 0 {
        Seq::empty()
    } else {
        spec_declaration_warnings(types.drop_last()) + spec_entry_warnings(&types.last())
    }
}

pub open spec fn warnings_view(w: Seq<String>) -> Seq<Seq<char>> {
    w.map_values(|s: String| s@)
}

/// Collect one warning per passed-over declaration reference. When the
/// selected reference's referrer is local, only local competitors warn and
/// the advice is to keep a single local declaration; when it is remote, every
/// competitor warns and the advice is to declare the file locally via a
/// directive.
#[verifier::loop_isolation(false)]
pub fn get_declaration_warnings(types: &Vec<TypesEntry>) -> (r: Vec<String>)
    ensures
        warnings_view(r@) == spec_declaration_warnings(types@),
{
    let mut out: Vec<String> = Vec::new();
    let mut i: usize = 0;
    assert(warnings_view(out@) =~= spec_declaration_warnings(types@.take(0)));
    while i < types.len()
        invariant
            i <= types@.len(),
            warnings_view(out@) == spec_declaration_warnings(types@.take(i as int)),
        decreases types@.len() - i,
    {
        let e = &types[i];
        let selected_is_local = is_local_specifier(e.selected.referrer.as_str());
        let ghost entry_base = warnings_view(out@);
        let mut j: usize = 0;
        assert(spec_local_warnings(e, e.ignored@.take(0)) =~= Seq::<Seq<char>>::empty());
        assert(spec_remote_warnings(e, e.ignored@.take(0)) =~= Seq::<Seq<char>>::empty());
        while j < e.ignored.len()
            invariant
                j <= e.ignored@.len(),
                selected_is_local ==> warnings_view(out@) == entry_base + spec_local_warnings(
                    e,
                    e.ignored@.take(j as int),
                ),
                !selected_is_local ==> warnings_view(out@) == entry_base + spec_remote_warnings(
                    e,
                    e.ignored@.take(j as int),
                ),
            decreases e.ignored@.len() - j,
        {
            let d = &e.ignored[j];
            proof {
                assert(e.ignored@.take(j + 1).drop_last() =~= e.ignored@.take(j as int));
                assert(e.ignored@.take(j + 1).last() == e.ignored@[j as int]);
            }
            if selected_is_local {
                if is_local_specifier(d.referrer.as_str()) {
                    let w = dep_warning(
                        e.code_specifier.as_str(),
                        d.specifier.as_str(),
                        d.referrer.as_str(),
                        e.selected.specifier.as_str(),
                        "Supress this warning by having only one local file specify the declaration file for this module.",
                    );
                    proof {
                        assert(w@ == spec_entry_warning(
                            e,
                            &e.ignored@[j as int],
                            spec_local_post_message(),
                        ));
                    }
                    let ghost pre_out = out@;
                    out.push(w);
                    proof {
                        assert(warnings_view(out@) =~= warnings_view(pre_out).push(w@));
                    }
                }
                proof {
                    assert(warnings_view(out@) =~= entry_base + spec_local_warnings(
                        e,
                        e.ignored@.take(j + 1),
                    ));
                }
            } else {
                let w = dep_warning(
                    e.code_specifier.as_str(),
                    d.specifier.as_str(),
                    d.referrer.as_str(),
                    e.selected.specifier.as_str(),
                    "Supress this warning by specifying a declaration file for this module locally via `@deno-types`.",
                );
                proof {
                    assert(w@ == spec_entry_warning(
                        e,
                        &e.ignored@[j as int],
                        spec_remote_post_message(),
                    ));
                }
                let ghost pre_out = out@;
                out.push(w);
                proof {
                    assert(warnings_view(out@) =~= warnings_view(pre_out).push(w@));
                    assert(warnings_view(out@) =~= entry_base + spec_remote_warnings(
                        e,
                        e.ignored@.take(j + 1),
                    ));
                }
            }
            j = j + 1;
        }
        proof {
            assert(e.ignored@.take(e.ignored@.len() as int) =~= e.ignored@);
            assert(types@.take(i + 1).drop_last() =~= types@.take(i as int));
            assert(types@.take(i + 1).last() == types@[i as int]);
            assert(warnings_view(out@) =~= spec_declaration_warnings(types@.take(i + 1)));
        }
        i = i + 1;
    }
    proof {
        assert(types@.take(types@.len() as int) =~= types@);
    }
    out
}

} // verus!
