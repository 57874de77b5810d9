//! Text change application engine: merges a batch of range edits into final
//! text. Edits are applied from the highest start offset down so that the
//! offsets of not-yet-applied edits stay valid; edits whose ranges conflict
//! are rejected, never merged.

use vstd::prelude::*;

verus! {

/// One edit: replace the half-open range `[start, end)` of the original text
/// (character offsets) with `new_text`.
#[derive(Debug, PartialEq)]
pub struct TextChange {
    pub start: usize,
    pub end: usize,
    pub new_text: String,
}

/// Why a batch of edits was rejected.
#[derive(Debug, PartialEq, Eq, Structural, Clone, Copy)]
pub enum TextChangeError {
    /// Some edit's range does not lie inside the original text.
    OutOfBounds,
    /// Two edits touch the same source region (or start at the same offset),
    /// so their combined effect would be ambiguous.
    Conflict,
}

/// Mathematical model of one edit: (start, end, replacement).
pub open spec fn edit_view(c: &TextChange) -> (int, int, Seq<char>) {
    (c.start as int, c.end as int, c.new_text@)
}

pub open spec fn edits_view(cs: Seq<TextChange>) -> Seq<(int, int, Seq<char>)> {
    cs.map_values(|c: TextChange| edit_view(&c))
}

/// Replace `text[e.0 .. e.1]` with `e.2`.
pub open spec fn splice(text: Seq<char>, e: (int, int, Seq<char>)) -> Seq<char>
    recommends
        0 <= e.0 <= e.1 <= text.len(),
{
    text.subrange(0, e.0) + e.2 + text.subrange(e.1, text.len() as int)
}

/// Apply edits front to back (callers pass a sequence sorted by descending
/// start, so each splice leaves the offsets of the later edits valid).
pub open spec fn apply_edits(text: Seq<char>, es: Seq<(int, int, Seq<char>)>) -> Seq<char>
    decreases es.len(),
{
    if es.len() == 0 {
        text
    } else {
        apply_edits(splice(text, es[0]), es.drop_first())
    }
}

/// Insert `e` into a descending-by-start sequence, before the first element
/// whose start is not greater than `e`'s.
pub open spec fn insert_desc(
    e: (int, int, Seq<char>),
    s: Seq<(int, int, Seq<char>)>,
) -> Seq<(int, int, Seq<char>)>
    decreases s.len(),
{
    if s.len() == 0 {
        seq![e]
    } else if e.0 >= s[0].0 {
        seq![e] + s
    } else {
        seq![s[0]] + insert_desc(e, s.drop_first())
    }
}

/// Insertion sort by descending start offset.
pub open spec fn sort_desc(s: Seq<(int, int, Seq<char>)>) -> Seq<(int, int, Seq<char>)>
    decreases s.len(),
{
    if s.len() == 0 {
        Seq::empty()
    } else {
        insert_desc(s.last(), sort_desc(s.drop_last()))
    }
}

pub open spec fn edit_in_bounds(e: (int, int, Seq<char>), n: int) -> bool {
    e.0 <= e.1 <= n
}

/// The ranges of `a` and `b` do not touch the same source region.
pub open spec fn edits_separated(a: (int, int, Seq<char>), b: (int, int, Seq<char>)) -> bool {
    a.1 <= b.0 || b.1 <= a.0
}

/// The two ranges share at least one character of the original text.
pub open spec fn edits_intersect(a: (int, int, Seq<char>), b: (int, int, Seq<char>)) -> bool {
    vstd::math::max(a.0, b.0) < vstd::math::min(a.1, b.1)
}

/// A batch is accepted exactly when every edit lies inside the text, no two
/// edits touch the same region, and no two edits start at the same offset
/// (two same-point insertions would have an order-dependent result).
pub open spec fn edits_ok(text: Seq<char>, es: Seq<(int, int, Seq<char>)>) -> bool {
    &&& forall|i: int| 0 <= i < es.len() ==> edit_in_bounds(#[trigger] es[i], text.len() as int)
    &&& forall|i: int, j: int|
        0 <= i < j < es.len() ==> edits_separated(#[trigger] es[i], #[trigger] es[j]) && es[i].0
            != es[j].0
}

/// The result an accepted batch produces.
pub open spec fn apply_edits_result(text: Seq<char>, es: Seq<(int, int, Seq<char>)>) -> Seq<char> {
    apply_edits(text, sort_desc(es))
}

proof fn lemma_insert_desc_multiset(e: (int, int, Seq<char>), s: Seq<(int, int, Seq<char>)>)
    ensures
        insert_desc(e, s).to_multiset() == s.to_multiset().insert(e),
    decreases s.len(),
{
    broadcast use vstd::seq_lib::group_to_multiset_ensures;

    if s.len() == 0 {
        assert(insert_desc(e, s) =~= seq![e]);
        assert(seq![e].to_multiset() =~= s.to_multiset().insert(e));
    } else if e.0 >= s[0].0 {
        assert(seq![e] + s =~= s.insert(0, e));
    } else {
        lemma_insert_desc_multiset(e, s.drop_first());
        let rest = insert_desc(e, s.drop_first());
        assert(seq![s[0]] + rest =~= rest.insert(0, s[0]));
        assert(s =~= s.drop_first().insert(0, s[0]));
        assert(s.to_multiset() =~= s.drop_first().to_multiset().insert(s[0]));
        assert((seq![s[0]] + rest).to_multiset() =~= rest.to_multiset().insert(s[0]));
        assert(rest.to_multiset().insert(s[0]) =~= s.drop_first().to_multiset().insert(e).insert(
            s[0],
        ));
        assert(s.drop_first().to_multiset().insert(e).insert(s[0])
            =~= s.drop_first().to_multiset().insert(s[0]).insert(e));
    }
}

pub proof fn lemma_sort_desc_multiset(s: Seq<(int, int, Seq<char>)>)
    ensures
        sort_desc(s).to_multiset() == s.to_multiset(),
    decreases s.len(),
{
    broadcast use vstd::seq_lib::group_to_multiset_ensures;

    if s.len() == 0 {
        assert(sort_desc(s).to_multiset() =~= s.to_multiset());
    } else {
        lemma_sort_desc_multiset(s.drop_last());
        lemma_insert_desc_multiset(s.last(), sort_desc(s.drop_last()));
        assert(s =~= s.drop_last().push(s.last()));
        assert(s.to_multiset() =~= s.drop_last().to_multiset().insert(s.last()));
    }
}

/// Elements of a descending insertion are the element and the old elements.
proof fn lemma_insert_desc_index(e: (int, int, Seq<char>), s: Seq<(int, int, Seq<char>)>)
    ensures
        insert_desc(e, s).len() == s.len() + 1,
        forall|k: int|
            0 <= k < insert_desc(e, s).len() ==> (#[trigger] insert_desc(e, s)[k] == e || exists|
                m: int,
            | 0 <= m < s.len() && insert_desc(e, s)[k] == s[m]),
        exists|k: int| 0 <= k < insert_desc(e, s).len() && insert_desc(e, s)[k] == e,
        forall|m: int|
            0 <= m < s.len() ==> exists|k: int|
                0 <= k < insert_desc(e, s).len() && insert_desc(e, s)[k] == #[trigger] s[m],
    decreases s.len(),
{
    if s.len() == 0 {
        assert(insert_desc(e, s) =~= seq![e]);
        assert(insert_desc(e, s)[0] == e);
    } else if e.0 >= s[0].0 {
        assert(insert_desc(e, s) =~= seq![e] + s);
        assert(insert_desc(e, s)[0] == e);
        assert(forall|k: int|
            1 <= k < insert_desc(e, s).len() ==> #[trigger] insert_desc(e, s)[k] == s[k - 1]);
        assert forall|m: int| 0 <= m < s.len() implies exists|k: int|
            0 <= k < insert_desc(e, s).len() && insert_desc(e, s)[k] == #[trigger] s[m] by {
            assert(insert_desc(e, s)[m + 1] == s[m]);
        }
    } else {
        lemma_insert_desc_index(e, s.drop_first());
        let r = insert_desc(e, s.drop_first());
        assert(insert_desc(e, s) =~= seq![s[0]] + r);
        assert forall|k: int| 0 <= k < insert_desc(e, s).len() implies (#[trigger] insert_desc(
            e,
            s,
        )[k] == e || exists|m: int| 0 <= m < s.len() && insert_desc(e, s)[k] == s[m]) by {
            if k == 0 {
                assert(insert_desc(e, s)[0] == s[0]);
            } else {
                assert(insert_desc(e, s)[k] == r[k - 1]);
                if r[k - 1] == e {
                } else {
                    let m = choose|m: int| 0 <= m < s.drop_first().len() && r[k - 1]
                        == s.drop_first()[m];
                    assert(s.drop_first()[m] == s[m + 1]);
                }
            }
        }
        let ke = choose|k: int| 0 <= k < r.len() && r[k] == e;
        assert(insert_desc(e, s)[ke + 1] == e);
        assert forall|m: int| 0 <= m < s.len() implies exists|k: int|
            0 <= k < insert_desc(e, s).len() && insert_desc(e, s)[k] == #[trigger] s[m] by {
            if m == 0 {
                assert(insert_desc(e, s)[0] == s[0]);
            } else {
                assert(s.drop_first()[m - 1] == s[m]);
                let k = choose|k: int|
                    0 <= k < r.len() && r[k] == s.drop_first()[m - 1];
                assert(insert_desc(e, s)[k + 1] == s[m]);
            }
        }
    }
}

/// A pairwise-symmetric property survives descending insertion, both ways.
proof fn lemma_insert_desc_pairwise(
    text: Seq<char>,
    e: (int, int, Seq<char>),
    s: Seq<(int, int, Seq<char>)>,
)
    requires
        edits_ok(text, s),
        forall|m: int|
            0 <= m < s.len() ==> edits_separated(e, #[trigger] s[m]) && e.0 != s[m].0,
        edit_in_bounds(e, text.len() as int),
    ensures
        edits_ok(text, insert_desc(e, s)),
    decreases s.len(),
{
    let r = insert_desc(e, s);
    lemma_insert_desc_index(e, s);
    assert forall|i: int| 0 <= i < r.len() implies edit_in_bounds(
        #[trigger] r[i],
        text.len() as int,
    ) by {
        if r[i] == e {
        } else {
            let m = choose|m: int| 0 <= m < s.len() && r[i] == s[m];
        }
    }
    assert forall|i: int, j: int| 0 <= i < j < r.len() implies edits_separated(
        #[trigger] r[i],
        #[trigger] r[j],
    ) && r[i].0 != r[j].0 by {
        lemma_insert_desc_pairwise_pair(text, e, s, i, j);
    }
}

proof fn lemma_insert_desc_pairwise_pair(
    text: Seq<char>,
    e: (int, int, Seq<char>),
    s: Seq<(int, int, Seq<char>)>,
    i: int,
    j: int,
)
    requires
        edits_ok(text, s),
        forall|m: int|
            0 <= m < s.len() ==> edits_separated(e, #[trigger] s[m]) && e.0 != s[m].0,
        0 <= i < j < insert_desc(e, s).len(),
    ensures
        edits_separated(insert_desc(e, s)[i], insert_desc(e, s)[j]),
        insert_desc(e, s)[i].0 != insert_desc(e, s)[j].0,
    decreases s.len(),
{
    let r = insert_desc(e, s);
    if s.len() == 0 {
    } else if e.0 >= s[0].0 {
        assert(r =~= seq![e] + s);
        if i == 0 {
            assert(r[j] == s[j - 1]);
        } else {
            assert(r[i] == s[i - 1] && r[j] == s[j - 1]);
        }
    } else {
        let rr = insert_desc(e, s.drop_first());
        assert(r =~= seq![s[0]] + rr);
        if i == 0 {
            lemma_insert_desc_index(e, s.drop_first());
            if rr[j - 1] == e {
                assert(edits_separated(e, s[0]) && e.0 != s[0].0);
            } else {
                let m = choose|m: int| 0 <= m < s.drop_first().len() && rr[j - 1]
                    == s.drop_first()[m];
                assert(s.drop_first()[m] == s[m + 1]);
            }
        } else {
            assert(edits_ok(text, s.drop_first())) by {
                assert(forall|a: int|
                    0 <= a < s.drop_first().len() ==> #[trigger] s.drop_first()[a] == s[a + 1]);
            }
            lemma_insert_desc_pairwise_pair(text, e, s.drop_first(), i - 1, j - 1);
        }
    }
}

/// `edits_ok` is invariant under sorting.
pub proof fn lemma_sort_desc_edits_ok(text: Seq<char>, s: Seq<(int, int, Seq<char>)>)
    ensures
        edits_ok(text, sort_desc(s)) == edits_ok(text, s),
    decreases s.len(),
{
    broadcast use vstd::seq_lib::group_to_multiset_ensures;

    lemma_sort_desc_multiset(s);
    lemma_edits_ok_multiset(text, s, sort_desc(s));
}

/// `edits_ok` depends only on the multiset of edits.
pub proof fn lemma_edits_ok_multiset(
    text: Seq<char>,
    s1: Seq<(int, int, Seq<char>)>,
    s2: Seq<(int, int, Seq<char>)>,
)
    requires
        s1.to_multiset() == s2.to_multiset(),
    ensures
        edits_ok(text, s1) == edits_ok(text, s2),
{
    if edits_ok(text, s1) {
        lemma_edits_ok_multiset_one(text, s1, s2);
    }
    if edits_ok(text, s2) {
        lemma_edits_ok_multiset_one(text, s2, s1);
    }
}

proof fn lemma_edits_ok_multiset_one(
    text: Seq<char>,
    s1: Seq<(int, int, Seq<char>)>,
    s2: Seq<(int, int, Seq<char>)>,
)
    requires
        s1.to_multiset() == s2.to_multiset(),
        edits_ok(text, s1),
    ensures
        edits_ok(text, s2),
{
    broadcast use vstd::seq_lib::group_to_multiset_ensures;

    assert forall|i: int| 0 <= i < s2.len() implies edit_in_bounds(
        #[trigger] s2[i],
        text.len() as int,
    ) by {
        assert(s2.to_multiset().contains(s2[i]));
        assert(s1.contains(s2[i]));
        let m = choose|m: int| 0 <= m < s1.len() && s1[m] == s2[i];
    }
    assert forall|i: int, j: int| 0 <= i < j < s2.len() implies edits_separated(
        #[trigger] s2[i],
        #[trigger] s2[j],
    ) && s2[i].0 != s2[j].0 by {
        let sub = s2.remove(j).remove(i);
        assert(s2.remove(j).to_multiset() =~= s2.to_multiset().remove(s2[j]));
        assert(s2.remove(j)[i] == s2[i]);
        assert(sub.to_multiset() =~= s2.to_multiset().remove(s2[j]).remove(s2[i]));
        // both removed values occur in s1 as two distinct positions
        assert(s1.to_multiset().contains(s2[i]) && s1.to_multiset().contains(s2[j]));
        let a = choose|a: int| 0 <= a < s1.len() && s1[a] == s2[i];
        if s2[i] == s2[j] {
            // the multiset holds the value twice, so s1 holds it at two positions
            assert(s1.to_multiset().remove(s2[i]).contains(s2[j]));
            assert(s1.remove(a).to_multiset() =~= s1.to_multiset().remove(s1[a]));
            assert(s1.remove(a).contains(s2[j]));
            let b0 = choose|b0: int| 0 <= b0 < s1.remove(a).len() && s1.remove(a)[b0] == s2[j];
            let b = if b0 < a {
                b0
            } else {
                b0 + 1
            };
            assert(s1[b] == s2[j]);
            assert(a != b);
            if a < b {
                assert(edits_separated(s1[a], s1[b]) && s1[a].0 != s1[b].0);
            } else {
                assert(edits_separated(s1[b], s1[a]) && s1[b].0 != s1[a].0);
            }
            assert(false);
        } else {
            let b = choose|b: int| 0 <= b < s1.len() && s1[b] == s2[j];
            assert(a != b);
            if a < b {
                assert(edits_separated(s1[a], s1[b]) && s1[a].0 != s1[b].0);
            } else {
                assert(edits_separated(s1[b], s1[a]) && s1[b].0 != s1[a].0);
            }
        }
    }
}

/// Sorting always yields a sequence whose starts do not increase.
pub proof fn lemma_sort_desc_sorted(s: Seq<(int, int, Seq<char>)>)
    ensures
        forall|i: int, j: int|
            0 <= i < j < sort_desc(s).len() ==> (#[trigger] sort_desc(s)[i]).0
                >= (#[trigger] sort_desc(s)[j]).0,
    decreases s.len(),
{
    if s.len() == 0 {
    } else {
        lemma_sort_desc_sorted(s.drop_last());
        lemma_insert_desc_sorted(s.last(), sort_desc(s.drop_last()));
    }
}

proof fn lemma_insert_desc_sorted(e: (int, int, Seq<char>), s: Seq<(int, int, Seq<char>)>)
    requires
        forall|i: int, j: int| 0 <= i < j < s.len() ==> (#[trigger] s[i]).0 >= (#[trigger] s[j]).0,
    ensures
        forall|i: int, j: int|
            0 <= i < j < insert_desc(e, s).len() ==> (#[trigger] insert_desc(e, s)[i]).0
                >= (#[trigger] insert_desc(e, s)[j]).0,
    decreases s.len(),
{
    let r = insert_desc(e, s);
    if s.len() == 0 {
    } else if e.0 >= s[0].0 {
        assert(r =~= seq![e] + s);
        assert forall|i: int, j: int| 0 <= i < j < r.len() implies (#[trigger] r[i]).0
            >= (#[trigger] r[j]).0 by {
            if i == 0 {
                assert(r[j] == s[j - 1]);
                if j - 1 > 0 {
                    assert(s[0].0 >= s[j - 1].0);
                }
            }
        }
    } else {
        assert(forall|a: int|
            0 <= a < s.drop_first().len() ==> #[trigger] s.drop_first()[a] == s[a + 1]);
        lemma_insert_desc_sorted(e, s.drop_first());
        let rr = insert_desc(e, s.drop_first());
        assert(r =~= seq![s[0]] + rr);
        lemma_insert_desc_index(e, s.drop_first());
        assert forall|i: int, j: int| 0 <= i < j < r.len() implies (#[trigger] r[i]).0
            >= (#[trigger] r[j]).0 by {
            if i == 0 {
                assert(r[j] == rr[j - 1]);
                if rr[j - 1] == e {
                } else {
                    let m = choose|m: int| 0 <= m < s.drop_first().len() && rr[j - 1]
                        == s.drop_first()[m];
                    assert(s.drop_first()[m] == s[m + 1]);
                }
            }
        }
    }
}

/// Two strictly descending sequences with the same multiset are equal.
proof fn lemma_strictly_sorted_unique(s1: Seq<(int, int, Seq<char>)>, s2: Seq<(int, int, Seq<char>)>)
    requires
        s1.to_multiset() == s2.to_multiset(),
        forall|i: int, j: int| 0 <= i < j < s1.len() ==> (#[trigger] s1[i]).0 > (#[trigger] s1[j]).0,
        forall|i: int, j: int| 0 <= i < j < s2.len() ==> (#[trigger] s2[i]).0 > (#[trigger] s2[j]).0,
    ensures
        s1 == s2,
    decreases s1.len(),
{
    broadcast use vstd::seq_lib::group_to_multiset_ensures;

    if s1.len() == 0 {
        assert(s2.len() == 0) by {
            if s2.len() > 0 {
                assert(s2.to_multiset().contains(s2[0]));
            }
        }
        assert(s1 =~= s2);
    } else {
        assert(s2.len() > 0) by {
            assert(s1.to_multiset().contains(s1[0]));
        }
        // each head is the strict maximum of its sequence, and each occurs in
        // the other sequence, so the heads are equal
        assert(s2.contains(s1[0])) by {
            assert(s1.to_multiset().contains(s1[0]));
        }
        assert(s1.contains(s2[0])) by {
            assert(s2.to_multiset().contains(s2[0]));
        }
        let a = choose|a: int| 0 <= a < s2.len() && s2[a] == s1[0];
        let b = choose|b: int| 0 <= b < s1.len() && s1[b] == s2[0];
        assert(s2[0].0 >= s1[0].0) by {
            if a > 0 {
                assert(s2[0].0 > s2[a].0);
            }
        }
        assert(s1[0].0 >= s2[0].0) by {
            if b > 0 {
                assert(s1[0].0 > s1[b].0);
            }
        }
        assert(a == 0) by {
            if a > 0 {
                assert(s2[0].0 > s2[a].0);
            }
        }
        assert(s1[0] == s2[0]);
        assert(s1.drop_first() =~= s1.remove(0));
        assert(s2.drop_first() =~= s2.remove(0));
        assert(s1.drop_first().to_multiset() =~= s1.to_multiset().remove(s1[0]));
        assert(s2.drop_first().to_multiset() =~= s2.to_multiset().remove(s2[0]));
        assert(forall|i: int|
            0 <= i < s1.drop_first().len() ==> #[trigger] s1.drop_first()[i] == s1[i + 1]);
        assert(forall|i: int|
            0 <= i < s2.drop_first().len() ==> #[trigger] s2.drop_first()[i] == s2[i + 1]);
        lemma_strictly_sorted_unique(s1.drop_first(), s2.drop_first());
        assert(s1 =~= seq![s1[0]] + s1.drop_first());
        assert(s2 =~= seq![s2[0]] + s2.drop_first());
    }
}

/// Law: a batch of edits with pairwise distinct, non-conflicting ranges
/// produces the same final text in whatever order the edits are given; and
/// whether a batch is accepted at all does not depend on the order either.
pub proof fn lemma_apply_order_insensitive(
    text: Seq<char>,
    es1: Seq<(int, int, Seq<char>)>,
    es2: Seq<(int, int, Seq<char>)>,
)
    requires
        es1.to_multiset() == es2.to_multiset(),
    ensures
        edits_ok(text, es1) == edits_ok(text, es2),
        edits_ok(text, es1) ==> apply_edits_result(text, es1) == apply_edits_result(text, es2),
{
    lemma_edits_ok_multiset(text, es1, es2);
    if edits_ok(text, es1) {
        lemma_sort_desc_multiset(es1);
        lemma_sort_desc_multiset(es2);
        lemma_sort_desc_sorted(es1);
        lemma_sort_desc_sorted(es2);
        lemma_sort_desc_edits_ok(text, es1);
        lemma_sort_desc_edits_ok(text, es2);
        let t1 = sort_desc(es1);
        let t2 = sort_desc(es2);
        assert forall|i: int, j: int| 0 <= i < j < t1.len() implies (#[trigger] t1[i]).0
            > (#[trigger] t1[j]).0 by {
            assert(edits_ok(text, t1));
        }
        assert forall|i: int, j: int| 0 <= i < j < t2.len() implies (#[trigger] t2[i]).0
            > (#[trigger] t2[j]).0 by {
            assert(edits_ok(text, t2));
        }
        lemma_strictly_sorted_unique(t1, t2);
    }
}

proof fn lemma_bounds_multiset(
    n: int,
    s1: Seq<(int, int, Seq<char>)>,
    s2: Seq<(int, int, Seq<char>)>,
)
    requires
        s1.to_multiset() == s2.to_multiset(),
        forall|i: int| 0 <= i < s1.len() ==> edit_in_bounds(#[trigger] s1[i], n),
    ensures
        forall|i: int| 0 <= i < s2.len() ==> edit_in_bounds(#[trigger] s2[i], n),
{
    broadcast use vstd::seq_lib::group_to_multiset_ensures;

    assert forall|i: int| 0 <= i < s2.len() implies edit_in_bounds(#[trigger] s2[i], n) by {
        assert(s2.to_multiset().contains(s2[i]));
        assert(s1.contains(s2[i]));
        let m = choose|m: int| 0 <= m < s1.len() && s1[m] == s2[i];
    }
}

/// Inserting at the first position whose start is not above `e`'s start is
/// exactly what `insert_desc` does.
proof fn lemma_insert_desc_at(e: (int, int, Seq<char>), s: Seq<(int, int, Seq<char>)>, j: int)
    requires
        0 <= j <= s.len(),
        forall|k: int| 0 <= k < j ==> (#[trigger] s[k]).0 > e.0,
        j < s.len() ==> e.0 >= s[j].0,
    ensures
        insert_desc(e, s) == s.insert(j, e),
    decreases s.len(),
{
    if s.len() == 0 {
        assert(insert_desc(e, s) =~= s.insert(0, e));
    } else if e.0 >= s[0].0 {
        assert(j == 0);
        assert(insert_desc(e, s) =~= s.insert(0, e));
    } else {
        assert(s[0].0 > e.0);
        assert(j >= 1);
        assert(forall|a: int|
            0 <= a < s.drop_first().len() ==> #[trigger] s.drop_first()[a] == s[a + 1]);
        lemma_insert_desc_at(e, s.drop_first(), j - 1);
        assert(seq![s[0]] + s.drop_first().insert(j - 1, e) =~= s.insert(j, e));
    }
}

/// Appending one more edit applies it after all the earlier ones.
proof fn lemma_apply_edits_push(
    text: Seq<char>,
    es: Seq<(int, int, Seq<char>)>,
    e: (int, int, Seq<char>),
)
    ensures
        apply_edits(text, es.push(e)) == splice(apply_edits(text, es), e),
    decreases es.len(),
{
    if es.len() == 0 {
        assert(es.push(e).drop_first() =~= Seq::<(int, int, Seq<char>)>::empty());
        assert(es.push(e)[0] == e);
        assert(apply_edits(splice(text, e), Seq::<(int, int, Seq<char>)>::empty()) == splice(
            text,
            e,
        ));
        assert(apply_edits(text, es) == text);
        assert(apply_edits(text, es.push(e)) == apply_edits(
            splice(text, e),
            es.push(e).drop_first(),
        ));
    } else {
        assert(es.push(e)[0] == es[0]);
        assert(es.push(e).drop_first() =~= es.drop_first().push(e));
        lemma_apply_edits_push(splice(text, es[0]), es.drop_first(), e);
        assert(apply_edits(text, es.push(e)) == apply_edits(
            splice(text, es[0]),
            es.drop_first().push(e),
        ));
        assert(apply_edits(text, es) == apply_edits(splice(text, es[0]), es.drop_first()));
    }
}

/// In a descending sequence where each edit ends before the previous starts,
/// every later edit ends before every earlier one starts.
proof fn lemma_chain(s: Seq<(int, int, Seq<char>)>)
    requires
        forall|i: int| 0 <= i < s.len() ==> (#[trigger] s[i]).0 <= s[i].1,
        forall|i: int| 1 <= i < s.len() ==> (#[trigger] s[i]).1 <= s[i - 1].0,
        forall|i: int| 1 <= i < s.len() ==> (#[trigger] s[i]).0 != s[i - 1].0,
    ensures
        forall|i: int, j: int|
            0 <= i < j < s.len() ==> (#[trigger] s[j]).1 <= (#[trigger] s[i]).0 && s[j].0 < s[i].0,
    decreases s.len(),
{
    if s.len() <= 1 {
    } else {
        let d = s.drop_first();
        assert(forall|a: int| 0 <= a < d.len() ==> #[trigger] d[a] == s[a + 1]);
        assert forall|a: int| 1 <= a < d.len() implies (#[trigger] d[a]).1 <= d[a - 1].0 && d[a].0
            != d[a - 1].0 by {
            assert(d[a] == s[a + 1]);
            assert(d[a - 1] == s[a]);
        }
        lemma_chain(d);
        assert forall|i: int, j: int| 0 <= i < j < s.len() implies (#[trigger] s[j]).1
            <= (#[trigger] s[i]).0 && s[j].0 < s[i].0 by {
            if i == 0 {
                assert(s[1].1 <= s[0].0);
                assert(s[1].0 <= s[1].1);
                assert(s[1].0 != s[0].0);
                if j == 1 {
                } else {
                    assert(d[j - 1] == s[j] && d[0] == s[1]);
                    assert(s[j].1 <= s[1].0 && s[j].0 < s[1].0);
                }
            } else {
                assert(d[i - 1] == s[i] && d[j - 1] == s[j]);
            }
        }
    }
}

/// Law: any two edits with intersecting ranges make the whole batch rejected.
pub proof fn lemma_intersecting_edits_rejected(
    text: Seq<char>,
    es: Seq<(int, int, Seq<char>)>,
    i: int,
    j: int,
)
    requires
        0 <= i < es.len(),
        0 <= j < es.len(),
        i != j,
        edits_intersect(es[i], es[j]),
    ensures
        !edits_ok(text, es),
{
}

fn clone_change(c: &TextChange) -> (r: TextChange)
    ensures
        edit_view(&r) == edit_view(c),
{
    TextChange { start: c.start, end: c.end, new_text: c.new_text.clone() }
}

/// Merge a batch of edits into the given text. The edits may come in any
/// order; they are applied from the highest start offset down. The result is
/// `Ok` exactly when every edit lies inside the text and no two edits claim
/// the same region; an empty batch returns the text unchanged.
#[verifier::loop_isolation(false)]
#[verifier::rlimit(60)]
pub fn apply_text_changes(text: &str, changes: &Vec<TextChange>) -> (r: Result<
    String,
    TextChangeError,
>)
    ensures
        r is Ok <==> edits_ok(text@, edits_view(changes@)),
        r is Ok ==> r->Ok_0@ == apply_edits_result(text@, edits_view(changes@)),
        changes@.len() == 0 ==> r is Ok && r->Ok_0@ == text@,
        (r is Err && r->Err_0 == TextChangeError::OutOfBounds) <==> exists|i: int|
            0 <= i < changes@.len() && !edit_in_bounds(
                #[trigger] edits_view(changes@)[i],
                text@.len() as int,
            ),
{
    let ghost ev = edits_view(changes@);
    let n: usize = text.unicode_len();
    let mut i: usize = 0;
    while i < changes.len()
        invariant
            i <= changes@.len(),
            n == text@.len(),
            ev == edits_view(changes@),
            forall|k: int| 0 <= k < i ==> edit_in_bounds(#[trigger] ev[k], n as int),
        decreases changes@.len() - i,
    {
        let c = &changes[i];
        if c.start > c.end || c.end > n {
            assert(!edit_in_bounds(ev[i as int], n as int));
            return Err(TextChangeError::OutOfBounds);
        }
        i = i + 1;
    }
    assert(forall|k: int| 0 <= k < ev.len() ==> edit_in_bounds(#[trigger] ev[k], n as int));

    // sort by descending start offset
    let mut sorted: Vec<TextChange> = Vec::new();
    let mut i: usize = 0;
    while i < changes.len()
        invariant
            i <= changes@.len(),
            ev == edits_view(changes@),
            edits_view(sorted@) == sort_desc(ev.take(i as int)),
            sorted@.len() == i,
        decreases changes@.len() - i,
    {
        let c = clone_change(&changes[i]);
        assert(edit_view(&c) == ev[i as int]);
        let mut j: usize = 0;
        while j < sorted.len() && sorted[j].start > c.start
            invariant
                j <= sorted@.len(),
                forall|k: int| 0 <= k < j ==> (#[trigger] edits_view(sorted@)[k]).0 > c.start as int,
            decreases sorted@.len() - j,
        {
            assert(edits_view(sorted@)[j as int].0 == sorted@[j as int].start as int);
            j = j + 1;
        }
        proof {
            if (j as int) < sorted@.len() {
                assert(edits_view(sorted@)[j as int].0 == sorted@[j as int].start as int);
            }
            lemma_insert_desc_at(edit_view(&c), edits_view(sorted@), j as int);
        }
        let ghost old_sorted = sorted@;
        sorted.insert(j, c);
        proof {
            assert(edits_view(sorted@) =~= edits_view(old_sorted).insert(
                j as int,
                ev[i as int],
            ));
            assert(ev.take(i + 1).drop_last() =~= ev.take(i as int));
            assert(ev.take(i + 1).last() == ev[i as int]);
        }
        i = i + 1;
    }
    let ghost sv = edits_view(sorted@);
    proof {
        broadcast use vstd::seq_lib::group_to_multiset_ensures;

        assert(ev.take(changes@.len() as int) =~= ev);
        assert(sv == sort_desc(ev));
        lemma_sort_desc_multiset(ev);
        assert(sv.len() == ev.len());
        lemma_bounds_multiset(n as int, ev, sv);
        lemma_sort_desc_sorted(ev);
        lemma_sort_desc_edits_ok(text@, ev);
    }

    // reject edits that claim the same region
    if sorted.len() > 0 {
        let mut i: usize = 0;
        while i < sorted.len() - 1
            invariant
                i <= sorted@.len() - 1,
                forall|k: int| 1 <= k <= i ==> (#[trigger] sv[k]).1 <= sv[k - 1].0,
                forall|k: int| 1 <= k <= i ==> (#[trigger] sv[k]).0 != sv[k - 1].0,
            decreases sorted@.len() - i,
        {
            assert(sv[i as int] == edit_view(&sorted@[i as int]));
            assert(sv[i + 1] == edit_view(&sorted@[i + 1]));
            if sorted[i + 1].end > sorted[i].start || sorted[i + 1].start == sorted[i].start {
                proof {
                    if sv[i + 1].0 != sv[i as int].0 {
                        // not separated: it ends after this one starts, and
                        // the other direction would force the starts to
                        // coincide
                        assert(sv[i + 1].0 <= sv[i as int].0);
                        assert(sv[i as int].0 <= sv[i as int].1);
                        assert(!edits_separated(sv[i as int], sv[i + 1]));
                    }
                    assert(!edits_ok(text@, sv));
                }
                return Err(TextChangeError::Conflict);
            }
            i = i + 1;
        }
    }
    proof {
        assert(forall|k: int| 1 <= k < sv.len() ==> (#[trigger] sv[k]).1 <= sv[k - 1].0);
        assert(forall|k: int| 1 <= k < sv.len() ==> (#[trigger] sv[k]).0 != sv[k - 1].0);
        assert(forall|k: int| 0 <= k < sv.len() ==> (#[trigger] sv[k]).0 <= sv[k].1);
        lemma_chain(sv);
        assert(edits_ok(text@, sv));
    }

    // apply from the highest start offset down
    let mut current: String = text.to_owned();
    let mut i: usize = 0;
    while i < sorted.len()
        invariant
            i <= sorted@.len(),
            sv == edits_view(sorted@),
            edits_ok(text@, sv),
            forall|a: int, b: int|
                0 <= a < b < sv.len() ==> (#[trigger] sv[b]).1 <= (#[trigger] sv[a]).0,
            current@ == apply_edits(text@, sv.take(i as int)),
            i < sv.len() ==> sv[i as int].1 <= current@.len(),
        decreases sorted@.len() - i,
    {
        assert(sv[i as int] == edit_view(&sorted@[i as int]));
        let c_start = sorted[i].start;
        let c_end = sorted[i].end;
        let len: usize = current.unicode_len();
        assert(c_start <= c_end && c_end as int <= current@.len());
        let prefix = current.as_str().substring_char(0, c_start);
        let suffix = current.as_str().substring_char(c_end, len);
        let mut next = prefix.to_owned();
        next.append(sorted[i].new_text.as_str());
        next.append(suffix);
        proof {
            assert(next@ =~= splice(current@, sv[i as int]));
            lemma_apply_edits_push(text@, sv.take(i as int), sv[i as int]);
            assert(sv.take(i + 1) =~= sv.take(i as int).push(sv[i as int]));
            if i + 1 < sv.len() {
                assert(sv[i + 1].1 <= sv[i as int].0);
                assert(splice(current@, sv[i as int]).len() >= sv[i as int].0);
            }
        }
        current = next;
        i = i + 1;
    }
    proof {
        assert(sv.take(sv.len() as int) =~= sv);
    }
    Ok(current)
}

} // verus!
