//! Relative specifiers between output paths: the import specifier that, seen
//! from one emitted file, resolves to another emitted file.

use vstd::prelude::*;

use crate::strings::push_char;
use crate::texts::{join_with, spec_join_with, strs_view};

verus! {

/// Split on `/`. The result always holds one more segment than there are
/// separators; empty segments are kept.
pub open spec fn spec_split_path(s: Seq<char>) -> Seq<Seq<char>>
    decreases s.len(),
{
    if s.len() == 0 {
        seq![Seq::<char>::empty()]
    } else {
        let r = spec_split_path(s.drop_last());
        if s.last() == '/' {
            r + seq![Seq::<char>::empty()]
        } else {
            r.update(r.len() - 1, r.last().push(s.last()))
        }
    }
}

#[verifier::loop_isolation(false)]
pub fn split_path(s: &str) -> (r: Vec<String>)
    ensures
        strs_view(r@) == spec_split_path(s@),
        r@.len() >= 1,
{
    let n: usize = s.unicode_len();
    let mut segs: Vec<String> = Vec::new();
    segs.push(String::new());
    let mut i: usize = 0;
    assert(strs_view(segs@) =~= spec_split_path(s@.take(0)));
    while i < n
        invariant
            i <= n,
            n == s@.len(),
            segs@.len() >= 1,
            strs_view(segs@) == spec_split_path(s@.take(i as int)),
        decreases n - i,
    {
        let c = s.get_char(i);
        proof {
            assert(s@.take(i + 1).drop_last() =~= s@.take(i as int));
            assert(s@.take(i + 1).last() == s@[i as int]);
        }
        if c == '/' {
            segs.push(String::new());
            proof {
                assert(strs_view(segs@) =~= spec_split_path(s@.take(i + 1)));
            }
        } else {
            let last: usize = segs.len() - 1;
            let mut seg = segs.remove(last);
            push_char(&mut seg, c);
            segs.push(seg);
            proof {
                let prev = spec_split_path(s@.take(i as int));
                assert(strs_view(segs@) =~= prev.update(prev.len() - 1, prev.last().push(
                    s@[i as int],
                )));
            }
        }
        i = i + 1;
    }
    proof {
        assert(s@.take(n as int) =~= s@);
    }
    segs
}

/// Length of the longest common prefix.
pub open spec fn spec_lcp(a: Seq<Seq<char>>, b: Seq<Seq<char>>) -> int
    decreases a.len(),
{
    if a.len() == 0 || b.len() == 0 || a[0] != b[0] {
        0
    } else {
        1 + spec_lcp(a.drop_first(), b.drop_first())
    }
}

proof fn lemma_lcp_bounds(a: Seq<Seq<char>>, b: Seq<Seq<char>>)
    ensures
        0 <= spec_lcp(a, b) <= a.len(),
        spec_lcp(a, b) <= b.len(),
    decreases a.len(),
{
    if a.len() != 0 && b.len() != 0 && a[0] == b[0] {
        lemma_lcp_bounds(a.drop_first(), b.drop_first());
    }
}

/// `../` repeated.
pub open spec fn spec_up_segments(n: nat) -> Seq<char>
    decreases n,
{
    if n == 0 {
        Seq::empty()
    } else {
        spec_up_segments((n - 1) as nat) + "../"@
    }
}

/// The relative specifier from one output file to another: climb out of the
/// source file's directory to the deepest directory shared with the target,
/// then descend to the target; a sibling-or-below target is prefixed with
/// `./` so the result always reads as a relative path.
pub open spec fn spec_relative_specifier(from: Seq<char>, to: Seq<char>) -> Seq<char> {
    let f = spec_split_path(from).drop_last();
    let t = spec_split_path(to);
    let c = spec_lcp(f, t.take(t.len() - 1));
    let rest = spec_join_with(t.skip(c), "/"@);
    if f.len() - c == 0 {
        "./"@ + rest
    } else {
        spec_up_segments((f.len() - c) as nat) + rest
    }
}

#[verifier::loop_isolation(false)]
pub fn get_relative_specifier(from: &str, to: &str) -> (r: String)
    ensures
        r@ == spec_relative_specifier(from@, to@),
{
    let mut f = split_path(from);
    let t = split_path(to);
    f.pop();
    proof {
        assert(strs_view(f@) =~= spec_split_path(from@).drop_last());
    }
    let ghost fv = strs_view(f@);
    let ghost tv = strs_view(t@);
    let ghost tdir = tv.take(tv.len() - 1);

    // longest common prefix of the source directory and the target directory
    let tlast: usize = t.len() - 1;
    let mut c: usize = 0;
    proof {
        assert(fv.skip(0) =~= fv);
        assert(tdir.skip(0) =~= tdir);
    }
    while c < f.len() && c < tlast && f[c].eq(&t[c])
        invariant
            c <= fv.len(),
            c <= tdir.len(),
            spec_lcp(fv, tdir) == c + spec_lcp(fv.skip(c as int), tdir.skip(c as int)),
            forall|k: int| 0 <= k < c ==> #[trigger] fv[k] == tdir[k],
        decreases fv.len() - c,
    {
        proof {
            assert(fv.skip(c as int)[0] == fv[c as int]);
            assert(tdir.skip(c as int)[0] == tdir[c as int]);
            assert(tdir[c as int] == tv[c as int]);
            assert(fv.skip(c as int).drop_first() =~= fv.skip(c + 1));
            assert(tdir.skip(c as int).drop_first() =~= tdir.skip(c + 1));
        }
        c = c + 1;
    }
    proof {
        if c < fv.len() && c < tdir.len() {
            assert(fv.skip(c as int)[0] == fv[c as int]);
            assert(tdir.skip(c as int)[0] == tdir[c as int]);
            assert(tdir[c as int] == tv[c as int]);
        }
        assert(spec_lcp(fv, tdir) == c);
        lemma_lcp_bounds(fv, tdir);
    }

    // climb out of the unshared part of the source directory
    let ups: usize = f.len() - c;
    let mut out = String::new();
    let mut k: usize = 0;
    while k < ups
        invariant
            k <= ups,
            out@ == spec_up_segments(k as nat),
        decreases ups - k,
    {
        out.append("../");
        k = k + 1;
    }
    if ups == 0 {
        out.append("./");
        proof {
            assert(out@ =~= "./"@);
        }
    }

    // descend to the target
    let mut rest: Vec<String> = Vec::new();
    let mut k: usize = c;
    assert(tv.skip(c as int).take(0) =~= Seq::<Seq<char>>::empty());
    while k < t.len()
        invariant
            c <= k <= t@.len(),
            strs_view(rest@) == tv.skip(c as int).take(k - c),
        decreases t@.len() - k,
    {
        rest.push(t[k].clone());
        proof {
            assert(t@[k as int]@ == tv[k as int]);
            assert(tv.skip(c as int)[k - c] == tv[k as int]);
            assert(strs_view(rest@) =~= tv.skip(c as int).take(k + 1 - c));
        }
        k = k + 1;
    }
    proof {
        assert(tv.skip(c as int).take(tv.len() - c) =~= tv.skip(c as int));
    }
    let joined = join_with(&rest, "/");
    out.append(joined.as_str());
    out
}

} // verus!
