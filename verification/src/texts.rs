//! Text synthesis: escaping synthetic content into a template literal,
//! stripping a byte-order mark, joining name lists, and the texts of the
//! synthesized shim and polyfill files and of declaration warnings.

use vstd::prelude::*;

use crate::strings::push_char;
use crate::{Polyfill, Shim};

verus! {

/// Escape text for embedding in a template literal: a backtick becomes an
/// escaped backtick and the two-character interpolation start becomes its
/// escaped form, in one left-to-right pass that never re-scans inserted
/// escapes.
pub open spec fn spec_escape_template(s: Seq<char>) -> Seq<char>
    decreases s.len(),
{
    if s.len() == 0 {
        Seq::empty()
    } else if s[0] == '`' {
        seq!['\\', '`'] + spec_escape_template(s.drop_first())
    } else if s.len() >= 2 && s[0] == '$' && s[1] == '{' {
        seq!['\\', '$', '{'] + spec_escape_template(s.skip(2))
    } else {
        seq![s[0]] + spec_escape_template(s.drop_first())
    }
}

#[verifier::loop_isolation(false)]
pub fn escape_template(s: &str) -> (r: String)
    ensures
        r@ == spec_escape_template(s@),
{
    let n: usize = s.unicode_len();
    let mut out = String::new();
    let mut i: usize = 0;
    assert(s@.skip(0) =~= s@);
    while i < n
        invariant
            i <= n,
            n == s@.len(),
            spec_escape_template(s@) == out@ + spec_escape_template(s@.skip(i as int)),
        decreases n - i,
    {
        let c = s.get_char(i);
        assert(s@.skip(i as int)[0] == s@[i as int]);
        assert(s@.skip(i as int).drop_first() =~= s@.skip(i + 1));
        if c == '`' {
            push_char(&mut out, '\\');
            push_char(&mut out, '`');
            i = i + 1;
        } else if c == '$' && i + 1 < n && s.get_char(i + 1) == '{' {
            assert(s@.skip(i as int)[1] == s@[i + 1]);
            assert(s@.skip(i as int).skip(2) =~= s@.skip(i + 2));
            push_char(&mut out, '\\');
            push_char(&mut out, '$');
            push_char(&mut out, '{');
            i = i + 2;
        } else {
            push_char(&mut out, c);
            i = i + 1;
        }
        assert(spec_escape_template(s@) =~= out@ + spec_escape_template(s@.skip(i as int)));
    }
    assert(spec_escape_template(s@.skip(n as int)) =~= Seq::<char>::empty());
    out
}

/// Drop one leading byte-order mark, if present.
pub open spec fn spec_strip_bom(s: Seq<char>) -> Seq<char> {
    if s.len() > 0 && s[0] == '\u{feff}' {
        s.drop_first()
    } else {
        s
    }
}

pub fn strip_bom(s: &str) -> (r: String)
    ensures
        r@ == spec_strip_bom(s@),
{
    let n: usize = s.unicode_len();
    if n > 0 && s.get_char(0) == '\u{feff}' {
        let rest = s.substring_char(1, n);
        assert(rest@ =~= s@.drop_first());
        rest.to_owned()
    } else {
        s.to_owned()
    }
}

/// The emitted file text of a synthetic module with content: a default
/// export of the content parsed back out of an escaped template literal.
pub open spec fn spec_synthetic_module_text(source: Seq<char>) -> Seq<char> {
    "export default JSON.parse(`"@ + spec_escape_template(spec_strip_bom(source)) + "`);"@
}

pub fn synthetic_module_text(source: &str) -> (r: String)
    ensures
        r@ == spec_synthetic_module_text(source@),
{
    let stripped = strip_bom(source);
    let escaped = escape_template(stripped.as_str());
    let mut out = ("export default JSON.parse(`").to_owned();
    out.append(escaped.as_str());
    out.append("`);");
    out
}

/// Views of a list of strings.
pub open spec fn strs_view(s: Seq<String>) -> Seq<Seq<char>> {
    s.map_values(|x: String| x@)
}

/// Parts joined by a separator.
pub open spec fn spec_join_with(parts: Seq<Seq<char>>, sep: Seq<char>) -> Seq<char>
    decreases parts.len(),
{
    if parts.len() == 0 {
        Seq::empty()
    } else if parts.len() == 1 {
        parts[0]
    } else {
        spec_join_with(parts.drop_last(), sep) + sep + parts.last()
    }
}

#[verifier::loop_isolation(false)]
pub fn join_with(parts: &Vec<String>, sep: &str) -> (r: String)
    ensures
        r@ == spec_join_with(strs_view(parts@), sep@),
{
    let mut out = String::new();
    let mut i: usize = 0;
    assert(strs_view(parts@).take(0) =~= Seq::<Seq<char>>::empty());
    while i < parts.len()
        invariant
            i <= parts@.len(),
            out@ == spec_join_with(strs_view(parts@).take(i as int), sep@),
        decreases parts@.len() - i,
    {
        if i > 0 {
            out.append(sep);
        }
        out.append(parts[i].as_str());
        proof {
            let v = strs_view(parts@);
            assert(v.take(i + 1).drop_last() =~= v.take(i as int));
            assert(v.take(i + 1).last() == v[i as int]);
            assert(v[i as int] == parts@[i as int]@);
        }
        i = i + 1;
    }
    proof {
        assert(strs_view(parts@).take(parts@.len() as int) =~= strs_view(parts@));
    }
    out
}

/// One re-export line of the shim file.
pub open spec fn spec_shim_line(shim: &Shim) -> Seq<char> {
    "export { "@ + spec_join_with(strs_view(shim.global_names@), ", "@) + " } from \""@
        + shim.package.name@ + "\";\n"@
}

pub open spec fn spec_shim_lines(shims: Seq<Shim>) -> Seq<char>
    decreases shims.len(),
{
    if shims.len() == 0 {
        Seq::empty()
    } else {
        spec_shim_lines(shims.drop_last()) + spec_shim_line(&shims.last())
    }
}

/// The text of the synthesized shim file: one re-export line per configured
/// shim, or an empty export when no shim is configured.
pub open spec fn spec_shim_file_text(shims: Seq<Shim>) -> Seq<char> {
    if shims.len() == 0 {
        "export {};\n"@
    } else {
        spec_shim_lines(shims)
    }
}

#[verifier::loop_isolation(false)]
pub fn build_shim_file(shims: &Vec<Shim>) -> (r: String)
    ensures
        r@ == spec_shim_file_text(shims@),
{
    if shims.len() == 0 {
        return ("export {};\n").to_owned();
    }
    let mut out = String::new();
    let mut i: usize = 0;
    assert(spec_shim_lines(shims@.take(0)) =~= Seq::<char>::empty());
    while i < shims.len()
        invariant
            i <= shims@.len(),
            out@ == spec_shim_lines(shims@.take(i as int)),
        decreases shims@.len() - i,
    {
        let joined = join_with(&shims[i].global_names, ", ");
        out.append("export { ");
        out.append(joined.as_str());
        out.append(" } from \"");
        out.append(shims[i].package.name.as_str());
        out.append("\";\n");
        proof {
            assert(shims@.take(i + 1).drop_last() =~= shims@.take(i as int));
            assert(shims@.take(i + 1).last() == shims@[i as int]);
        }
        i = i + 1;
    }
    proof {
        assert(shims@.take(shims@.len() as int) =~= shims@);
    }
    out
}

/// The text of the synthesized polyfill file: the contributions of the
/// required polyfills, in order.
pub open spec fn spec_polyfill_file_text(polyfills: Seq<Polyfill>) -> Seq<char>
    decreases polyfills.len(),
{
    if polyfills.len() == 0 {
        Seq::empty()
    } else {
        spec_polyfill_file_text(polyfills.drop_last()) + polyfills.last().file_text@
    }
}

#[verifier::loop_isolation(false)]
pub fn build_polyfill_file_text(polyfills: &Vec<Polyfill>) -> (r: String)
    ensures
        r@ == spec_polyfill_file_text(polyfills@),
{
    let mut out = String::new();
    let mut i: usize = 0;
    assert(spec_polyfill_file_text(polyfills@.take(0)) =~= Seq::<char>::empty());
    while i < polyfills.len()
        invariant
            i <= polyfills@.len(),
            out@ == spec_polyfill_file_text(polyfills@.take(i as int)),
        decreases polyfills@.len() - i,
    {
        out.append(polyfills[i].file_text.as_str());
        proof {
            assert(polyfills@.take(i + 1).drop_last() =~= polyfills@.take(i as int));
            assert(polyfills@.take(i + 1).last() == polyfills@[i as int]);
        }
        i = i + 1;
    }
    proof {
        assert(polyfills@.take(polyfills@.len() as int) =~= polyfills@);
    }
    out
}

/// An entry-point file's text with a relative import of the polyfill file
/// prepended.
pub open spec fn spec_with_polyfill_import(rel: Seq<char>, text: Seq<char>) -> Seq<char> {
    "import '"@ + rel + "';\n"@ + text
}

pub fn with_polyfill_import(rel: &str, text: &str) -> (r: String)
    ensures
        r@ == spec_with_polyfill_import(rel@, text@),
{
    let mut out = ("import '").to_owned();
    out.append(rel);
    out.append("';\n");
    out.append(text);
    out
}

/// One declaration-conflict warning.
pub open spec fn spec_dep_warning(
    code_specifier: Seq<char>,
    dep_specifier: Seq<char>,
    dep_referrer: Seq<char>,
    selected_specifier: Seq<char>,
    post_message: Seq<char>,
) -> Seq<char> {
    "Duplicate declaration file found for "@ + code_specifier + "\n  Specified "@ + dep_specifier
        + " in "@ + dep_referrer + "\n  Selected "@ + selected_specifier + "\n  "@ + post_message
}

pub fn dep_warning(
    code_specifier: &str,
    dep_specifier: &str,
    dep_referrer: &str,
    selected_specifier: &str,
    post_message: &str,
) -> (r: String)
    ensures
        r@ == spec_dep_warning(
            code_specifier@,
            dep_specifier@,
            dep_referrer@,
            selected_specifier@,
            post_message@,
        ),
{
    let mut out = ("Duplicate declaration file found for ").to_owned();
    out.append(code_specifier);
    out.append("\n  Specified ");
    out.append(dep_specifier);
    out.append(" in ");
    out.append(dep_referrer);
    out.append("\n  Selected ");
    out.append(selected_specifier);
    out.append("\n  ");
    out.append(post_message);
    out
}

} // verus!
