//! The admission filter's regex side: each lens yields one regex per
//! domain pattern and one per URL prefix, and the whole set is asked
//! "does any member match the normalized URL".

use vstd::prelude::*;

use crate::types::Lens;

verus! {

/// Whether a character is special in a regex and must be escaped when
/// meant literally.
pub open spec fn regex_meta(c: char) -> bool {
    c == '.' || c == '+' || c == '?' || c == '(' || c == ')' || c == '[' || c == ']' || c == '{'
        || c == '}' || c == '^' || c == '$' || c == '|' || c == '\\' || c == '*'
}

/// One literal character, escaped for a regex.
pub open spec fn esc_lit_char(c: char) -> Seq<char> {
    if regex_meta(c) {
        "\\"@ + seq![c]
    } else {
        seq![c]
    }
}

/// One character of a domain pattern: `*` becomes the wildcard `.*`,
/// everything else is taken literally.
pub open spec fn esc_domain_char(c: char) -> Seq<char> {
    if c == '*' {
        ".*"@
    } else {
        esc_lit_char(c)
    }
}

/// A whole string, escaped literally.
pub open spec fn esc_lit(s: Seq<char>) -> Seq<char>
    decreases s.len(),
{
    if s.len() == 0 {
        Seq::empty()
    } else {
        esc_lit(s.drop_last()) + esc_lit_char(s.last())
    }
}

/// A whole domain pattern, escaped with `*` as a wildcard.
pub open spec fn esc_domain(s: Seq<char>) -> Seq<char>
    decreases s.len(),
{
    if s.len() == 0 {
        Seq::empty()
    } else {
        esc_domain(s.drop_last()) + esc_domain_char(s.last())
    }
}

/// The regex derived from one lens domain pattern: the whole URL, up to
/// the end of its host part, must fit the pattern.
pub open spec fn domain_regex(d: Seq<char>) -> Seq<char> {
    "^(http://|https://)"@ + esc_domain(d) + "(/|$)"@
}

/// The regex derived from one lens URL prefix: the URL must start with
/// the prefix, taken literally.
pub open spec fn prefix_regex(p: Seq<char>) -> Seq<char> {
    "^"@ + esc_lit(p)
}

/// The regexes one lens contributes: one per domain, then one per prefix.
pub open spec fn lens_regexes(l: crate::types::LensView) -> Seq<Seq<char>> {
    l.domains.map_values(|d: Seq<char>| domain_regex(d)) + l.urls.map_values(
        |u: Seq<char>| prefix_regex(u),
    )
}

/// The regex set derived from a list of lenses, in order.
pub open spec fn all_regexes(ls: Seq<crate::types::LensView>) -> Seq<Seq<char>>
    decreases ls.len(),
{
    if ls.len() == 0 {
        Seq::empty()
    } else {
        all_regexes(ls.drop_last()) + lens_regexes(ls.last())
    }
}

/// Appends the escaped form of `s` to `out`; `star_wild` says whether
/// `*` is a wildcard (domain patterns) or a literal (URL prefixes).
fn append_escaped(out: &mut String, s: &str, star_wild: bool)
    ensures
        star_wild ==> final(out)@ == old(out)@ + esc_domain(s@),
        !star_wild ==> final(out)@ == old(out)@ + esc_lit(s@),
{
    let len = s.unicode_len();
    let mut i: usize = 0;
    while i < len
        invariant
            i <= len,
            len == s@.len(),
            star_wild ==> out@ == old(out)@ + esc_domain(s@.take(i as int)),
            !star_wild ==> out@ == old(out)@ + esc_lit(s@.take(i as int)),
        decreases len - i,
    {
        let c = s.get_char(i);
        let ghost pre = s@.take(i as int);
        let ghost post = s@.take(i as int + 1);
        assert(post.drop_last() =~= pre);
        assert(post.last() == c);
        if star_wild && c == '*' {
            out.append(".*");
        } else {
            let meta = c == '.' || c == '+' || c == '?' || c == '(' || c == ')' || c == '['
                || c == ']' || c == '{' || c == '}' || c == '^' || c == '$' || c == '|'
                || c == '\\' || c == '*';
            assert(meta == regex_meta(c));
            if meta {
                out.append("\\");
            }
            crate::strutil::push_char(out, c);
        }
        i = i + 1;
    }
    assert(s@.take(len as int) =~= s@);
}

/// The regex for one lens domain pattern.
pub fn regex_for_domain(d: &str) -> (r: String)
    ensures
        r@ == domain_regex(d@),
{
    let mut out = String::new();
    out.append("^(http://|https://)");
    append_escaped(&mut out, d, true);
    out.append("(/|$)");
    out
}

/// The regex for one lens URL prefix.
pub fn regex_for_prefix(p: &str) -> (r: String)
    ensures
        r@ == prefix_regex(p@),
{
    let mut out = String::new();
    out.append("^");
    append_escaped(&mut out, p, false);
    out
}

/// The regex set derived from the active lenses: for each lens, one
/// regex per domain pattern, then one per URL prefix.
pub fn build_allow_list(lenses: &Vec<Lens>) -> (r: Vec<String>)
    ensures
        r.deep_view() == all_regexes(lenses.deep_view()),
{
    let mut out: Vec<String> = Vec::new();
    let mut li: usize = 0;
    while li < lenses.len()
        invariant
            li <= lenses.len(),
            out.deep_view() == all_regexes(lenses.deep_view().take(li as int)),
        decreases lenses.len() - li,
    {
        let lens = &lenses[li];
        let ghost lv = lens.deep_view();
        let mut di: usize = 0;
        while di < lens.domains.len()
            invariant
                di <= lens.domains.len(),
                lv == lens.deep_view(),
                out.deep_view() == all_regexes(lenses.deep_view().take(li as int))
                    + lv.domains.take(di as int).map_values(|d: Seq<char>| domain_regex(d)),
            decreases lens.domains.len() - di,
        {
            let rx = regex_for_domain(lens.domains[di].as_str());
            let ghost pre_dv = out.deep_view();
            out.push(rx);
            assert(out.deep_view() =~= pre_dv.push(domain_regex(lv.domains[di as int])));
            assert(lv.domains.take(di as int + 1).map_values(|d: Seq<char>| domain_regex(d))
                =~= lv.domains.take(di as int).map_values(|d: Seq<char>| domain_regex(d)).push(
                domain_regex(lv.domains[di as int])));
            assert(out.deep_view() =~= all_regexes(lenses.deep_view().take(li as int))
                + lv.domains.take(di as int + 1).map_values(|d: Seq<char>| domain_regex(d)));
            di = di + 1;
        }
        assert(lv.domains.take(di as int) =~= lv.domains);
        let mut ui: usize = 0;
        while ui < lens.urls.len()
            invariant
                ui <= lens.urls.len(),
                lv == lens.deep_view(),
                out.deep_view() == all_regexes(lenses.deep_view().take(li as int))
                    + lv.domains.map_values(|d: Seq<char>| domain_regex(d))
                    + lv.urls.take(ui as int).map_values(|u: Seq<char>| prefix_regex(u)),
            decreases lens.urls.len() - ui,
        {
            let rx = regex_for_prefix(lens.urls[ui].as_str());
            let ghost pre_dv = out.deep_view();
            out.push(rx);
            assert(out.deep_view() =~= pre_dv.push(prefix_regex(lv.urls[ui as int])));
            assert(lv.urls.take(ui as int + 1).map_values(|u: Seq<char>| prefix_regex(u))
                =~= lv.urls.take(ui as int).map_values(|u: Seq<char>| prefix_regex(u)).push(
                prefix_regex(lv.urls[ui as int])));
            assert(out.deep_view() =~= all_regexes(lenses.deep_view().take(li as int))
                + lv.domains.map_values(|d: Seq<char>| domain_regex(d))
                + lv.urls.take(ui as int + 1).map_values(|u: Seq<char>| prefix_regex(u)));
            ui = ui + 1;
        }
        assert(lv.urls.take(ui as int) =~= lv.urls);
        proof {
            let taken = lenses.deep_view().take(li as int + 1);
            assert(taken.drop_last() =~= lenses.deep_view().take(li as int));
            assert(taken.last() == lv);
            assert(out.deep_view() =~= all_regexes(taken));
        }
        li = li + 1;
    }
    assert(lenses.deep_view().take(lenses.len() as int) =~= lenses.deep_view());
    out
}

/// What asking the compiled regex set yields: whether any member of the
/// set built from `patterns` matches `hay`; false when the set is empty
/// or does not compile.
pub uninterp spec fn set_match(patterns: Seq<Seq<char>>, hay: Seq<char>) -> bool;

/// Relies on `regex::RegexSet::new` and `RegexSet::is_match`: whether
/// any member of the set matches the haystack.  The result depends on
/// the patterns and the haystack alone and is named `set_match`; an
/// empty set never matches anything, and a set that fails to compile is
/// treated as matching nothing.
#[verifier::external_body]
pub fn regex_set_is_match(patterns: &Vec<String>, hay: &str) -> (r: bool)
    ensures
        r == set_match(patterns.deep_view(), hay@),
        patterns.len() == 0 ==> r == false,
{
    match regex::RegexSet::new(patterns.iter()) {
        Ok(set) => set.is_match(hay),
        Err(_) => false,
    }
}

} // verus!
