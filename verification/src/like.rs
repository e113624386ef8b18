//! The `LIKE` pattern matching the scheduler's SQL relies on: `%` matches
//! any sequence of characters, `_` matches one character, and letters
//! compare without regard to ASCII case.

use vstd::prelude::*;

verus! {

/// ASCII-lowercases one character; anything but `A`..`Z` is unchanged.
pub open spec fn ascii_lower(c: char) -> char {
    if 'A' <= c && c <= 'Z' {
        ((c as u32) + 32) as char
    } else {
        c
    }
}

/// Whether a pattern character and a subject character agree under
/// ASCII case folding.
pub open spec fn like_char_eq(p: char, c: char) -> bool {
    ascii_lower(p) == ascii_lower(c)
}

/// Whether pattern `p` matches the whole of `s`, `LIKE`-style.
pub open spec fn like_rec(p: Seq<char>, s: Seq<char>) -> bool
    decreases p.len(), s.len(),
{
    if p.len() == 0 {
        s.len() == 0
    } else if p[0] == '%' {
        like_rec(p.skip(1), s) || (s.len() > 0 && like_rec(p, s.skip(1)))
    } else if p[0] == '_' {
        s.len() > 0 && like_rec(p.skip(1), s.skip(1))
    } else {
        s.len() > 0 && like_char_eq(p[0], s[0]) && like_rec(p.skip(1), s.skip(1))
    }
}

/// ASCII-lowercases one character.
pub fn ascii_lower_exec(c: char) -> (r: char)
    ensures
        r == ascii_lower(c),
{
    if 'A' <= c && c <= 'Z' {
        ((c as u8) + 32) as char
    } else {
        c
    }
}

/// Whether `p` starting at `pi` matches `s` starting at `si`.
fn like_at(p: &str, pi: usize, s: &str, si: usize) -> (r: bool)
    requires
        pi <= p@.len(),
        si <= s@.len(),
    ensures
        r == like_rec(p@.skip(pi as int), s@.skip(si as int)),
    decreases p@.len() - pi, s@.len() - si,
{
    let plen = p.unicode_len();
    let slen = s.unicode_len();
    let ghost pv = p@.skip(pi as int);
    let ghost sv = s@.skip(si as int);
    if pi == plen {
        si == slen
    } else {
        let pc = p.get_char(pi);
        assert(pc == pv[0]);
        assert(pv.skip(1) =~= p@.skip(pi as int + 1));
        if pc == '%' {
            if like_at(p, pi + 1, s, si) {
                true
            } else if si < slen {
                assert(sv.skip(1) =~= s@.skip(si as int + 1));
                like_at(p, pi, s, si + 1)
            } else {
                false
            }
        } else if si == slen {
            false
        } else {
            let sc = s.get_char(si);
            assert(sc == sv[0]);
            assert(sv.skip(1) =~= s@.skip(si as int + 1));
            if pc == '_' {
                like_at(p, pi + 1, s, si + 1)
            } else if ascii_lower_exec(pc) == ascii_lower_exec(sc) {
                like_at(p, pi + 1, s, si + 1)
            } else {
                false
            }
        }
    }
}

/// Whether pattern `p` matches the whole of `s`, `LIKE`-style.
pub fn like_match(p: &str, s: &str) -> (r: bool)
    ensures
        r == like_rec(p@, s@),
{
    let r = like_at(p, 0, s, 0);
    assert(p@.skip(0) =~= p@);
    assert(s@.skip(0) =~= s@);
    r
}

} // verus!
