//! Verified string helpers: equality, substring search, replacement,
//! lexicographic ordering, trimming and separator splitting.

use vstd::prelude::*;

verus! {

/// `pat` occurs in `s` starting at position `i`.
pub open spec fn spec_matches_at(s: Seq<char>, i: int, pat: Seq<char>) -> bool {
    0 <= i && i + pat.len() <= s.len() && s.subrange(i, i + pat.len()) == pat
}

/// `pat` occurs somewhere in `s`.
pub open spec fn spec_contains_str(s: Seq<char>, pat: Seq<char>) -> bool {
    exists|i: int| spec_matches_at(s, i, pat)
}

/// Compare two string slices for character-wise equality.
pub fn str_eq(a: &str, b: &str) -> (r: bool)
    ensures
        r == (a@ == b@),
{
    let oa = a.to_owned();
    let ob = b.to_owned();
    oa == ob
}

/// Whether `pat` occurs in `s` at position `i`.
pub fn str_matches_at(s: &str, i: usize, pat: &str) -> (r: bool)
    ensures
        r == spec_matches_at(s@, i as int, pat@),
{
    let sl = s.unicode_len();
    let pl = pat.unicode_len();
    if i > sl || pl > sl - i {
        proof {
            assert(!spec_matches_at(s@, i as int, pat@));
        }
        return false;
    }
    let mut j: usize = 0;
    while j < pl
        invariant
            j <= pl,
            i + pl <= sl,
            sl == s@.len(),
            pl == pat@.len(),
            forall|k: int| 0 <= k < j ==> s@[i + k] == pat@[k],
        decreases pl - j,
    {
        if s.get_char(i + j) != pat.get_char(j) {
            proof {
                assert(s@.subrange(i as int, i + pat@.len())[j as int] != pat@[j as int]);
            }
            return false;
        }
        j = j + 1;
    }
    proof {
        assert(s@.subrange(i as int, i + pat@.len()) =~= pat@);
    }
    true
}

/// Whether `pat` occurs anywhere in `s`.
pub fn str_contains(s: &str, pat: &str) -> (r: bool)
    ensures
        r == spec_contains_str(s@, pat@),
{
    let sl = s.unicode_len();
    let pl = pat.unicode_len();
    if pl > sl {
        proof {
            assert(forall|i: int| !spec_matches_at(s@, i, pat@));
        }
        return false;
    }
    if pl == 0 {
        proof {
            assert(s@.subrange(0, 0) =~= pat@);
            assert(spec_matches_at(s@, 0, pat@));
        }
        return true;
    }
    let mut i: usize = 0;
    while i <= sl - pl
        invariant
            0 < pl <= sl,
            sl == s@.len(),
            pl == pat@.len(),
            i <= sl - pl + 1,
            forall|k: int| 0 <= k < i ==> !spec_matches_at(s@, k, pat@),
        decreases sl - i,
    {
        if str_matches_at(s, i, pat) {
            return true;
        }
        i = i + 1;
    }
    proof {
        assert(forall|k: int| k > sl - pl ==> !spec_matches_at(s@, k, pat@));
    }
    false
}

/// Replacement of every non-overlapping occurrence of `from` by `to`,
/// scanning left to right.
pub open spec fn spec_replace(s: Seq<char>, from: Seq<char>, to: Seq<char>) -> Seq<char>
    decreases s.len(),
    when from.len() > 0
{
    if s.len() < from.len() {
        s
    } else if s.subrange(0, from.len() as int) == from {
        to + spec_replace(s.skip(from.len() as int), from, to)
    } else {
        s.take(1) + spec_replace(s.skip(1), from, to)
    }
}

/// Replace every occurrence of `from` in `s` by `to`, left to right,
/// without overlapping matches.
pub fn replace_str(s: &str, from: &str, to: &str) -> (r: String)
    requires
        from@.len() > 0,
    ensures
        r@ == spec_replace(s@, from@, to@),
{
    let sl = s.unicode_len();
    let fl = from.unicode_len();
    let mut out = String::new();
    let mut i: usize = 0;
    proof {
        assert(s@.skip(0) =~= s@);
        assert(Seq::<char>::empty() + spec_replace(s@, from@, to@) =~= spec_replace(
            s@,
            from@,
            to@,
        ));
    }
    while i < sl
        invariant
            i <= sl,
            sl == s@.len(),
            fl == from@.len(),
            fl > 0,
            spec_replace(s@, from@, to@) == out@ + spec_replace(
                s@.skip(i as int),
                from@,
                to@,
            ),
        decreases sl - i,
    {
        if str_matches_at(s, i, from) {
            out.append(to);
            proof {
                let rest = s@.skip(i as int);
                assert(rest.subrange(0, fl as int) =~= s@.subrange(i as int, i + fl));
                assert(rest.skip(fl as int) =~= s@.skip(i + fl));
            }
            i = i + fl;
        } else {
            out.append(s.substring_char(i, i + 1));
            proof {
                let rest = s@.skip(i as int);
                if rest.len() >= fl {
                    assert(rest.subrange(0, fl as int) =~= s@.subrange(i as int, i + fl));
                }
                assert(rest.take(1) =~= s@.subrange(i as int, i + 1));
                assert(rest.skip(1) =~= s@.skip(i + 1));
            }
            i = i + 1;
        }
    }
    proof {
        assert(s@.skip(sl as int) =~= Seq::<char>::empty());
        assert(out@ + Seq::<char>::empty() =~= out@);
    }
    out
}

/// Strict lexicographic order on character sequences, by code point.
pub open spec fn spec_lex_lt(a: Seq<char>, b: Seq<char>) -> bool
    decreases a.len(),
{
    if b.len() == 0 {
        false
    } else if a.len() == 0 {
        true
    } else if a[0] != b[0] {
        (a[0] as int) < (b[0] as int)
    } else {
        spec_lex_lt(a.skip(1), b.skip(1))
    }
}

/// Strict lexicographic comparison of two strings, by code point.
pub fn str_lt(a: &str, b: &str) -> (r: bool)
    ensures
        r == spec_lex_lt(a@, b@),
{
    let al = a.unicode_len();
    let bl = b.unicode_len();
    let mut i: usize = 0;
    proof {
        assert(a@.skip(0) =~= a@);
        assert(b@.skip(0) =~= b@);
    }
    while i < al && i < bl
        invariant
            i <= al,
            i <= bl,
            al == a@.len(),
            bl == b@.len(),
            spec_lex_lt(a@, b@) == spec_lex_lt(a@.skip(i as int), b@.skip(i as int)),
        decreases al - i,
    {
        let ca = a.get_char(i);
        let cb = b.get_char(i);
        if ca != cb {
            return (ca as u32) < (cb as u32);
        }
        proof {
            assert(a@.skip(i as int).skip(1) =~= a@.skip(i + 1));
            assert(b@.skip(i as int).skip(1) =~= b@.skip(i + 1));
        }
        i = i + 1;
    }
    al < bl
}

/// The lexicographic order is irreflexive.
pub proof fn lemma_lex_lt_irrefl(a: Seq<char>)
    ensures
        !spec_lex_lt(a, a),
    decreases a.len(),
{
    if a.len() > 0 {
        lemma_lex_lt_irrefl(a.skip(1));
    }
}

/// Distinct sequences are ordered one way or the other.
pub proof fn lemma_lex_lt_total(a: Seq<char>, b: Seq<char>)
    requires
        a != b,
    ensures
        spec_lex_lt(a, b) || spec_lex_lt(b, a),
    decreases a.len(),
{
    if b.len() == 0 {
        assert(a.len() > 0) by {
            if a.len() == 0 {
                assert(a =~= b);
            }
        }
        assert(spec_lex_lt(b, a));
    } else if a.len() == 0 {
        assert(spec_lex_lt(a, b));
    } else if a[0] != b[0] {
        if (a[0] as int) < (b[0] as int) {
            assert(spec_lex_lt(a, b));
        } else {
            assert((b[0] as int) < (a[0] as int));
            assert(spec_lex_lt(b, a));
        }
    } else {
        assert(a.skip(1) != b.skip(1)) by {
            if a.skip(1) == b.skip(1) {
                assert(a.skip(1).len() == b.skip(1).len());
                assert(a.len() == b.len());
                assert forall|i: int| 0 <= i < a.len() implies a[i] == b[i] by {
                    if i > 0 {
                        assert(a.skip(1)[i - 1] == a[i]);
                        assert(b.skip(1)[i - 1] == b[i]);
                    }
                }
                assert(a =~= b);
            }
        }
        lemma_lex_lt_total(a.skip(1), b.skip(1));
    }
}

/// The lexicographic order is transitive.
pub proof fn lemma_lex_lt_trans(a: Seq<char>, b: Seq<char>, c: Seq<char>)
    requires
        spec_lex_lt(a, b),
        spec_lex_lt(b, c),
    ensures
        spec_lex_lt(a, c),
    decreases a.len(),
{
    if a.len() == 0 || b.len() == 0 || c.len() == 0 {
    } else if a[0] == b[0] && b[0] == c[0] {
        lemma_lex_lt_trans(a.skip(1), b.skip(1), c.skip(1));
    }
}

/// ASCII whitespace, as trimmed from the edges of a package specifier.
pub open spec fn spec_is_space(c: char) -> bool {
    c == ' ' || c == '\t' || c == '\n' || c == '\r'
}

/// `s` without its leading whitespace.
pub open spec fn spec_drop_leading(s: Seq<char>) -> Seq<char>
    decreases s.len(),
{
    if s.len() > 0 && spec_is_space(s[0]) {
        spec_drop_leading(s.skip(1))
    } else {
        s
    }
}

/// `s` without its trailing whitespace.
pub open spec fn spec_drop_trailing(s: Seq<char>) -> Seq<char>
    decreases s.len(),
{
    if s.len() > 0 && spec_is_space(s.last()) {
        spec_drop_trailing(s.drop_last())
    } else {
        s
    }
}

/// `s` without leading or trailing whitespace.
pub open spec fn spec_trim(s: Seq<char>) -> Seq<char> {
    spec_drop_trailing(spec_drop_leading(s))
}

fn is_space_char(c: char) -> (r: bool)
    ensures
        r == spec_is_space(c),
{
    c == ' ' || c == '\t' || c == '\n' || c == '\r'
}

/// Trim ASCII whitespace from both ends of `s`.
pub fn trim_str(s: &str) -> (r: String)
    ensures
        r@ == spec_trim(s@),
{
    let sl = s.unicode_len();
    let mut a: usize = 0;
    proof {
        assert(s@.skip(0) =~= s@);
    }
    while a < sl && is_space_char(s.get_char(a))
        invariant
            a <= sl,
            sl == s@.len(),
            spec_drop_leading(s@) == spec_drop_leading(s@.skip(a as int)),
        decreases sl - a,
    {
        proof {
            assert(s@.skip(a as int).skip(1) =~= s@.skip(a + 1));
        }
        a = a + 1;
    }
    proof {
        assert(spec_drop_leading(s@) =~= s@.skip(a as int));
    }
    let mut b: usize = sl;
    proof {
        assert(s@.skip(a as int) =~= s@.subrange(a as int, sl as int));
    }
    while b > a && is_space_char(s.get_char(b - 1))
        invariant
            a <= b <= sl,
            sl == s@.len(),
            spec_drop_trailing(s@.skip(a as int)) == spec_drop_trailing(
                s@.subrange(a as int, b as int),
            ),
        decreases b,
    {
        proof {
            assert(s@.subrange(a as int, b as int).drop_last() =~= s@.subrange(
                a as int,
                b - 1,
            ));
        }
        b = b - 1;
    }
    proof {
        assert(spec_drop_trailing(s@.skip(a as int)) =~= s@.subrange(a as int, b as int));
    }
    s.substring_char(a, b).to_owned()
}

/// One accumulated piece, trimmed and appended only when something is left.
pub open spec fn spec_push_piece(out: Seq<Seq<char>>, piece: Seq<char>) -> Seq<Seq<char>> {
    if spec_trim(piece).len() > 0 {
        out.push(spec_trim(piece))
    } else {
        out
    }
}

/// Split on `sep`, trim each piece, and keep the non-empty ones,
/// appending them to `out` in order.
pub open spec fn spec_split_clean_rec(
    s: Seq<char>,
    sep: char,
    cur: Seq<char>,
    out: Seq<Seq<char>>,
) -> Seq<Seq<char>>
    decreases s.len(),
{
    if s.len() == 0 {
        spec_push_piece(out, cur)
    } else if s[0] == sep {
        spec_split_clean_rec(s.skip(1), sep, Seq::empty(), spec_push_piece(out, cur))
    } else {
        spec_split_clean_rec(s.skip(1), sep, cur.push(s[0]), out)
    }
}

/// The pieces of `s` between `sep` separators, trimmed, empty ones removed.
pub open spec fn spec_split_clean(s: Seq<char>, sep: char) -> Seq<Seq<char>> {
    spec_split_clean_rec(s, sep, Seq::empty(), Seq::empty())
}

/// Split `s` on `sep`, trim each piece, and drop the empty ones.
pub fn split_clean(s: &str, sep: char) -> (r: Vec<String>)
    ensures
        r.deep_view() == spec_split_clean(s@, sep),
{
    let sl = s.unicode_len();
    let mut out: Vec<String> = Vec::new();
    let mut start: usize = 0;
    let mut i: usize = 0;
    proof {
        assert(s@.skip(0) =~= s@);
        assert(s@.subrange(0, 0) =~= Seq::<char>::empty());
        assert(out.deep_view() =~= Seq::<Seq<char>>::empty());
    }
    while i < sl
        invariant
            start <= i <= sl,
            sl == s@.len(),
            spec_split_clean(s@, sep) == spec_split_clean_rec(
                s@.skip(i as int),
                sep,
                s@.subrange(start as int, i as int),
                out.deep_view(),
            ),
        decreases sl - i,
    {
        let c = s.get_char(i);
        if c == sep {
            let piece = s.substring_char(start, i);
            let trimmed = trim_str(piece);
            if trimmed.unicode_len() > 0 {
                let ghost prev = out.deep_view();
                out.push(trimmed);
                proof {
                    assert(out.deep_view() =~= prev.push(trimmed@));
                }
            }
            proof {
                assert(s@.skip(i as int).skip(1) =~= s@.skip(i + 1));
                assert(s@.subrange(i + 1, i + 1) =~= Seq::<char>::empty());
            }
            start = i + 1;
            i = i + 1;
        } else {
            proof {
                assert(s@.skip(i as int).skip(1) =~= s@.skip(i + 1));
                assert(s@.subrange(start as int, i as int).push(s@[i as int]) =~= s@.subrange(
                    start as int,
                    i + 1,
                ));
            }
            i = i + 1;
        }
    }
    let piece = s.substring_char(start, sl);
    let trimmed = trim_str(piece);
    if trimmed.unicode_len() > 0 {
        let ghost prev = out.deep_view();
        out.push(trimmed);
        proof {
            assert(out.deep_view() =~= prev.push(trimmed@));
        }
    }
    proof {
        assert(s@.skip(sl as int) =~= Seq::<char>::empty());
    }
    out
}

} // verus!
