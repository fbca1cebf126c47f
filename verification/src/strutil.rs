//! Character-sequence helpers: equality, prefix and substring tests,
//! splitting on a separator and joining with one.

use vstd::prelude::*;

verus! {

/// Index of the first occurrence of `sep` in `s`, or -1 when absent.
pub open spec fn first_index_of(s: Seq<char>, sep: char) -> int
    decreases s.len(),
{
    if s.len() == 0 {
        -1
    } else if s[0] == sep {
        0
    } else {
        let r = first_index_of(s.drop_first(), sep);
        if r < 0 {
            -1
        } else {
            r + 1
        }
    }
}

pub proof fn lemma_first_index_bounds(s: Seq<char>, sep: char)
    ensures
        first_index_of(s, sep) >= 0 ==> {
            &&& first_index_of(s, sep) < s.len()
            &&& s[first_index_of(s, sep)] == sep
            &&& forall|j: int| 0 <= j < first_index_of(s, sep) ==> s[j] != sep
        },
        first_index_of(s, sep) < 0 ==> forall|j: int| 0 <= j < s.len() ==> s[j] != sep,
    decreases s.len(),
{
    if s.len() > 0 && s[0] != sep {
        lemma_first_index_bounds(s.drop_first(), sep);
        let fi = first_index_of(s, sep);
        if fi >= 0 {
            assert(s[fi] == s.drop_first()[fi - 1]);
            assert forall|j: int| 0 <= j < fi implies s[j] != sep by {
                if j > 0 {
                    assert(s[j] == s.drop_first()[j - 1]);
                }
            }
        } else {
            assert forall|j: int| 0 <= j < s.len() implies s[j] != sep by {
                if j > 0 {
                    assert(s[j] == s.drop_first()[j - 1]);
                }
            }
        }
    }
}

/// The first occurrence is determined by any witness position: if `sep`
/// stands at `k` and nowhere before, then `k` is the first index.
pub proof fn lemma_first_index_is(s: Seq<char>, sep: char, k: int)
    requires
        0 <= k < s.len(),
        s[k] == sep,
        forall|j: int| 0 <= j < k ==> s[j] != sep,
    ensures
        first_index_of(s, sep) == k,
    decreases s.len(),
{
    if k > 0 {
        assert(s.drop_first()[k - 1] == s[k]);
        assert(forall|j: int| 0 <= j < k - 1 ==> s.drop_first()[j] == s[j + 1]);
        lemma_first_index_is(s.drop_first(), sep, k - 1);
    }
}

pub proof fn lemma_first_index_none(s: Seq<char>, sep: char)
    requires
        forall|j: int| 0 <= j < s.len() ==> s[j] != sep,
    ensures
        first_index_of(s, sep) < 0,
    decreases s.len(),
{
    if s.len() > 0 {
        assert(forall|j: int| 0 <= j < s.len() - 1 ==> s.drop_first()[j] == s[j + 1]);
        lemma_first_index_none(s.drop_first(), sep);
    }
}

/// `s` split at every occurrence of `sep`, the way `str::split` does it:
/// an empty input gives one empty token, and each separator ends a token.
pub open spec fn split_by(s: Seq<char>, sep: char) -> Seq<Seq<char>>
    decreases s.len(),
    via split_by_dec
{
    let fi = first_index_of(s, sep);
    if fi < 0 {
        seq![s]
    } else {
        seq![s.take(fi)] + split_by(s.skip(fi + 1), sep)
    }
}

#[via_fn]
proof fn split_by_dec(s: Seq<char>, sep: char) {
    lemma_first_index_bounds(s, sep);
}

/// Tokens of `ts` joined with the separator sequence `sep` between them.
pub open spec fn join_with(ts: Seq<Seq<char>>, sep: Seq<char>) -> Seq<char>
    decreases ts.len(),
{
    if ts.len() == 0 {
        Seq::empty()
    } else if ts.len() == 1 {
        ts[0]
    } else {
        ts[0] + sep + join_with(ts.drop_first(), sep)
    }
}

/// Whether `needle` occurs in `hay` as a contiguous subsequence.
pub open spec fn contains_seq(hay: Seq<char>, needle: Seq<char>) -> bool {
    exists|i: int|
        0 <= i && i + needle.len() <= hay.len() && #[trigger] hay.subrange(i, i + needle.len())
            == needle
}

/// Character equality up to ASCII case.
pub open spec fn ascii_eq_ci(a: char, b: char) -> bool {
    ascii_lower(a) == ascii_lower(b)
}

/// ASCII lower-casing of a single character; other characters are unchanged.
pub open spec fn ascii_lower(c: char) -> char {
    if 'A' <= c && c <= 'Z' {
        ((c as u8) + 32) as char
    } else {
        c
    }
}

/// Whether `p` is a prefix of `s` up to ASCII case.
pub open spec fn prefix_ci(s: Seq<char>, p: Seq<char>) -> bool {
    p.len() <= s.len() && forall|j: int| 0 <= j < p.len() ==> ascii_eq_ci(s[j], p[j])
}

/// Lexicographic order on character sequences by code point.
pub open spec fn lex_le(a: Seq<char>, b: Seq<char>) -> bool
    decreases a.len(),
{
    if a.len() == 0 {
        true
    } else if b.len() == 0 {
        false
    } else if (a[0] as u32) < (b[0] as u32) {
        true
    } else if (a[0] as u32) > (b[0] as u32) {
        false
    } else {
        lex_le(a.drop_first(), b.drop_first())
    }
}

/// Order is unchanged by dropping a common prefix.
pub proof fn lemma_lex_le_skip(a: Seq<char>, b: Seq<char>, i: int)
    requires
        0 <= i <= a.len(),
        i <= b.len(),
        forall|j: int| 0 <= j < i ==> a[j] == b[j],
    ensures
        lex_le(a, b) == lex_le(a.skip(i), b.skip(i)),
    decreases i,
{
    if i > 0 {
        assert(a.len() > 0 && b.len() > 0 && a[0] == b[0]);
        assert(forall|j: int| 0 <= j < i - 1 ==> a.drop_first()[j] == b.drop_first()[j]);
        lemma_lex_le_skip(a.drop_first(), b.drop_first(), i - 1);
        assert(a.drop_first().skip(i - 1) =~= a.skip(i));
        assert(b.drop_first().skip(i - 1) =~= b.skip(i));
    } else {
        assert(a.skip(0) =~= a);
        assert(b.skip(0) =~= b);
    }
}

/// Whether `a` is at or before `b` in code-point order.
pub fn str_le(a: &str, b: &str) -> (r: bool)
    ensures
        r == lex_le(a@, b@),
{
    let alen: usize = a.unicode_len();
    let blen: usize = b.unicode_len();
    let mut i: usize = 0;
    while i < alen && i < blen
        invariant
            i <= alen,
            i <= blen,
            alen == a@.len(),
            blen == b@.len(),
            forall|j: int| 0 <= j < i ==> a@[j] == b@[j],
        decreases alen - i,
    {
        let ca = a.get_char(i);
        let cb = b.get_char(i);
        if ca != cb {
            proof {
                lemma_lex_le_skip(a@, b@, i as int);
                assert(a@.skip(i as int)[0] == a@[i as int]);
                assert(b@.skip(i as int)[0] == b@[i as int]);
            }
            proof {
                vstd::utf8::char_is_scalar(ca);
                vstd::utf8::char_is_scalar(cb);
            }
            return (ca as u32) < (cb as u32);
        }
        i = i + 1;
    }
    proof {
        lemma_lex_le_skip(a@, b@, i as int);
        if i == alen {
            assert(a@.skip(i as int).len() == 0);
        } else {
            assert(b@.skip(i as int).len() == 0);
            assert(a@.skip(i as int).len() > 0);
        }
    }
    alen <= blen
}

/// Exact equality of two string slices.
pub fn str_eq(a: &str, b: &str) -> (r: bool)
    ensures
        r == (a@ == b@),
{
    let alen: usize = a.unicode_len();
    let blen: usize = b.unicode_len();
    if alen != blen {
        return false;
    }
    let mut i: usize = 0;
    while i < alen
        invariant
            i <= alen,
            alen == a@.len(),
            blen == b@.len(),
            alen == blen,
            forall|j: int| 0 <= j < i ==> a@[j] == b@[j],
        decreases alen - i,
    {
        if a.get_char(i) != b.get_char(i) {
            return false;
        }
        i = i + 1;
    }
    proof {
        assert(a@ =~= b@);
    }
    true
}

/// Whether `p` is a prefix of `s` up to ASCII case.
pub fn starts_with_ci(s: &str, p: &str) -> (r: bool)
    ensures
        r == prefix_ci(s@, p@),
{
    let slen: usize = s.unicode_len();
    let plen: usize = p.unicode_len();
    if plen > slen {
        return false;
    }
    let mut i: usize = 0;
    while i < plen
        invariant
            i <= plen,
            plen <= slen,
            slen == s@.len(),
            plen == p@.len(),
            forall|j: int| 0 <= j < i ==> ascii_eq_ci(s@[j], p@[j]),
        decreases plen - i,
    {
        let sc = s.get_char(i);
        let pc = p.get_char(i);
        let sl = ascii_lower_exec(sc);
        let pl = ascii_lower_exec(pc);
        if sl != pl {
            return false;
        }
        i = i + 1;
    }
    true
}

/// ASCII lower-casing of a single character.
fn ascii_lower_exec(c: char) -> (r: char)
    ensures
        r == ascii_lower(c),
{
    if 'A' <= c && c <= 'Z' {
        proof {
            vstd::utf8::char_is_scalar(c);
        }
        (((c as u8) + 32) as char)
    } else {
        c
    }
}

/// Whether `needle` occurs inside `hay`.
pub fn str_contains(hay: &str, needle: &str) -> (r: bool)
    ensures
        r == contains_seq(hay@, needle@),
{
    let hlen: usize = hay.unicode_len();
    let nlen: usize = needle.unicode_len();
    if nlen > hlen {
        return false;
    }
    if nlen == 0 {
        proof {
            assert(hay@.subrange(0, 0 + needle@.len() as int) =~= needle@);
        }
        return true;
    }
    let mut i: usize = 0;
    while i <= hlen - nlen
        invariant
            1 <= nlen <= hlen,
            hlen == hay@.len(),
            nlen == needle@.len(),
            forall|k: int|
                0 <= k < i ==> #[trigger] hay@.subrange(k, k + needle@.len()) != needle@,
        decreases hlen + 1 - nlen - i,
    {
        let ghost sub = hay@.subrange(i as int, i + needle@.len());
        let mut j: usize = 0;
        let mut matches: bool = true;
        while j < nlen
            invariant
                i + nlen <= hlen,
                hlen == hay@.len(),
                nlen == needle@.len(),
                j <= nlen,
                sub == hay@.subrange(i as int, i + needle@.len()),
                matches ==> forall|m: int| 0 <= m < j ==> hay@[i + m] == needle@[m],
                !matches ==> sub != needle@,
            decreases nlen - j,
        {
            if hay.get_char(i + j) != needle.get_char(j) {
                proof {
                    assert(sub[j as int] == hay@[i + j]);
                }
                matches = false;
                j = nlen;
            } else {
                j = j + 1;
            }
        }
        if matches {
            proof {
                assert(sub =~= needle@);
            }
            return true;
        }
        i = i + 1;
    }
    proof {
        if contains_seq(hay@, needle@) {
            let w = choose|w: int|
                0 <= w && w + needle@.len() <= hay@.len() && #[trigger] hay@.subrange(
                    w,
                    w + needle@.len(),
                ) == needle@;
            assert(hay@.subrange(w, w + needle@.len()) != needle@);
        }
    }
    false
}

/// The tokens of `s` split at `sep`, as borrowed slices.
pub fn split_str<'a>(s: &'a str, sep: char) -> (r: Vec<&'a str>)
    ensures
        r.deep_view() == split_by(s@, sep),
{
    let len: usize = s.unicode_len();
    let mut out: Vec<&'a str> = Vec::new();
    let mut start: usize = 0;
    let mut i: usize = 0;
    proof {
        assert(s@.skip(0) =~= s@);
        assert(out.deep_view() =~= Seq::<Seq<char>>::empty());
        assert(out.deep_view() + split_by(s@.skip(0), sep) =~= split_by(s@, sep));
    }
    while i < len
        invariant
            start <= i <= len,
            len == s@.len(),
            forall|j: int| start <= j < i ==> s@[j] != sep,
            split_by(s@, sep) =~= out.deep_view() + split_by(s@.skip(start as int), sep),
        decreases len - i,
    {
        if s.get_char(i) == sep {
            let ghost prev = out.deep_view();
            let tok = s.substring_char(start, i);
            proof {
                let suf = s@.skip(start as int);
                assert(forall|j: int| 0 <= j < i - start ==> suf[j] == s@[start + j]);
                assert(suf[i - start] == s@[i as int]);
                lemma_first_index_is(suf, sep, i - start);
                assert(suf.take(i - start) =~= tok@);
                assert(suf.skip(i - start + 1) =~= s@.skip(i + 1));
            }
            out.push(tok);
            proof {
                assert(out.deep_view() =~= prev.push(tok@));
                assert(prev.push(tok@) + split_by(s@.skip(i + 1), sep) =~= prev + (seq![tok@]
                    + split_by(s@.skip(i + 1), sep)));
            }
            start = i + 1;
        }
        i = i + 1;
    }
    let ghost prev = out.deep_view();
    let tok = s.substring_char(start, len);
    proof {
        let suf = s@.skip(start as int);
        assert(forall|j: int| 0 <= j < suf.len() ==> suf[j] == s@[start + j]);
        lemma_first_index_none(suf, sep);
        assert(suf =~= tok@);
        assert(split_by(s@.skip(start as int), sep) == seq![tok@]);
    }
    out.push(tok);
    proof {
        assert(out.deep_view() =~= prev.push(tok@));
        assert(prev.push(tok@) =~= prev + seq![tok@]);
    }
    out
}

pub proof fn lemma_join_take_step(ts: Seq<Seq<char>>, sep: Seq<char>, k: int)
    requires
        1 <= k < ts.len(),
    ensures
        join_with(ts.take(k + 1), sep) == join_with(ts.take(k), sep) + sep + ts[k],
    decreases k,
{
    let a = ts.take(k + 1);
    let b = ts.take(k);
    if k == 1 {
        assert(a.len() == 2);
        assert(join_with(a, sep) == a[0] + sep + join_with(a.drop_first(), sep));
        assert(a.drop_first() =~= seq![ts[1]]);
        assert(join_with(seq![ts[1]], sep) == ts[1]);
        assert(b.len() == 1);
        assert(join_with(b, sep) == b[0]);
        assert(a[0] == ts[0] && b[0] == ts[0]);
    } else {
        lemma_join_take_step(ts.drop_first(), sep, k - 1);
        assert(a.len() == k + 1 && b.len() == k);
        assert(join_with(a, sep) == a[0] + sep + join_with(a.drop_first(), sep));
        assert(join_with(b, sep) == b[0] + sep + join_with(b.drop_first(), sep));
        assert(a.drop_first() =~= ts.drop_first().take(k));
        assert(b.drop_first() =~= ts.drop_first().take(k - 1));
        assert(ts.drop_first()[k - 1] == ts[k]);
        assert(a[0] == ts[0] && b[0] == ts[0]);
    }
}

/// Tokens `v[from..to]` joined with separator `sep`.
pub fn join_range(v: &Vec<&str>, from: usize, to: usize, sep: &str) -> (r: String)
    requires
        from <= to <= v.len(),
    ensures
        r@ == join_with(v.deep_view().subrange(from as int, to as int), sep@),
{
    let ghost ts = v.deep_view().subrange(from as int, to as int);
    let mut out = String::new();
    if from == to {
        proof {
            assert(out@ =~= join_with(ts, sep@));
        }
        return out;
    }
    out.append(v[from]);
    proof {
        assert(ts.take(1) =~= seq![ts[0]]);
        assert(ts[0] == v.deep_view()[from as int]);
        assert(out@ =~= join_with(ts.take(1), sep@));
    }
    let mut k: usize = from + 1;
    while k < to
        invariant
            from < k <= to <= v.len(),
            ts == v.deep_view().subrange(from as int, to as int),
            ts.len() == to - from,
            out@ == join_with(ts.take(k - from), sep@),
        decreases to - k,
    {
        out.append(sep);
        out.append(v[k]);
        proof {
            lemma_join_take_step(ts, sep@, k - from);
            assert(ts[k - from] == v.deep_view()[k as int]);
        }
        k = k + 1;
    }
    proof {
        assert(ts.take(to - from) =~= ts);
    }
    out
}

} // verus!
