//! Character-level text helpers: splitting on a marker character,
//! prefix and suffix tests, and equality of string slices.
use vstd::prelude::*;
use vstd::string::*;

verus! {

/// Index of the first occurrence of `m` in `s`, or `s.len()` if there is none.
pub open spec fn first_marker(s: Seq<char>, m: char) -> int
    decreases s.len(),
{
    if s.len() == 0 {
        0
    } else if s[0] == m {
        0
    } else {
        1 + first_marker(s.drop_first(), m)
    }
}

/// `s` split at every occurrence of `m`, the marker removed: one segment
/// more than there are markers, empty segments kept.
pub open spec fn split_on(s: Seq<char>, m: char) -> Seq<Seq<char>>
    decreases s.len(),
{
    let i = first_marker(s, m);
    if 0 <= i < s.len() {
        seq![s.subrange(0, i)] + split_on(s.skip(i + 1), m)
    } else {
        seq![s]
    }
}

pub open spec fn spec_has_prefix(s: Seq<char>, p: Seq<char>) -> bool {
    s.len() >= p.len() && s.subrange(0, p.len() as int) == p
}

pub open spec fn spec_has_suffix(s: Seq<char>, p: Seq<char>) -> bool {
    s.len() >= p.len() && s.subrange(s.len() - p.len(), s.len() as int) == p
}

proof fn lemma_first_marker(s: Seq<char>, m: char, k: int)
    requires
        0 <= k <= s.len(),
        forall|j: int| 0 <= j < k ==> s[j] != m,
        k < s.len() ==> s[k] == m,
    ensures
        first_marker(s, m) == k,
    decreases s.len(),
{
    if s.len() == 0 {
    } else if s[0] == m {
        assert(k == 0);
    } else {
        assert(forall|j: int| 0 <= j < k - 1 ==> s.drop_first()[j] == s[j + 1]);
        lemma_first_marker(s.drop_first(), m, k - 1);
    }
}

/// Where the first `k` characters avoid `m`, the split is pinned down:
/// either `m` stands at `k` and the first segment ends there, or `k` is
/// the end of `s` and `s` is the one segment.
proof fn lemma_split_on_at(s: Seq<char>, m: char, k: int)
    requires
        0 <= k <= s.len(),
        forall|j: int| 0 <= j < k ==> s[j] != m,
        k < s.len() ==> s[k] == m,
    ensures
        k < s.len() ==> split_on(s, m) == seq![s.subrange(0, k)] + split_on(s.skip(k + 1), m),
        k == s.len() ==> split_on(s, m) == seq![s],
{
    lemma_first_marker(s, m, k);
}

/// `l` with one trailing carriage return removed, if it ends in one.
pub open spec fn strip_cr(l: Seq<char>) -> Seq<char> {
    if l.len() > 0 && l.last() == '\r' {
        l.drop_last()
    } else {
        l
    }
}

/// The lines of `s`: split at every newline, a carriage return before a
/// newline removed, and a final line ending optional, as with
/// `str::lines`.
pub open spec fn spec_lines(s: Seq<char>) -> Seq<Seq<char>> {
    let segs = split_on(s, '\n');
    let body = segs.subrange(0, segs.len() - 1).map_values(|l: Seq<char>| strip_cr(l));
    if segs.last().len() == 0 {
        body
    } else {
        body.push(segs.last())
    }
}

/// Whether two string slices hold the same characters.
pub(crate) fn str_eq(a: &str, b: &str) -> (r: bool)
    ensures
        r == (a@ == b@),
{
    let an = a.unicode_len();
    let bn = b.unicode_len();
    if an != bn {
        return false;
    }
    let mut i: usize = 0;
    while i < an
        invariant
            an == a@.len(),
            bn == b@.len(),
            an == bn,
            i <= an,
            forall|j: int| 0 <= j < i ==> a@[j] == b@[j],
        decreases an - i,
    {
        if a.get_char(i) != b.get_char(i) {
            return false;
        }
        i += 1;
    }
    proof {
        assert(a@ =~= b@);
    }
    true
}

/// Whether `s` begins with the characters of `p`.
pub(crate) fn has_prefix(s: &str, p: &str) -> (r: bool)
    ensures
        r == spec_has_prefix(s@, p@),
{
    let sn = s.unicode_len();
    let pn = p.unicode_len();
    if sn < pn {
        return false;
    }
    let mut i: usize = 0;
    while i < pn
        invariant
            sn == s@.len(),
            pn == p@.len(),
            pn <= sn,
            i <= pn,
            forall|j: int| 0 <= j < i ==> s@[j] == p@[j],
        decreases pn - i,
    {
        if s.get_char(i) != p.get_char(i) {
            proof {
                assert(s@.subrange(0, pn as int)[i as int] != p@[i as int]);
            }
            return false;
        }
        i += 1;
    }
    proof {
        assert(s@.subrange(0, pn as int) =~= p@);
    }
    true
}

/// Whether `s` ends with the characters of `p`.
pub(crate) fn has_suffix(s: &str, p: &str) -> (r: bool)
    ensures
        r == spec_has_suffix(s@, p@),
{
    let sn = s.unicode_len();
    let pn = p.unicode_len();
    if sn < pn {
        return false;
    }
    let off = sn - pn;
    let mut i: usize = 0;
    while i < pn
        invariant
            sn == s@.len(),
            pn == p@.len(),
            pn <= sn,
            off == sn - pn,
            i <= pn,
            forall|j: int| 0 <= j < i ==> s@[off + j] == p@[j],
        decreases pn - i,
    {
        if s.get_char(off + i) != p.get_char(i) {
            proof {
                assert(s@.subrange(off as int, sn as int)[i as int] != p@[i as int]);
            }
            return false;
        }
        i += 1;
    }
    proof {
        assert(s@.subrange(off as int, sn as int) =~= p@);
    }
    true
}

/// The characters of `s` from position `k` on, as an owned string.
pub(crate) fn tail_from(s: &str, k: usize) -> (r: String)
    requires
        k <= s@.len(),
    ensures
        r@ == s@.skip(k as int),
{
    let n = s.unicode_len();
    let t = s.substring_char(k, n);
    proof {
        assert(t@ =~= s@.skip(k as int));
    }
    String::from_str(t)
}

/// The characters of `line` after the prefix `p`, or `None` where `line`
/// does not begin with `p`.
pub(crate) fn match_prefix(line: &str, p: &str) -> (r: Option<String>)
    ensures
        r is Some <==> spec_has_prefix(line@, p@),
        r is Some ==> r->0@ == line@.skip(p@.len() as int),
{
    if has_prefix(line, p) {
        Some(tail_from(line, p.unicode_len()))
    } else {
        None
    }
}

/// `s` split at every occurrence of `m`.
pub(crate) fn split_chars(s: &str, m: char) -> (r: Vec<String>)
    ensures
        r.deep_view() == split_on(s@, m),
{
    let n = s.unicode_len();
    let mut out: Vec<String> = Vec::new();
    let mut start: usize = 0;
    let mut i: usize = 0;
    proof {
        assert(s@.skip(0) =~= s@);
        assert(out.deep_view() + split_on(s@.skip(0), m) =~= split_on(s@, m));
    }
    while i < n
        invariant
            n == s@.len(),
            start <= i <= n,
            forall|j: int| start <= j < i ==> s@[j] != m,
            split_on(s@, m) == out.deep_view() + split_on(s@.skip(start as int), m),
        decreases n - i,
    {
        if s.get_char(i) == m {
            let tok = s.substring_char(start, i);
            proof {
                let rest = s@.skip(start as int);
                assert(forall|j: int| 0 <= j < i - start ==> rest[j] == s@[start + j]);
                lemma_split_on_at(rest, m, i - start);
                assert(rest.subrange(0, i - start) =~= tok@);
                assert(rest.skip(i - start + 1) =~= s@.skip(i + 1));
                assert(split_on(rest, m) == seq![tok@] + split_on(s@.skip(i + 1), m));
            }
            let ghost old_out = out.deep_view();
            out.push(String::from_str(tok));
            proof {
                assert(out.deep_view() =~= old_out.push(tok@));
                assert(out.deep_view() + split_on(s@.skip(i + 1), m) =~= (old_out + split_on(
                    s@.skip(start as int),
                    m,
                )));
            }
            start = i + 1;
        }
        i += 1;
    }
    let tok = s.substring_char(start, n);
    proof {
        let rest = s@.skip(start as int);
        assert(forall|j: int| 0 <= j < n - start ==> rest[j] == s@[start + j]);
        lemma_split_on_at(rest, m, n - start);
        assert(rest =~= tok@);
    }
    let ghost old_out = out.deep_view();
    out.push(String::from_str(tok));
    proof {
        assert(out.deep_view() =~= old_out.push(tok@));
        assert(out.deep_view() =~= split_on(s@, m));
    }
    out
}

/// `l` with one trailing carriage return removed, per [`strip_cr`].
fn strip_cr_exec(l: &str) -> (r: String)
    ensures
        r@ == strip_cr(l@),
{
    let n = l.unicode_len();
    if n > 0 && l.get_char(n - 1) == '\r' {
        let t = l.substring_char(0, n - 1);
        proof {
            assert(t@ =~= l@.drop_last());
        }
        String::from_str(t)
    } else {
        String::from_str(l)
    }
}

/// The lines of `s`, per [`spec_lines`].
pub(crate) fn split_lines(s: &str) -> (r: Vec<String>)
    ensures
        r.deep_view() == spec_lines(s@),
{
    let segs = split_chars(s, '\n');
    let ghost segsv = segs.deep_view();
    proof {
        assert(segsv.len() >= 1);
    }
    let ghost body = segsv.subrange(0, segsv.len() - 1).map_values(|l: Seq<char>| strip_cr(l));
    let mut out: Vec<String> = Vec::new();
    let mut i: usize = 0;
    proof {
        assert(out.deep_view() =~= body.subrange(0, 0));
    }
    while i < segs.len() - 1
        invariant
            segsv == segs.deep_view(),
            segsv.len() == segs@.len(),
            segsv.len() >= 1,
            i <= segsv.len() - 1,
            body == segsv.subrange(0, segsv.len() - 1).map_values(|l: Seq<char>| strip_cr(l)),
            out.deep_view() == body.subrange(0, i as int),
        decreases segs.len() - i,
    {
        let ghost old_out = out.deep_view();
        out.push(strip_cr_exec(segs[i].as_str()));
        proof {
            assert(segsv[i as int] == segs[i as int]@);
            assert(out.deep_view() =~= old_out.push(strip_cr(segsv[i as int])));
            assert(out.deep_view() =~= body.subrange(0, i + 1));
        }
        i += 1;
    }
    proof {
        assert(i == segsv.len() - 1);
        assert(out.deep_view() =~= body);
    }
    let last = &segs[segs.len() - 1];
    if last.as_str().unicode_len() > 0 {
        let ghost old_out = out.deep_view();
        out.push(last.clone());
        proof {
            assert(segsv.last() == segs[segsv.len() - 1]@);
            assert(out.deep_view() =~= old_out.push(segsv.last()));
        }
    }
    proof {
        assert(out.deep_view() =~= spec_lines(s@));
    }
    out
}

} // verus!
