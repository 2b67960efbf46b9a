use vstd::prelude::*;
use vstd::string::*;

verus! {

/// One whitespace character, as the markup patterns accept it between two
/// fixed tokens: the ASCII whitespace characters together with the Unicode
/// ones (next line, no-break space, ogham space mark, the en-quad..hair
/// space run, the line and paragraph separators, narrow no-break space,
/// medium mathematical space, ideographic space).
pub open spec fn is_ws(c: char) -> bool {
    c == ' ' || c == '\t' || c == '\n' || c == '\r' || c == '\u{b}' || c == '\u{c}' || c
        == '\u{85}' || c == '\u{a0}' || c == '\u{1680}' || (0x2000 <= c as u32 && c as u32
        <= 0x200a) || c == '\u{2028}' || c == '\u{2029}' || c == '\u{202f}' || c == '\u{205f}'
        || c == '\u{3000}'
}

fn ws_char(c: char) -> (b: bool)
    ensures
        b == is_ws(c),
{
    c == ' ' || c == '\t' || c == '\n' || c == '\r' || c == '\u{b}' || c == '\u{c}' || c
        == '\u{85}' || c == '\u{a0}' || c == '\u{1680}' || (0x2000 <= c as u32 && c as u32
        <= 0x200a) || c == '\u{2028}' || c == '\u{2029}' || c == '\u{202f}' || c == '\u{205f}'
        || c == '\u{3000}'
}

/// A scanning pattern over a page's text: one, two or three fixed literal
/// pieces, each adjacent pair separated by exactly one whitespace character.
#[derive(Clone, Copy)]
pub enum Pat<'a> {
    Lit(&'a str),
    LitWsLit(&'a str, &'a str),
    LitWsLitWsLit(&'a str, &'a str, &'a str),
}

/// The number of characters a pattern occupies where it matches.
pub open spec fn pat_len<'a>(p: Pat<'a>) -> int {
    match p {
        Pat::Lit(l) => l@.len() as int,
        Pat::LitWsLit(a, b) => a@.len() + 1 + b@.len() as int,
        Pat::LitWsLitWsLit(a, b, c) => a@.len() + 1 + b@.len() + 1 + c@.len() as int,
    }
}

/// The literal `l` stands in `h` at position `i`.
pub open spec fn lit_at(h: Seq<char>, l: Seq<char>, i: int) -> bool {
    0 <= i && i + l.len() <= h.len() && h.subrange(i, i + l.len() as int) == l
}

/// The pattern `p` matches in `h` at position `i`.
pub open spec fn pat_at<'a>(p: Pat<'a>, h: Seq<char>, i: int) -> bool {
    match p {
        Pat::Lit(l) => lit_at(h, l@, i),
        Pat::LitWsLit(a, b) => lit_at(h, a@, i) && lit_at(h, b@, i + a@.len() + 1) && is_ws(
            h[i + a@.len()],
        ),
        Pat::LitWsLitWsLit(a, b, c) => lit_at(h, a@, i) && lit_at(h, b@, i + a@.len() + 1)
            && lit_at(h, c@, i + a@.len() + 1 + b@.len() + 1) && is_ws(h[i + a@.len()]) && is_ws(
            h[i + a@.len() + 1 + b@.len()],
        ),
    }
}

/// The position of the first match of `p` in `h` at or after `from`, if any.
pub open spec fn pat_find<'a>(p: Pat<'a>, h: Seq<char>, from: int) -> Option<int>
    decreases h.len() - from,
{
    if from < 0 || from + pat_len(p) > h.len() {
        None
    } else if pat_at(p, h, from) {
        Some(from)
    } else if from + pat_len(p) == h.len() {
        None
    } else {
        pat_find(p, h, from + 1)
    }
}

/// What `pat_find` returns: the first match at or after `from`, with every
/// earlier position ruled out, or `None` when no position matches at all.
pub proof fn lemma_pat_find<'a>(p: Pat<'a>, h: Seq<char>, from: int)
    requires
        0 <= from,
    ensures
        match pat_find(p, h, from) {
            Some(i) => from <= i && 0 <= i && i + pat_len(p) <= h.len() && pat_at(p, h, i)
                && (forall|j: int| from <= j < i ==> !pat_at(p, h, j)),
            None => forall|j: int| from <= j ==> !pat_at(p, h, j),
        },
    decreases h.len() - from,
{
    if from + pat_len(p) > h.len() {
        assert forall|j: int| from <= j implies !pat_at(p, h, j) by {
            assert(j + pat_len(p) > h.len());
        }
    } else if pat_at(p, h, from) {
    } else if from + pat_len(p) == h.len() {
        assert forall|j: int| from <= j implies !pat_at(p, h, j) by {
            if j > from {
                assert(j + pat_len(p) > h.len());
            }
        }
    } else {
        lemma_pat_find(p, h, from + 1);
    }
}

/// The literal `l` compared against `h` at position `i`.
pub(crate) fn range_is(h: &str, i: usize, l: &str) -> (b: bool)
    requires
        i + l@.len() <= h@.len(),
        h@.len() <= usize::MAX,
    ensures
        b == lit_at(h@, l@, i as int),
{
    let n = l.unicode_len();
    let mut j: usize = 0;
    while j < n
        invariant
            j <= n,
            n == l@.len(),
            i + n <= h@.len(),
            h@.len() <= usize::MAX,
            forall|k: int| 0 <= k < j ==> h@[i + k] == l@[k],
        decreases n - j,
    {
        if h.get_char(i + j) != l.get_char(j) {
            assert(h@.subrange(i as int, i + l@.len()) != l@) by {
                assert(h@.subrange(i as int, i + l@.len())[j as int] == h@[i + j]);
            }
            return false;
        }
        j += 1;
    }
    assert(h@.subrange(i as int, i + l@.len()) =~= l@);
    true
}

fn pat_len_exec<'a>(p: &Pat<'a>) -> (n: usize)
    requires
        pat_len(*p) <= usize::MAX,
    ensures
        n as int == pat_len(*p),
{
    match p {
        Pat::Lit(l) => l.unicode_len(),
        Pat::LitWsLit(a, b) => a.unicode_len() + 1 + b.unicode_len(),
        Pat::LitWsLitWsLit(a, b, c) => a.unicode_len() + 1 + b.unicode_len() + 1
            + c.unicode_len(),
    }
}

fn pat_check<'a>(p: &Pat<'a>, h: &str, i: usize) -> (b: bool)
    requires
        i + pat_len(*p) <= h@.len(),
        h@.len() <= usize::MAX,
    ensures
        b == pat_at(*p, h@, i as int),
{
    match p {
        Pat::Lit(l) => range_is(h, i, l),
        Pat::LitWsLit(a, b) => {
            let la = a.unicode_len();
            range_is(h, i, a) && range_is(h, i + la + 1, b) && ws_char(h.get_char(i + la))
        },
        Pat::LitWsLitWsLit(a, b, c) => {
            let la = a.unicode_len();
            let lb = b.unicode_len();
            range_is(h, i, a) && range_is(h, i + la + 1, b) && range_is(
                h,
                i + la + 1 + lb + 1,
                c,
            ) && ws_char(h.get_char(i + la)) && ws_char(h.get_char(i + la + 1 + lb))
        },
    }
}

/// Scan `h` from position `from` for the first match of `p`.
pub fn find_pat<'a>(h: &str, p: &Pat<'a>, from: usize) -> (r: Option<usize>)
    requires
        pat_len(*p) <= usize::MAX,
    ensures
        match r {
            Some(i) => pat_find(*p, h@, from as int) == Some(i as int),
            None => pat_find(*p, h@, from as int) is None,
        },
{
    let n = h.unicode_len();
    let plen = pat_len_exec(p);
    if from > n || plen > n - from {
        return None;
    }
    let mut i: usize = from;
    loop
        invariant
            from <= i,
            i + plen <= n,
            n == h@.len(),
            plen == pat_len(*p),
            pat_find(*p, h@, from as int) == pat_find(*p, h@, i as int),
        decreases n - i,
    {
        if pat_check(p, h, i) {
            assert(pat_find(*p, h@, i as int) == Some(i as int));
            return Some(i);
        }
        if i + plen == n {
            assert(pat_find(*p, h@, i as int) is None);
            return None;
        }
        i += 1;
    }
}

/// Scan `h` for the first match of `p` at or after `from + 1`, guarding the
/// step past `from` against address-space exhaustion.
pub fn find_pat_after<'a>(h: &str, p: &Pat<'a>, from: usize) -> (r: Option<usize>)
    requires
        pat_len(*p) <= usize::MAX,
    ensures
        match r {
            Some(i) => pat_find(*p, h@, from as int + 1) == Some(i as int),
            None => pat_find(*p, h@, from as int + 1) is None,
        },
{
    match from.checked_add(1) {
        None => {
            // The count pins h@.len() within address space: past usize::MAX
            // nothing can match.
            let n = h.unicode_len();
            assert(pat_find(*p, h@, from as int + 1) is None);
            None
        },
        Some(f) => find_pat(h, p, f),
    }
}

/// `suf` stands at the very end of `s`.
pub open spec fn ends_with(s: Seq<char>, suf: Seq<char>) -> bool {
    suf.len() <= s.len() && s.subrange(s.len() - suf.len(), s.len() as int) == suf
}

/// Whether `s` ends with the suffix `suf`.
pub fn str_ends_with(s: &str, suf: &str) -> (b: bool)
    ensures
        b == ends_with(s@, suf@),
{
    let n = s.unicode_len();
    let m = suf.unicode_len();
    if m > n {
        return false;
    }
    range_is(s, n - m, suf)
}

} // verus!
