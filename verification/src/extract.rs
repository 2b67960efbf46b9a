use vstd::prelude::*;
use vstd::string::*;

use crate::LibError;
use crate::scan::{Pat, find_pat, lemma_pat_find, pat_find, pat_len};

verus! {

pub const DL_VAR: &'static str = "downloadUrl";

pub const DL_EQ: &'static str = "=";

pub const DL_QUOTE: &'static str = "\"";

pub const DL_END: &'static str = "\";";

pub const AMP: &'static str = "amp;";

/// The raw download url a detail page embeds: the text between the fixed
/// `downloadUrl = "` script assignment and the closing `";`, if both are
/// present in that order.
pub open spec fn extract_raw(h: Seq<char>) -> Option<Seq<char>> {
    let p = Pat::LitWsLitWsLit(DL_VAR, DL_EQ, DL_QUOTE);
    match pat_find(p, h, 0) {
        None => None,
        Some(i) => {
            let start = i + pat_len(p);
            match pat_find(Pat::Lit(DL_END), h, start + 1) {
                None => None,
                Some(j) => Some(h.subrange(start, j)),
            }
        },
    }
}

/// The text from `pos` to the end of `h`, with every occurrence of the
/// entity remnant `amp;` removed, scanning left to right.
pub open spec fn amp_removed(h: Seq<char>, pos: int) -> Seq<char>
    decreases h.len() - pos,
    via amp_removed_decreases
{
    match pat_find(Pat::Lit(AMP), h, pos) {
        None => if 0 <= pos <= h.len() {
            h.subrange(pos, h.len() as int)
        } else {
            Seq::empty()
        },
        Some(i) => h.subrange(pos, i) + amp_removed(h, i + AMP@.len()),
    }
}

#[via_fn]
proof fn amp_removed_decreases(h: Seq<char>, pos: int) {
    reveal_strlit("amp;");
    if pat_find(Pat::Lit(AMP), h, pos) is Some {
        lemma_pat_find(Pat::Lit(AMP), h, pos);
    }
}

/// The download url a detail page resolves to: the embedded assignment's
/// value with its `amp;` remnants removed, or nothing when the assignment
/// is absent.
pub open spec fn download_url_of(h: Seq<char>) -> Option<Seq<char>> {
    match extract_raw(h) {
        None => None,
        Some(raw) => Some(amp_removed(raw, 0)),
    }
}

/// Remove every occurrence of `amp;` from `s`, left to right.
fn remove_amp(s: &str) -> (r: String)
    ensures
        r@ == amp_removed(s@, 0),
{
    proof {
        reveal_strlit("amp;");
    }
    let n = s.unicode_len();
    let mut out = String::new();
    let mut pos: usize = 0;
    loop
        invariant
            pos <= n,
            n == s@.len(),
            out@ + amp_removed(s@, pos as int) == amp_removed(s@, 0),
        decreases n - pos,
    {
        proof {
            reveal_strlit("amp;");
        }
        match find_pat(s, &Pat::Lit(AMP), pos) {
            None => {
                let rest = s.substring_char(pos, n);
                let res = out.concat(rest);
                assert(res@ == amp_removed(s@, 0));
                return res;
            },
            Some(i) => {
                proof {
                    lemma_pat_find(Pat::Lit(AMP), s@, pos as int);
                }
                let piece = s.substring_char(pos, i);
                let ghost out0 = out@;
                out.append(piece);
                proof {
                    assert(out@ + amp_removed(s@, i + 4) =~= out0 + (s@.subrange(
                        pos as int,
                        i as int,
                    ) + amp_removed(s@, i + 4)));
                }
                pos = i + 4;
            },
        }
    }
}

/// Extract the final download url from a detail page's text: find the fixed
/// script assignment, take its quoted value, and strip the `amp;` entity
/// remnants. A page without the assignment reports `NotFound`.
pub fn extract_download_url(html: &str) -> (r: Result<String, LibError>)
    ensures
        r is Ok <==> download_url_of(html@) is Some,
        r matches Ok(u) ==> Some(u@) == download_url_of(html@),
        r is Err ==> r == Err::<String, LibError>(LibError::NotFound),
{
    proof {
        reveal_strlit("downloadUrl");
        reveal_strlit("=");
        reveal_strlit("\"");
        reveal_strlit("\";");
    }
    // The count pins html@.len() within address space for the scans below.
    let n = html.unicode_len();
    let p = Pat::LitWsLitWsLit(DL_VAR, DL_EQ, DL_QUOTE);
    match find_pat(html, &p, 0) {
        None => Err(LibError::NotFound),
        Some(i) => {
            proof {
                lemma_pat_find(p, html@, 0);
            }
            let start = i + 15;
            match start.checked_add(1) {
                None => Err(LibError::NotFound),
                Some(next) => match find_pat(html, &Pat::Lit(DL_END), next) {
                    None => Err(LibError::NotFound),
                    Some(j) => {
                        proof {
                            lemma_pat_find(Pat::Lit(DL_END), html@, next as int);
                        }
                        let raw = html.substring_char(start, j);
                        let url = remove_amp(raw);
                        Ok(url)
                    },
                },
            }
        },
    }
}

} // verus!
