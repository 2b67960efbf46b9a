use vstd::prelude::*;
use vstd::string::*;

use crate::LibError;
use crate::dll::Architecture;
use crate::scan::{Pat, find_pat, find_pat_after, lemma_pat_find, pat_find, pat_len, range_is};

verus! {

pub const BASE_URL: &'static str = "https://cn.dll-files.com";

pub const NOT_FOUND_MARKER: &'static str = "error-404";

pub const SECTION_OPEN: &'static str = "<section class=\"file-info-grid\"";

pub const SECTION_CLOSE: &'static str = "</section>";

pub const META_OPEN_DIV: &'static str = "<div";

pub const META_OPEN_CLASS: &'static str = "class=\"right-pane\"";

pub const META_CLOSE: &'static str = "</div>";

pub const P_OPEN: &'static str = "<p>";

pub const P_CLOSE: &'static str = "</p>";

pub const HREF_OPEN: &'static str = "<a href=\"";

pub const HREF_END_QUOTE: &'static str = "\"";

pub const HREF_END_MARKER: &'static str = "data-ga-action";

pub const ARCH_32: &'static str = "32";

pub const ARCH_64: &'static str = "64";

/// Whether a listing page's body carries the fixed marker of a page that
/// does not exist.
pub open spec fn page_missing(h: Seq<char>) -> bool {
    pat_find(Pat::Lit(NOT_FOUND_MARKER), h, 0) is Some
}

/// The next per-file section block of a listing page at or after `pos`: the
/// text from the fixed section-open tag through the first section-close tag
/// that leaves room for at least one character between them, paired with the
/// position scanning resumes at.
pub open spec fn next_section(h: Seq<char>, pos: int) -> Option<(Seq<char>, int)> {
    match pat_find(Pat::Lit(SECTION_OPEN), h, pos) {
        None => None,
        Some(a) => match pat_find(Pat::Lit(SECTION_CLOSE), h, a + SECTION_OPEN@.len() + 1) {
            None => None,
            Some(b) => Some(
                (h.subrange(a, b + SECTION_CLOSE@.len()), b + SECTION_CLOSE@.len() as int),
            ),
        },
    }
}

/// A section's meta block: from the first right-pane container tag through
/// the first closing tag after it.
pub open spec fn meta_block(sec: Seq<char>) -> Option<Seq<char>> {
    let p = Pat::LitWsLit(META_OPEN_DIV, META_OPEN_CLASS);
    match pat_find(p, sec, 0) {
        None => None,
        Some(d) => match pat_find(Pat::Lit(META_CLOSE), sec, d + pat_len(p) + 1) {
            None => None,
            Some(e) => Some(sec.subrange(d, e + META_CLOSE@.len())),
        },
    }
}

/// The second inline-text item of a block, which carries the architecture
/// tag, when the block has at least two such items.
pub open spec fn second_p(meta: Seq<char>) -> Option<Seq<char>> {
    match pat_find(Pat::Lit(P_OPEN), meta, 0) {
        None => None,
        Some(p1) => match pat_find(Pat::Lit(P_CLOSE), meta, p1 + P_OPEN@.len() + 1) {
            None => None,
            Some(q1) => match pat_find(Pat::Lit(P_OPEN), meta, q1 + P_CLOSE@.len()) {
                None => None,
                Some(p2) => match pat_find(Pat::Lit(P_CLOSE), meta, p2 + P_OPEN@.len() + 1) {
                    None => None,
                    Some(q2) => Some(meta.subrange(p2 + P_OPEN@.len(), q2)),
                },
            },
        },
    }
}

/// A section's relative detail-page href: the text between the first
/// anchor-open marker and the first closing quote that the fixed tracking
/// attribute follows, one whitespace character apart.
pub open spec fn href_of(sec: Seq<char>) -> Option<Seq<char>> {
    match pat_find(Pat::Lit(HREF_OPEN), sec, 0) {
        None => None,
        Some(a) => match pat_find(
            Pat::LitWsLit(HREF_END_QUOTE, HREF_END_MARKER),
            sec,
            a + HREF_OPEN@.len() + 1,
        ) {
            None => None,
            Some(t) => Some(sec.subrange(a + HREF_OPEN@.len(), t)),
        },
    }
}

/// What one section contributes: the architecture its meta block's second
/// inline item names and the absolute detail-page url built from its
/// anchor's relative href — provided that architecture's slot is still open.
/// A section without a meta block, a second inline item, a recognised tag or
/// an anchor contributes nothing, as does one whose slot is already filled.
pub open spec fn section_pick(sec: Seq<char>, have32: bool, have64: bool) -> Option<
    (Architecture, Seq<char>),
> {
    match meta_block(sec) {
        None => None,
        Some(meta) => match second_p(meta) {
            None => None,
            Some(tag) => if (tag == ARCH_32@ && have32) || (tag == ARCH_64@ && have64) {
                None
            } else {
                match href_of(sec) {
                    None => None,
                    Some(link) => if tag == ARCH_32@ {
                        Some((Architecture::X32, BASE_URL@ + link))
                    } else if tag == ARCH_64@ {
                        Some((Architecture::X64, BASE_URL@ + link))
                    } else {
                        None
                    },
                }
            },
        },
    }
}

/// Walk the listing page's sections in document order from `pos`, filling
/// the two architecture slots first match first, and stopping once both are
/// filled or no further section exists.
pub open spec fn resolve_from(
    h: Seq<char>,
    pos: int,
    x32: Option<Seq<char>>,
    x64: Option<Seq<char>>,
) -> (Option<Seq<char>>, Option<Seq<char>>)
    decreases h.len() - pos,
    via resolve_from_decreases
{
    if x32 is Some && x64 is Some {
        (x32, x64)
    } else {
        match next_section(h, pos) {
            None => (x32, x64),
            Some((sec, next)) => match section_pick(sec, x32 is Some, x64 is Some) {
                None => resolve_from(h, next, x32, x64),
                Some((arch, url)) => if arch == Architecture::X32 {
                    resolve_from(h, next, Some(url), x64)
                } else {
                    resolve_from(h, next, x32, Some(url))
                },
            },
        }
    }
}

#[via_fn]
proof fn resolve_from_decreases(
    h: Seq<char>,
    pos: int,
    x32: Option<Seq<char>>,
    x64: Option<Seq<char>>,
) {
    if !(x32 is Some && x64 is Some) && next_section(h, pos) is Some {
        match pat_find(Pat::Lit(SECTION_OPEN), h, pos) {
            None => {},
            Some(a) => {
                assert(pos >= 0) by {
                    if pos < 0 {
                        assert(pat_find(Pat::Lit(SECTION_OPEN), h, pos) is None);
                    }
                }
                lemma_pat_find(Pat::Lit(SECTION_OPEN), h, pos);
                match pat_find(Pat::Lit(SECTION_CLOSE), h, a + SECTION_OPEN@.len() + 1) {
                    None => {},
                    Some(b) => {
                        lemma_pat_find(Pat::Lit(SECTION_CLOSE), h, a + SECTION_OPEN@.len() + 1);
                    },
                }
            },
        }
    }
}

/// The two detail-page urls a listing page yields, one per architecture,
/// each slot filled by the first section in document order that names it.
pub open spec fn resolved_pages(h: Seq<char>) -> (Option<Seq<char>>, Option<Seq<char>>) {
    resolve_from(h, 0, None, None)
}

/// Law: once an architecture's slot is filled, no later section changes it —
/// the first match in document order wins and every later match for the same
/// architecture is ignored.
pub proof fn lemma_first_match_wins(
    h: Seq<char>,
    pos: int,
    x32: Option<Seq<char>>,
    x64: Option<Seq<char>>,
)
    ensures
        x32 is Some ==> resolve_from(h, pos, x32, x64).0 == x32,
        x64 is Some ==> resolve_from(h, pos, x32, x64).1 == x64,
    decreases h.len() - pos,
{
    if !(x32 is Some && x64 is Some) && next_section(h, pos) is Some {
        match pat_find(Pat::Lit(SECTION_OPEN), h, pos) {
            None => {},
            Some(a) => {
                assert(pos >= 0) by {
                    if pos < 0 {
                        assert(pat_find(Pat::Lit(SECTION_OPEN), h, pos) is None);
                    }
                }
                lemma_pat_find(Pat::Lit(SECTION_OPEN), h, pos);
                match pat_find(Pat::Lit(SECTION_CLOSE), h, a + SECTION_OPEN@.len() + 1) {
                    None => {},
                    Some(b) => {
                        lemma_pat_find(Pat::Lit(SECTION_CLOSE), h, a + SECTION_OPEN@.len() + 1);
                        let next = b + SECTION_CLOSE@.len() as int;
                        let sec = h.subrange(a, next);
                        match section_pick(sec, x32 is Some, x64 is Some) {
                            None => {
                                lemma_first_match_wins(h, next, x32, x64);
                            },
                            Some((arch, url)) => {
                                if arch == Architecture::X32 {
                                    lemma_first_match_wins(h, next, Some(url), x64);
                                } else {
                                    lemma_first_match_wins(h, next, x32, Some(url));
                                }
                            },
                        }
                    },
                }
            },
        }
    }
}

/// Law: the resolved pair does not depend on the document order of the
/// sections when their tags differ. For any page whose section stream is
/// exactly one section naming one architecture (with url `ua`) followed by
/// one naming the other (with url `ub`), each architecture's slot takes its
/// own section's url; swapping the two sections' order swaps only the roles
/// of `ua` and `ub`, so both orders resolve to the same pair.
pub proof fn lemma_order_independent(
    h: Seq<char>,
    sec_a: Seq<char>,
    p1: int,
    sec_b: Seq<char>,
    p2: int,
    arch_a: Architecture,
    arch_b: Architecture,
    ua: Seq<char>,
    ub: Seq<char>,
)
    requires
        next_section(h, 0) == Some((sec_a, p1)),
        next_section(h, p1) == Some((sec_b, p2)),
        next_section(h, p2) is None,
        arch_a != arch_b,
        arch_a == Architecture::X32 ==> forall|b: bool|
            #[trigger] section_pick(sec_a, false, b) == Some((Architecture::X32, ua)),
        arch_a == Architecture::X64 ==> forall|b: bool|
            #[trigger] section_pick(sec_a, b, false) == Some((Architecture::X64, ua)),
        arch_b == Architecture::X32 ==> forall|b: bool|
            #[trigger] section_pick(sec_b, false, b) == Some((Architecture::X32, ub)),
        arch_b == Architecture::X64 ==> forall|b: bool|
            #[trigger] section_pick(sec_b, b, false) == Some((Architecture::X64, ub)),
    ensures
        resolve_from(h, 0, None, None) == if arch_a == Architecture::X32 {
            (Some(ua), Some(ub))
        } else {
            (Some(ub), Some(ua))
        },
{
    if arch_a == Architecture::X32 {
        assert(section_pick(sec_a, false, false) == Some((Architecture::X32, ua)));
        assert(section_pick(sec_b, true, false) == Some((Architecture::X64, ub)));
        assert(resolve_from(h, 0, None, None) == resolve_from(h, p1, Some(ua), None));
        assert(resolve_from(h, p1, Some(ua), None) == resolve_from(h, p2, Some(ua), Some(ub)));
        assert(resolve_from(h, p2, Some(ua), Some(ub)) == (Some(ua), Some(ub)));
    } else {
        assert(section_pick(sec_a, false, false) == Some((Architecture::X64, ua)));
        assert(section_pick(sec_b, false, true) == Some((Architecture::X32, ub)));
        assert(resolve_from(h, 0, None, None) == resolve_from(h, p1, None, Some(ua)));
        assert(resolve_from(h, p1, None, Some(ua)) == resolve_from(h, p2, Some(ub), Some(ua)));
        assert(resolve_from(h, p2, Some(ub), Some(ua)) == (Some(ub), Some(ua)));
    }
}

/// The listing-page url for a requested library: the fixed base endpoint,
/// a path separator, the library's filename, and the page suffix.
pub fn listing_url(name: &str) -> (r: String)
    ensures
        r@ == BASE_URL@ + "/"@ + name@ + ".html"@,
{
    BASE_URL.to_owned().concat("/").concat(name).concat(".html")
}

/// The pair of detail-page urls a listing names, one slot per architecture;
/// an empty slot means the listing offers no build for that architecture.
#[derive(Debug)]
pub struct PageLinkPair {
    pub x32: Option<String>,
    pub x64: Option<String>,
}

pub open spec fn opt_view(o: Option<String>) -> Option<Seq<char>> {
    match o {
        None => None,
        Some(s) => Some(s@),
    }
}

impl View for PageLinkPair {
    type V = (Option<Seq<char>>, Option<Seq<char>>);

    open spec fn view(&self) -> Self::V {
        (opt_view(self.x32), opt_view(self.x64))
    }
}

/// What one section contributes, executed: the architecture named by the
/// meta block's second inline item and the absolute detail-page url, when
/// that architecture's slot is still open.
fn scan_section(sec: &str, have32: bool, have64: bool) -> (r: Option<(Architecture, String)>)
    ensures
        match r {
            Some(pick) => section_pick(sec@, have32, have64) == Some((pick.0, pick.1@)),
            None => section_pick(sec@, have32, have64) is None,
        },
{
    proof {
        reveal_strlit("<div");
        reveal_strlit("class=\"right-pane\"");
        reveal_strlit("</div>");
        reveal_strlit("<p>");
        reveal_strlit("</p>");
        reveal_strlit("<a href=\"");
        reveal_strlit("\"");
        reveal_strlit("data-ga-action");
        reveal_strlit("32");
        reveal_strlit("64");
    }
    // The count pins sec@.len() within address space for the scans below.
    let n = sec.unicode_len();
    let meta_pat = Pat::LitWsLit(META_OPEN_DIV, META_OPEN_CLASS);
    let d = match find_pat(sec, &meta_pat, 0) {
        None => {
            return None;
        },
        Some(d) => d,
    };
    proof {
        lemma_pat_find(meta_pat, sec@, 0);
    }
    let e = match find_pat_after(sec, &Pat::Lit(META_CLOSE), d + 23) {
        None => {
            return None;
        },
        Some(e) => e,
    };
    proof {
        lemma_pat_find(Pat::Lit(META_CLOSE), sec@, d + 23 + 1);
    }
    let meta = sec.substring_char(d, e + 6);
    assert(meta@ == meta_block(sec@)->Some_0);
    let p1 = match find_pat(meta, &Pat::Lit(P_OPEN), 0) {
        None => {
            return None;
        },
        Some(x) => x,
    };
    proof {
        lemma_pat_find(Pat::Lit(P_OPEN), meta@, 0);
    }
    let q1 = match find_pat_after(meta, &Pat::Lit(P_CLOSE), p1 + 3) {
        None => {
            return None;
        },
        Some(x) => x,
    };
    proof {
        lemma_pat_find(Pat::Lit(P_CLOSE), meta@, p1 + 3 + 1);
    }
    let p2 = match find_pat(meta, &Pat::Lit(P_OPEN), q1 + 4) {
        None => {
            return None;
        },
        Some(x) => x,
    };
    proof {
        lemma_pat_find(Pat::Lit(P_OPEN), meta@, q1 + 4);
    }
    let q2 = match find_pat_after(meta, &Pat::Lit(P_CLOSE), p2 + 3) {
        None => {
            return None;
        },
        Some(x) => x,
    };
    proof {
        lemma_pat_find(Pat::Lit(P_CLOSE), meta@, p2 + 3 + 1);
    }
    let cap = p2 + 3;
    let ghost tag = meta@.subrange(cap as int, q2 as int);
    assert(second_p(meta@) == Some(tag));
    let is32 = q2 - cap == 2 && range_is(meta, cap, ARCH_32);
    let is64 = q2 - cap == 2 && range_is(meta, cap, ARCH_64);
    proof {
        assert(is32 == (tag == ARCH_32@)) by {
            if q2 - cap == 2 {
                assert(tag.len() == 2);
            } else {
                assert(tag.len() != 2);
            }
        }
        assert(is64 == (tag == ARCH_64@)) by {
            if q2 - cap == 2 {
                assert(tag.len() == 2);
            } else {
                assert(tag.len() != 2);
            }
        }
    }
    if (is32 && have32) || (is64 && have64) {
        return None;
    }
    if !is32 && !is64 {
        return None;
    }
    let a = match find_pat(sec, &Pat::Lit(HREF_OPEN), 0) {
        None => {
            return None;
        },
        Some(x) => x,
    };
    proof {
        lemma_pat_find(Pat::Lit(HREF_OPEN), sec@, 0);
    }
    let end_pat = Pat::LitWsLit(HREF_END_QUOTE, HREF_END_MARKER);
    let t = match find_pat_after(sec, &end_pat, a + 9) {
        None => {
            return None;
        },
        Some(x) => x,
    };
    proof {
        lemma_pat_find(end_pat, sec@, a + 9 + 1);
    }
    let link = sec.substring_char(a + 9, t);
    let url = BASE_URL.to_owned().concat(link);
    if is32 {
        Some((Architecture::X32, url))
    } else {
        Some((Architecture::X64, url))
    }
}

/// Resolve a listing page's text to the two architecture detail-page urls.
/// A body carrying the fixed "not found" marker reports `NotFound`; an
/// architecture no section names is left empty, which is not an error.
pub fn resolve_pages(html: &str) -> (r: Result<PageLinkPair, LibError>)
    ensures
        r is Ok <==> !page_missing(html@),
        r matches Ok(pair) ==> pair@ == resolved_pages(html@),
        r is Err ==> r == Err::<PageLinkPair, LibError>(LibError::NotFound),
{
    proof {
        reveal_strlit("error-404");
        reveal_strlit("<section class=\"file-info-grid\"");
        reveal_strlit("</section>");
    }
    if find_pat(html, &Pat::Lit(NOT_FOUND_MARKER), 0).is_some() {
        return Err(LibError::NotFound);
    }
    let n = html.unicode_len();
    let close_len = SECTION_CLOSE.unicode_len();
    let mut pos: usize = 0;
    let mut x32: Option<String> = None;
    let mut x64: Option<String> = None;
    loop
        invariant
            resolve_from(html@, pos as int, opt_view(x32), opt_view(x64)) == resolved_pages(
                html@,
            ),
            close_len == SECTION_CLOSE@.len(),
            n == html@.len(),
            pos <= html@.len(),
            !page_missing(html@),
        decreases html@.len() - pos,
    {
        if x32.is_some() && x64.is_some() {
            return Ok(PageLinkPair { x32, x64 });
        }
        proof {
            reveal_strlit("<section class=\"file-info-grid\"");
            reveal_strlit("</section>");
        }
        let a = match find_pat(html, &Pat::Lit(SECTION_OPEN), pos) {
            None => {
                return Ok(PageLinkPair { x32, x64 });
            },
            Some(a) => a,
        };
        proof {
            lemma_pat_find(Pat::Lit(SECTION_OPEN), html@, pos as int);
        }
        let b = match find_pat_after(html, &Pat::Lit(SECTION_CLOSE), a + 31) {
            None => {
                return Ok(PageLinkPair { x32, x64 });
            },
            Some(b) => b,
        };
        proof {
            lemma_pat_find(Pat::Lit(SECTION_CLOSE), html@, a + 31 + 1);
        }
        let next = b + close_len;
        let sec = html.substring_char(a, next);
        assert(next_section(html@, pos as int) == Some((sec@, next as int)));
        match scan_section(sec, x32.is_some(), x64.is_some()) {
            None => {},
            Some(pick) => {
                match pick.0 {
                    Architecture::X32 => {
                        x32 = Some(pick.1);
                    },
                    Architecture::X64 => {
                        x64 = Some(pick.1);
                    },
                }
            },
        }
        pos = next;
    }
}

} // verus!
