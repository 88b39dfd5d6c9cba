//! Turning a highlighted search hit into a short, marker-free snippet.
use vstd::prelude::*;
use vstd::string::StrSliceExecFns;
use vstd::string::StringExecFns;

verus! {

/// Characters kept on each side of the highlighted span.
pub const SNIPPET_CONTEXT: usize = 30;

/// The marker that opens a highlighted span.
pub open spec fn open_marker() -> Seq<char> {
    seq!['<', 'b', '>']
}

/// The marker that closes a highlighted span.
pub open spec fn close_marker() -> Seq<char> {
    seq!['<', '/', 'b', '>']
}

/// Whether `p` occurs in `s` at position `i`.
pub open spec fn occurs_at(s: Seq<char>, p: Seq<char>, i: int) -> bool {
    0 <= i && i + p.len() <= s.len() && s.subrange(i, i + p.len()) == p
}

/// The first position at or after `from` where `p` occurs in `s`.
pub open spec fn first_match(s: Seq<char>, p: Seq<char>, from: int) -> Option<int>
    decreases s.len() - from,
{
    if from < 0 || from >= s.len() || from + p.len() > s.len() {
        None
    } else if s.subrange(from, from + p.len()) == p {
        Some(from)
    } else {
        first_match(s, p, from + 1)
    }
}

/// `s` with every occurrence of `p` removed, scanning left to right without
/// overlap.
pub open spec fn remove_all(s: Seq<char>, p: Seq<char>) -> Seq<char>
    decreases s.len(),
{
    if s.len() == 0 {
        s
    } else if p.len() > 0 && p.len() <= s.len() && s.subrange(0, p.len() as int) == p {
        remove_all(s.subrange(p.len() as int, s.len() as int), p)
    } else {
        seq![s[0]] + remove_all(s.subrange(1, s.len() as int), p)
    }
}

/// Neither marker occurs anywhere in a text.
pub open spec fn marker_free(t: Seq<char>) -> bool {
    forall|i: int| !occurs_at(t, open_marker(), i) && !occurs_at(t, close_marker(), i)
}

/// One removal round: every opening marker, then every closing marker.
pub open spec fn strip_round(w: Seq<char>) -> Seq<char> {
    remove_all(remove_all(w, open_marker()), close_marker())
}

/// A window with removal rounds repeated until no marker is left, so that
/// no marker survives even where removing one joins the text around it into
/// another.
pub open spec fn strip_markers(w: Seq<char>) -> Seq<char>
    decreases w.len(),
    via lemma_strip_markers_decreases
{
    if marker_free(w) {
        w
    } else {
        strip_markers(strip_round(w))
    }
}

#[via_fn]
proof fn lemma_strip_markers_decreases(w: Seq<char>) {
    if !marker_free(w) {
        lemma_round_shrinks(w);
    }
}

/// Where the snippet window starts for an opening marker at `begin`.
pub open spec fn window_start(begin: int) -> int {
    if begin >= SNIPPET_CONTEXT {
        begin - SNIPPET_CONTEXT
    } else {
        0
    }
}

/// Where the snippet window ends for a closing marker that ends at
/// `close_end` in a text of length `len`.
pub open spec fn window_end(close_end: int, len: int) -> int {
    if close_end + SNIPPET_CONTEXT <= len {
        close_end + SNIPPET_CONTEXT
    } else {
        len
    }
}

/// The snippet of a highlighted text: the stripped window around the first
/// marker pair, or the text itself when it holds no marker pair.
pub open spec fn snippet_of(h: Seq<char>) -> Seq<char> {
    match first_match(h, open_marker(), 0) {
        None => h,
        Some(b) => match first_match(h, close_marker(), b + 3) {
            None => h,
            Some(e) => strip_markers(
                h.subrange(window_start(b), window_end(e + 4, h.len() as int)),
            ),
        },
    }
}

/// A match found by `first_match` lies inside the text, at or after `from`,
/// and no earlier position from `from` on holds `p`.
pub proof fn lemma_first_match(s: Seq<char>, p: Seq<char>, from: int)
    requires
        0 <= from,
        p.len() > 0,
    ensures
        match first_match(s, p, from) {
            None => forall|j: int| from <= j ==> !occurs_at(s, p, j),
            Some(k) => from <= k && occurs_at(s, p, k) && k < s.len()
                && forall|j: int| from <= j < k ==> !occurs_at(s, p, j),
        },
    decreases s.len() - from,
{
    if from < 0 || from >= s.len() || from + p.len() > s.len() {
    } else if s.subrange(from, from + p.len()) == p {
    } else {
        lemma_first_match(s, p, from + 1);
    }
}

/// Whether a text holds an opening marker followed later by a closing one.
pub open spec fn has_marker_pair(h: Seq<char>) -> bool {
    match first_match(h, open_marker(), 0) {
        None => false,
        Some(b) => first_match(h, close_marker(), b + 3) is Some,
    }
}

/// Removing a pattern never lengthens a text.
pub proof fn lemma_remove_all_len(s: Seq<char>, p: Seq<char>)
    ensures
        remove_all(s, p).len() <= s.len(),
    decreases s.len(),
{
    if s.len() == 0 {
    } else if p.len() > 0 && p.len() <= s.len() && s.subrange(0, p.len() as int) == p {
        lemma_remove_all_len(s.subrange(p.len() as int, s.len() as int), p);
    } else {
        lemma_remove_all_len(s.subrange(1, s.len() as int), p);
    }
}

/// A text without a marker pair is its own snippet.
pub proof fn lemma_unmarked_text_unchanged(h: Seq<char>)
    requires
        !has_marker_pair(h),
    ensures
        snippet_of(h) == h,
{
}

proof fn lemma_remove_all_shrinks(s: Seq<char>, p: Seq<char>, i: int)
    requires
        p.len() > 0,
        occurs_at(s, p, i),
    ensures
        remove_all(s, p).len() < s.len(),
    decreases s.len(),
{
    if p.len() <= s.len() && s.subrange(0, p.len() as int) == p {
        lemma_remove_all_len(s.subrange(p.len() as int, s.len() as int), p);
    } else {
        let rest = s.subrange(1, s.len() as int);
        assert(i != 0);
        assert(rest.subrange(i - 1, i - 1 + p.len()) =~= s.subrange(i, i + p.len()));
        lemma_remove_all_shrinks(rest, p, i - 1);
    }
}

proof fn lemma_remove_all_absent(s: Seq<char>, p: Seq<char>)
    requires
        p.len() > 0,
        forall|i: int| !occurs_at(s, p, i),
    ensures
        remove_all(s, p) == s,
    decreases s.len(),
{
    if s.len() > 0 {
        assert(!occurs_at(s, p, 0));
        let rest = s.subrange(1, s.len() as int);
        assert forall|i: int| !occurs_at(rest, p, i) by {
            if occurs_at(rest, p, i) {
                assert(rest.subrange(i, i + p.len()) =~= s.subrange(i + 1, i + 1 + p.len()));
                assert(occurs_at(s, p, i + 1));
            }
        }
        lemma_remove_all_absent(rest, p);
        assert(seq![s[0]] + rest =~= s);
    }
}

/// A removal round on a text that holds a marker makes it shorter.
proof fn lemma_round_shrinks(w: Seq<char>)
    requires
        !marker_free(w),
    ensures
        strip_round(w).len() < w.len(),
{
    let i = choose|i: int| !(!occurs_at(w, open_marker(), i) && !occurs_at(w, close_marker(), i));
    let o = remove_all(w, open_marker());
    lemma_remove_all_len(o, close_marker());
    if exists|j: int| occurs_at(w, open_marker(), j) {
        let j = choose|j: int| occurs_at(w, open_marker(), j);
        lemma_remove_all_shrinks(w, open_marker(), j);
    } else {
        lemma_remove_all_absent(w, open_marker());
        assert(occurs_at(o, close_marker(), i));
        lemma_remove_all_shrinks(o, close_marker(), i);
    }
}

/// Stripping never lengthens a text and always leaves it free of markers.
pub proof fn lemma_strip_markers(w: Seq<char>)
    ensures
        strip_markers(w).len() <= w.len(),
        marker_free(strip_markers(w)),
    decreases w.len(),
{
    if !marker_free(w) {
        lemma_round_shrinks(w);
        lemma_strip_markers(strip_round(w));
    }
}

/// The snippet of a marked text is no longer than the span from the start of
/// the opening marker to the end of the closing marker, plus the context
/// taken on both sides, and holds no marker.
pub proof fn lemma_snippet_bounded_and_marker_free(h: Seq<char>)
    requires
        has_marker_pair(h),
    ensures
        ({
            let b = first_match(h, open_marker(), 0).unwrap();
            let e = first_match(h, close_marker(), b + 3).unwrap();
            snippet_of(h).len() <= (e + 4 - b) + 2 * SNIPPET_CONTEXT
        }),
        marker_free(snippet_of(h)),
{
    let b = first_match(h, open_marker(), 0).unwrap();
    lemma_first_match(h, open_marker(), 0);
    let e = first_match(h, close_marker(), b + 3).unwrap();
    lemma_first_match(h, close_marker(), b + 3);
    let w = h.subrange(window_start(b), window_end(e + 4, h.len() as int));
    lemma_strip_markers(w);
}

pub(crate) fn to_chars(s: &str) -> (r: Vec<char>)
    ensures
        r@ == s@,
{
    let n = s.unicode_len();
    let mut r: Vec<char> = Vec::new();
    let mut i: usize = 0;
    while i < n
        invariant
            n == s@.len(),
            i <= n,
            r@ == s@.subrange(0, i as int),
        decreases n - i,
    {
        r.push(s.get_char(i));
        i = i + 1;
        assert(r@ =~= s@.subrange(0, i as int));
    }
    assert(r@ =~= s@);
    r
}

pub(crate) fn matches_at(s: &Vec<char>, p: &Vec<char>, i: usize) -> (r: bool)
    requires
        i + p@.len() <= s@.len(),
    ensures
        r == (s@.subrange(i as int, i + p@.len()) == p@),
{
    let slen = s.len();
    let mut k: usize = 0;
    while k < p.len()
        invariant
            slen == s@.len(),
            i + p@.len() <= s@.len(),
            k <= p@.len(),
            forall|t: int| 0 <= t < k ==> s@[i + t] == p@[t],
        decreases p@.len() - k,
    {
        if s[i + k] != p[k] {
            assert(s@.subrange(i as int, i + p@.len())[k as int] != p@[k as int]);
            return false;
        }
        k = k + 1;
    }
    assert(s@.subrange(i as int, i + p@.len()) =~= p@);
    true
}

fn find_from(s: &Vec<char>, p: &Vec<char>, from: usize) -> (r: Option<usize>)
    requires
        p@.len() > 0,
    ensures
        match first_match(s@, p@, from as int) {
            None => r is None,
            Some(k) => r == Some(k as usize),
        },
{
    if p.len() > s.len() {
        return None;
    }
    let slen = s.len();
    let last = slen - p.len();
    let mut k: usize = from;
    while k <= last
        invariant
            slen == s@.len(),
            last + p@.len() == s@.len(),
            p@.len() > 0,
            from <= k,
            first_match(s@, p@, from as int) == first_match(s@, p@, k as int),
        decreases s@.len() + 1 - k,
    {
        if matches_at(s, p, k) {
            return Some(k);
        }
        k = k + 1;
    }
    assert(first_match(s@, p@, k as int) is None);
    None
}

fn remove_all_exec(s: &str, p: &Vec<char>) -> (r: String)
    requires
        p@.len() > 0,
    ensures
        r@ == remove_all(s@, p@),
{
    let chars = to_chars(s);
    let n = chars.len();
    let plen = p.len();
    let mut out = String::new();
    let mut run: usize = 0;
    let mut i: usize = 0;
    assert(s@.subrange(0, n as int) =~= s@);
    assert(out@ + s@.subrange(0, 0) =~= Seq::<char>::empty());
    while i < n
        invariant
            chars@ == s@,
            n == s@.len(),
            plen == p@.len(),
            plen > 0,
            run <= i <= n,
            out@ + s@.subrange(run as int, i as int) + remove_all(s@.subrange(i as int, n as int), p@)
                == remove_all(s@, p@),
        decreases n - i,
    {
        let rest = Ghost(s@.subrange(i as int, n as int));
        if plen <= n - i && matches_at(&chars, p, i) {
            assert(rest@.subrange(0, plen as int) =~= s@.subrange(i as int, i + plen));
            assert(rest@.subrange(plen as int, rest@.len() as int) =~= s@.subrange(i + plen, n as int));
            out.append(s.substring_char(run, i));
            i = i + plen;
            run = i;
            assert(s@.subrange(run as int, i as int) =~= Seq::empty());
        } else {
            if plen <= n - i {
                assert(rest@.subrange(0, plen as int) =~= s@.subrange(i as int, i + plen));
            }
            assert(rest@.subrange(1, rest@.len() as int) =~= s@.subrange(i + 1, n as int));
            assert(s@.subrange(run as int, i as int) + seq![s@[i as int]] =~= s@.subrange(run as int, i + 1));
            i = i + 1;
        }
    }
    assert(s@.subrange(n as int, n as int) =~= Seq::<char>::empty());
    out.append(s.substring_char(run, n));
    out
}

fn open_marker_exec() -> (r: Vec<char>)
    ensures
        r@ == open_marker(),
{
    let r = vec!['<', 'b', '>'];
    assert(r@ =~= open_marker());
    r
}

fn close_marker_exec() -> (r: Vec<char>)
    ensures
        r@ == close_marker(),
{
    let r = vec!['<', '/', 'b', '>'];
    assert(r@ =~= close_marker());
    r
}

fn strip_markers_exec(window: &str, open: &Vec<char>, close: &Vec<char>) -> (r: String)
    requires
        open@ == open_marker(),
        close@ == close_marker(),
    ensures
        r@ == strip_markers(window@),
{
    let mut cur = String::from_str(window);
    loop
        invariant
            open@ == open_marker(),
            close@ == close_marker(),
            strip_markers(cur@) == strip_markers(window@),
        decreases cur@.len(),
    {
        let chars = to_chars(cur.as_str());
        proof {
            lemma_first_match(cur@, open_marker(), 0);
            lemma_first_match(cur@, close_marker(), 0);
        }
        if find_from(&chars, open, 0).is_none() && find_from(&chars, close, 0).is_none() {
            assert(marker_free(cur@));
            return cur;
        }
        proof {
            lemma_round_shrinks(cur@);
        }
        let first = remove_all_exec(cur.as_str(), open);
        cur = remove_all_exec(first.as_str(), close);
    }
}

/// Cuts a highlighted text down to the first marked span with some context on
/// each side, and removes the markers until none is left; a text without a
/// marker pair is returned as it is.
pub fn extract_snippet(highlight: &str) -> (r: String)
    ensures
        r@ == snippet_of(highlight@),
        has_marker_pair(highlight@) ==> marker_free(r@),
        !has_marker_pair(highlight@) ==> r@ == highlight@,
{
    proof {
        if has_marker_pair(highlight@) {
            lemma_snippet_bounded_and_marker_free(highlight@);
        }
    }
    let h = to_chars(highlight);
    let hlen = h.len();
    let open = open_marker_exec();
    let close = close_marker_exec();
    proof {
        lemma_first_match(h@, open_marker(), 0);
    }
    match find_from(&h, &open, 0) {
        None => String::from_str(highlight),
        Some(begin) => match find_from(&h, &close, begin + 3) {
            None => String::from_str(highlight),
            Some(end) => {
                proof {
                    lemma_first_match(h@, close_marker(), begin + 3);
                }
                let start = if begin >= SNIPPET_CONTEXT { begin - SNIPPET_CONTEXT } else { 0 };
                let stop = if hlen - end >= 4 + SNIPPET_CONTEXT {
                    end + 4 + SNIPPET_CONTEXT
                } else {
                    hlen
                };
                let window = highlight.substring_char(start, stop);
                strip_markers_exec(window, &open, &close)
            },
        },
    }
}

} // verus!
