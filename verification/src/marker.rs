//! The marker-comment search: a bounded textual lookback that decides
//! whether an unsafe function or unsafe block is preceded by a recognized
//! safety marker.
//!
//! Two independently tuned strategies exist on purpose.  For an unsafe
//! function the window reaches a fixed number of bytes back from the
//! item's start, clamped to the start of the file, and the heading token
//! may occur anywhere in that text.  For a non-empty unsafe block the
//! window runs from a shorter fixed lookback before the block up to the
//! position just before its first statement, and a recognized line prefix
//! must open a line: the search strips a line's leading blanks and matches
//! the prefix literally at the first non-blank byte.  A marker embedded
//! later in a line is not accepted; this is the line-scan variant of the
//! check.  Both searches are heuristics over raw text, not structural
//! doc-comment lookups, and are kept exactly as tuned.

use vstd::prelude::*;
use crate::bytes;

verus! {

/// Line feed.
pub const NL: u8 = 10;

/// A byte that leading-trim removes within a line: space, tab or
/// carriage return.
pub open spec fn is_blank(b: u8) -> bool {
    b == 32u8 || b == 9u8 || b == 13u8
}

/// `i` begins a line of `s`: the very start, or the position after a line
/// feed (the position one past the final byte counts when the text ends
/// with a line feed).
pub open spec fn is_line_start(s: Seq<u8>, i: int) -> bool {
    i == 0 || s[i - 1] == NL
}

/// The first position at or after `i` holding a non-blank byte, or the
/// end of `s`.
pub open spec fn first_nonblank(s: Seq<u8>, i: int) -> int
    decreases s.len() - i,
{
    if 0 <= i < s.len() && is_blank(s[i]) {
        first_nonblank(s, i + 1)
    } else {
        i
    }
}

/// The line of `s` beginning at `i` opens, after leading blanks, with one
/// of the `prefixes`.
pub open spec fn marker_line_at(s: Seq<u8>, prefixes: Seq<Vec<u8>>, i: int) -> bool {
    exists|p: int|
        0 <= p < prefixes.len() && bytes::is_prefix_at(s, first_nonblank(s, i), prefixes[p]@)
}

/// Some line of `s` opens, after leading blanks, with one of the
/// `prefixes`.
pub open spec fn line_marker_present(s: Seq<u8>, prefixes: Seq<Vec<u8>>) -> bool {
    exists|i: int| 0 <= i <= s.len() && is_line_start(s, i) && marker_line_at(s, prefixes, i)
}

/// The lower bound of a lookback window of `window` bytes before `start`,
/// clamped to the start of the file.
pub open spec fn window_lo(start: int, window: int) -> int {
    if start >= window {
        start - window
    } else {
        0
    }
}

/// Whether `b` is removed by leading-trim.
fn blank(b: u8) -> (r: bool)
    ensures
        r == is_blank(b),
{
    b == 32 || b == 9 || b == 13
}

/// Whether one of the `prefixes` occurs in `s` at position `j`.
fn match_any_prefix(s: &Vec<u8>, j: usize, prefixes: &Vec<Vec<u8>>) -> (r: bool)
    ensures
        r == exists|p: int|
            0 <= p < prefixes@.len() && bytes::is_prefix_at(s@, j as int, prefixes@[p]@),
{
    let mut p: usize = 0;
    while p < prefixes.len()
        invariant
            p <= prefixes.len(),
            forall|k: int| 0 <= k < p ==> !bytes::is_prefix_at(s@, j as int, prefixes@[k]@),
        decreases prefixes.len() - p,
    {
        if bytes::prefix_at(s, j, &prefixes[p]) {
            return true;
        }
        p = p + 1;
    }
    false
}

/// Scan `w` line by line for a line that opens, after leading blanks,
/// with one of the `prefixes`.
pub fn has_marker_line(w: &Vec<u8>, prefixes: &Vec<Vec<u8>>) -> (r: bool)
    ensures
        r == line_marker_present(w@, prefixes@),
{
    let mut i: usize = 0;
    loop
        invariant
            i <= w.len(),
            is_line_start(w@, i as int),
            forall|i0: int|
                0 <= i0 < i && is_line_start(w@, i0) ==> !marker_line_at(w@, prefixes@, i0),
        decreases w.len() + 1 - i,
    {
        let ghost line = i as int;
        let mut j: usize = i;
        while j < w.len() && blank(w[j])
            invariant
                i <= j <= w.len(),
                first_nonblank(w@, i as int) == first_nonblank(w@, j as int),
                forall|m: int| i <= m < j ==> is_blank(w@[m]),
            decreases w.len() - j,
        {
            j = j + 1;
        }
        assert(first_nonblank(w@, line) == j as int);
        if match_any_prefix(w, j, prefixes) {
            assert(marker_line_at(w@, prefixes@, line));
            return true;
        }
        let mut k: usize = j;
        while k < w.len() && w[k] != NL
            invariant
                j <= k <= w.len(),
                forall|m: int| j <= m < k ==> w@[m] != NL,
            decreases w.len() - k,
        {
            k = k + 1;
        }
        assert forall|m: int| line <= m < k ==> w@[m] != NL by {
            assert forall|m: int| line <= m < k implies w@[m] != NL by {
                if m < j {
                    assert(is_blank(w@[m]));
                }
            }
        }
        if k >= w.len() {
            assert forall|i0: int|
                0 <= i0 <= w@.len() && is_line_start(w@, i0) implies !marker_line_at(
                w@,
                prefixes@,
                i0,
            ) by {
                if i0 > line {
                    assert(w@[i0 - 1] != NL);
                }
            }
            return false;
        }
        assert(w@[k as int] == NL);
        proof {
            assert forall|i0: int|
                0 <= i0 < k + 1 && is_line_start(w@, i0) implies !marker_line_at(
                w@,
                prefixes@,
                i0,
            ) by {
                if i0 > line {
                    assert(w@[i0 - 1] != NL);
                }
            }
        }
        i = k + 1;
    }
}

/// Whether the function-level check flags an unsafe function starting at
/// `start`: the lookback window can be read but the heading token is
/// absent from it.  A start past the end of the text means the window
/// cannot be extracted, and the check is skipped.
pub fn fn_marker_missing(src: &Vec<u8>, start: usize, window: usize, heading: &Vec<u8>) -> (r:
    bool)
    ensures
        r == (start <= src@.len() && !bytes::contains_bytes(
            src@.subrange(window_lo(start as int, window as int), start as int),
            heading@,
        )),
{
    if start > src.len() {
        return false;
    }
    let lo: usize = if start >= window {
        start - window
    } else {
        0
    };
    let text = bytes::subvec(src, lo, start);
    !bytes::contains(&text, heading)
}

/// Whether the block-level check flags a non-empty unsafe block: the
/// window from the lookback bound before the block up to its first
/// statement can be read, and no line in it opens with a recognized
/// prefix.  A first statement past the end of the text means the window
/// cannot be extracted, and the check is skipped.
pub fn block_marker_missing(
    src: &Vec<u8>,
    span_start: usize,
    body_start: usize,
    window: usize,
    prefixes: &Vec<Vec<u8>>,
) -> (r: bool)
    requires
        span_start <= body_start,
    ensures
        r == (body_start <= src@.len() && !line_marker_present(
            src@.subrange(window_lo(span_start as int, window as int), body_start as int),
            prefixes@,
        )),
{
    if body_start > src.len() {
        return false;
    }
    let lo: usize = if span_start >= window {
        span_start - window
    } else {
        0
    };
    let text = bytes::subvec(src, lo, body_start);
    !has_marker_line(&text, prefixes)
}

} // verus!
