//! The line structure of a text, over its UTF-8 bytes.
//!
//! A line ends at a line feed or at the end of the text. The line feed does not belong to
//! the line, and neither does a carriage return that stands right before it. A text that
//! ends with a line feed has no further, empty line behind it.

use vstd::prelude::*;
use vstd::slice::*;
use vstd::string::*;
use vstd::utf8::*;

verus! {

/// Position of the first line feed at or behind `from`, or the text's length if there is
/// none.
pub open spec fn first_newline(bytes: Seq<u8>, from: int) -> int
    decreases bytes.len() - from,
{
    if from < 0 || from >= bytes.len() {
        bytes.len() as int
    } else if bytes[from] == 10 {
        from
    } else {
        first_newline(bytes, from + 1)
    }
}

/// Position at which line `k` (counted from zero) starts. Where the text has no line `k`
/// this is the text's length.
pub open spec fn line_offset(bytes: Seq<u8>, k: nat) -> int
    decreases k,
{
    if k == 0 {
        0
    } else {
        let nl = first_newline(bytes, line_offset(bytes, (k - 1) as nat));
        if nl < bytes.len() {
            nl + 1
        } else {
            bytes.len() as int
        }
    }
}

/// Whether the text has a line `k` (counted from zero).
pub open spec fn has_line(bytes: Seq<u8>, k: nat) -> bool {
    line_offset(bytes, k) < bytes.len()
}

/// Position right behind the last byte of line `k`.
pub open spec fn line_end(bytes: Seq<u8>, k: nat) -> int {
    let start = line_offset(bytes, k);
    let nl = first_newline(bytes, start);
    if start < nl && nl < bytes.len() && bytes[nl - 1] == 13 {
        nl - 1
    } else {
        nl
    }
}

/// Where `first_newline` lands: at a line feed or at the end, with no line feed before.
pub proof fn lemma_first_newline(bytes: Seq<u8>, from: int)
    requires
        0 <= from <= bytes.len(),
    ensures
        from <= first_newline(bytes, from) <= bytes.len(),
        first_newline(bytes, from) < bytes.len() ==> bytes[first_newline(bytes, from)] == 10,
        forall|t: int| from <= t < first_newline(bytes, from) ==> bytes[t] != 10,
    decreases bytes.len() - from,
{
    if from < bytes.len() && bytes[from] != 10 {
        lemma_first_newline(bytes, from + 1);
    }
}

/// Every line starts inside the text or at its end.
pub proof fn lemma_line_offset_bounds(bytes: Seq<u8>, k: nat)
    ensures
        0 <= line_offset(bytes, k) <= bytes.len(),
    decreases k,
{
    if k > 0 {
        lemma_line_offset_bounds(bytes, (k - 1) as nat);
        lemma_first_newline(bytes, line_offset(bytes, (k - 1) as nat));
    }
}

/// Behind a missing line there is no line.
pub proof fn lemma_no_line_behind(bytes: Seq<u8>, k: nat, m: nat)
    requires
        !has_line(bytes, k),
    ensures
        !has_line(bytes, k + m),
    decreases m,
{
    lemma_line_offset_bounds(bytes, k);
    if m > 0 {
        lemma_no_line_behind(bytes, k, (m - 1) as nat);
        lemma_line_offset_bounds(bytes, (k + m - 1) as nat);
    }
}

/// A line ends inside the text, at or behind its start.
pub proof fn lemma_line_end_bounds(bytes: Seq<u8>, k: nat)
    ensures
        line_offset(bytes, k) <= line_end(bytes, k) <= bytes.len(),
{
    lemma_line_offset_bounds(bytes, k);
    lemma_first_newline(bytes, line_offset(bytes, k));
}

/// Scans for the next line feed.
pub fn find_newline(bytes: &[u8], from: usize) -> (nl: usize)
    requires
        from <= bytes@.len(),
    ensures
        nl == first_newline(bytes@, from as int),
        from <= nl <= bytes@.len(),
{
    let mut j: usize = from;
    while j < bytes.len() && bytes[j] != 10
        invariant
            from <= j <= bytes@.len(),
            first_newline(bytes@, from as int) == first_newline(bytes@, j as int),
        decreases bytes@.len() - j,
    {
        j += 1;
    }
    j
}

proof fn lemma_boundary_in_prefix(bytes: Seq<u8>, lo: int, hi: int)
    requires
        valid_utf8(bytes),
        0 <= lo <= hi <= bytes.len(),
        is_char_boundary(bytes, lo),
        is_char_boundary(bytes, hi),
    ensures
        valid_utf8(bytes.subrange(0, hi)),
        is_char_boundary(bytes.subrange(0, hi), lo),
{
    let head = bytes.subrange(0, hi);
    valid_utf8_split(bytes, hi);
    if lo == hi {
        is_char_boundary_start_end_of_seq(head);
    } else {
        is_char_boundary_iff_not_is_continuation_byte(bytes, lo);
        is_char_boundary_iff_not_is_continuation_byte(head, lo);
    }
}

/// The bytes between two places that both stand between characters are text themselves.
pub proof fn lemma_piece_is_valid(bytes: Seq<u8>, lo: int, hi: int)
    requires
        valid_utf8(bytes),
        0 <= lo <= hi <= bytes.len(),
        is_char_boundary(bytes, lo),
        is_char_boundary(bytes, hi),
    ensures
        valid_utf8(bytes.subrange(lo, hi)),
{
    lemma_boundary_in_prefix(bytes, lo, hi);
    let head = bytes.subrange(0, hi);
    valid_utf8_split(head, lo);
    assert(head.subrange(lo, head.len() as int) =~= bytes.subrange(lo, hi));
}

/// The part of `s` between two byte positions that both stand between characters.
pub fn substring<'a>(s: &'a str, lo: usize, hi: usize) -> (res: &'a str)
    requires
        lo <= hi <= s.spec_bytes().len(),
        is_char_boundary(s.spec_bytes(), lo as int),
        is_char_boundary(s.spec_bytes(), hi as int),
    ensures
        res.spec_bytes() == s.spec_bytes().subrange(lo as int, hi as int),
{
    proof {
        encode_utf8_valid_utf8(s@);
        lemma_boundary_in_prefix(s.spec_bytes(), lo as int, hi as int);
    }
    let (head, _) = s.split_at(hi);
    let (_, mid) = head.split_at(lo);
    proof {
        assert(mid.spec_bytes() =~= s.spec_bytes().subrange(lo as int, hi as int));
    }
    mid
}

} // verus!
