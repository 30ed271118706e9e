//! Text helpers shared by the other modules.

use vstd::prelude::*;
use vstd::string::*;
use vstd::utf8::*;
use vstd::slice::*;

verus! {

/// Whether two string slices hold the same characters.
pub fn str_eq(a: &str, b: &str) -> (res: bool)
    ensures
        res == (a@ == b@),
{
    let x = a.as_bytes();
    let y = b.as_bytes();
    proof {
        encode_utf8_decode_utf8(a@);
        encode_utf8_decode_utf8(b@);
    }
    if x.len() != y.len() {
        return false;
    }
    let mut i: usize = 0;
    while i < x.len()
        invariant
            i <= x.len(),
            x.len() == y.len(),
            x@ == encode_utf8(a@),
            y@ == encode_utf8(b@),
            forall|j: int| 0 <= j < i ==> x@[j] == y@[j],
        decreases x.len() - i,
    {
        if x[i] != y[i] {
            return false;
        }
        i += 1;
    }
    assert(x@ =~= y@);
    true
}

/// The characters of a string slice, in order.
pub fn chars_of(s: &str) -> (res: Vec<char>)
    ensures
        res@ == s@,
{
    let mut out: Vec<char> = Vec::new();
    for c in it: s.chars()
        invariant
            out@ == it.seq().take(it.index() as int),
            it.seq() == s@,
    {
        out.push(c);
    }
    out
}

/// The character that writes the digit `d`.
pub open spec fn digit_char(d: int) -> char {
    if d == 0 {
        '0'
    } else if d == 1 {
        '1'
    } else if d == 2 {
        '2'
    } else if d == 3 {
        '3'
    } else if d == 4 {
        '4'
    } else if d == 5 {
        '5'
    } else if d == 6 {
        '6'
    } else if d == 7 {
        '7'
    } else if d == 8 {
        '8'
    } else {
        '9'
    }
}

/// How a number is written in base ten, without leading zeros.
pub open spec fn decimal(n: nat) -> Seq<char>
    decreases n,
{
    if n < 10 {
        seq![digit_char(n as int)]
    } else {
        decimal(n / 10).push(digit_char((n % 10) as int))
    }
}

fn digit_str(d: u64) -> (res: &'static str)
    requires
        d < 10,
    ensures
        res@ == seq![digit_char(d as int)],
{
    proof {
        reveal_strlit("0");
        reveal_strlit("1");
        reveal_strlit("2");
        reveal_strlit("3");
        reveal_strlit("4");
        reveal_strlit("5");
        reveal_strlit("6");
        reveal_strlit("7");
        reveal_strlit("8");
        reveal_strlit("9");
    }
    let res = if d == 0 {
        "0"
    } else if d == 1 {
        "1"
    } else if d == 2 {
        "2"
    } else if d == 3 {
        "3"
    } else if d == 4 {
        "4"
    } else if d == 5 {
        "5"
    } else if d == 6 {
        "6"
    } else if d == 7 {
        "7"
    } else if d == 8 {
        "8"
    } else {
        "9"
    };
    assert(res@ =~= seq![digit_char(d as int)]);
    res
}

/// Writes a number in base ten.
pub fn u64_to_string(n: u64) -> (res: String)
    ensures
        res@ == decimal(n as nat),
    decreases n,
{
    if n < 10 {
        String::from_str(digit_str(n))
    } else {
        let mut out = u64_to_string(n / 10);
        out.append(digit_str(n % 10));
        assert(out@ =~= decimal((n / 10) as nat).push(digit_char((n % 10) as int)));
        out
    }
}

/// How a number is written in base ten, with a minus sign where it lies below zero.
pub open spec fn signed_decimal(n: int) -> Seq<char> {
    if n < 0 {
        "-"@ + decimal((-n) as nat)
    } else {
        decimal(n as nat)
    }
}

/// The parts in a row, with `sep` between each two of them.
pub open spec fn joined(parts: Seq<Seq<char>>, sep: Seq<char>) -> Seq<char>
    decreases parts.len(),
{
    if parts.len() == 0 {
        Seq::empty()
    } else if parts.len() == 1 {
        parts[0]
    } else {
        joined(parts.drop_last(), sep) + sep + parts.last()
    }
}

/// The text that a string holds, if there is one.
pub open spec fn opt_text(s: Option<String>) -> Option<Seq<char>> {
    match s {
        Some(s) => Some(s@),
        None => None,
    }
}

/// The texts that a list of strings holds.
pub open spec fn texts(parts: Seq<String>) -> Seq<Seq<char>> {
    parts.map_values(|s: String| s@)
}

/// Puts the parts in a row, with `sep` between each two of them.
pub fn join(parts: &Vec<String>, sep: &str) -> (res: String)
    ensures
        res@ == joined(texts(parts@), sep@),
{
    let mut out = String::new();
    let mut i: usize = 0;
    while i < parts.len()
        invariant
            i <= parts.len(),
            out@ == joined(texts(parts@).take(i as int), sep@),
        decreases parts.len() - i,
    {
        if i > 0 {
            out.append(sep);
        }
        out.append(parts[i].as_str());
        proof {
            let all = texts(parts@);
            assert(all.take(i + 1).drop_last() =~= all.take(i as int));
            assert(all.take(i + 1).last() == parts@[i as int]@);
            assert(out@ =~= joined(all.take(i + 1), sep@));
        }
        i += 1;
    }
    proof {
        assert(texts(parts@).take(parts.len() as int) =~= texts(parts@));
    }
    out
}

/// Whether a text opens with a slash.
pub open spec fn opens_with_slash(s: Seq<char>) -> bool {
    s.len() > 0 && s[0] == '/'
}

/// Whether a text opens with a slash.
pub fn starts_with_slash(s: &str) -> (res: bool)
    ensures
        res == opens_with_slash(s@),
{
    !s.is_empty() && s.get_char(0) == '/'
}

/// Whether `s` ends with `tail`.
pub open spec fn ends_with(s: Seq<char>, tail: Seq<char>) -> bool {
    tail.len() <= s.len() && s.subrange(s.len() - tail.len(), s.len() as int) == tail
}

/// Whether `s` ends with `tail`.
pub fn str_ends_with(s: &str, tail: &str) -> (res: bool)
    ensures
        res == ends_with(s@, tail@),
{
    let a = chars_of(s);
    let b = chars_of(tail);
    if b.len() > a.len() {
        return false;
    }
    let shift = a.len() - b.len();
    let mut i: usize = 0;
    while i < b.len()
        invariant
            i <= b.len(),
            shift + b.len() == a.len(),
            a@ == s@,
            b@ == tail@,
            forall|k: int| 0 <= k < i ==> a@[shift + k] == b@[k],
        decreases b.len() - i,
    {
        if a[shift + i] != b[i] {
            proof {
                assert(s@.subrange(s@.len() - tail@.len(), s@.len() as int)[i as int] == a@[shift
                    + i]);
            }
            return false;
        }
        i += 1;
    }
    proof {
        assert(s@.subrange(s@.len() - tail@.len(), s@.len() as int) =~= tail@);
    }
    true
}

/// Whether a character is white space. It stands for what `char::is_whitespace` of the
/// standard library says of the character.
pub uninterp spec fn is_whitespace(c: char) -> bool;

/// Calls `char::is_whitespace`, which says whether the character has the Unicode
/// property `White_Space`. The contract only gives that answer its name.
#[verifier::external_body]
fn char_is_whitespace(c: char) -> (res: bool)
    ensures
        res == is_whitespace(c),
{
    c.is_whitespace()
}

/// A text without the white space that it opens with.
pub open spec fn trimmed_start(s: Seq<char>) -> Seq<char>
    decreases s.len(),
{
    if s.len() > 0 && is_whitespace(s[0]) {
        trimmed_start(s.drop_first())
    } else {
        s
    }
}

/// A text without the white space that it ends with.
pub open spec fn trimmed_end(s: Seq<char>) -> Seq<char>
    decreases s.len(),
{
    if s.len() > 0 && is_whitespace(s.last()) {
        trimmed_end(s.drop_last())
    } else {
        s
    }
}

/// A text without the white space at both of its ends.
pub open spec fn trimmed(s: Seq<char>) -> Seq<char> {
    trimmed_end(trimmed_start(s))
}

/// Takes the white space off both ends of a text.
pub fn trim(s: &str) -> (res: String)
    ensures
        res@ == trimmed(s@),
{
    let chars = chars_of(s);
    let mut lo: usize = 0;
    proof {
        assert(chars@.skip(0) =~= chars@);
    }
    while lo < chars.len() && char_is_whitespace(chars[lo])
        invariant
            lo <= chars.len(),
            trimmed_start(chars@) == trimmed_start(chars@.skip(lo as int)),
        decreases chars.len() - lo,
    {
        proof {
            assert(chars@.skip(lo as int).drop_first() =~= chars@.skip(lo + 1));
        }
        lo += 1;
    }
    proof {
        assert(chars@.skip(chars.len() as int) =~= Seq::empty());
        assert(trimmed_start(chars@) == chars@.skip(lo as int));
    }
    let mut hi: usize = chars.len();
    while hi > lo && char_is_whitespace(chars[hi - 1])
        invariant
            lo <= hi <= chars.len(),
            trimmed_end(chars@.skip(lo as int)) == trimmed_end(
                chars@.subrange(lo as int, hi as int),
            ),
        decreases hi,
    {
        proof {
            assert(chars@.subrange(lo as int, hi as int).drop_last() =~= chars@.subrange(
                lo as int,
                hi - 1,
            ));
        }
        hi -= 1;
    }
    proof {
        assert(chars@.skip(lo as int) =~= chars@.subrange(lo as int, chars.len() as int));
        assert(trimmed_end(chars@.subrange(lo as int, hi as int)) == chars@.subrange(
            lo as int,
            hi as int,
        ));
    }
    String::from_str(s.substring_char(lo, hi))
}

} // verus!
