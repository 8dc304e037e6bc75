//! Text helpers over strings and byte sequences.

use vstd::prelude::*;
use vstd::utf8::*;
use vstd::string::StrSliceExecFns;

verus! {

broadcast use vstd::utf8::encode_utf8_decode_utf8;

/// Two byte slices hold the same bytes.
pub fn bytes_eq(a: &[u8], b: &[u8]) -> (r: bool)
    ensures
        r == (a@ == b@),
{
    if a.len() != b.len() {
        return false;
    }
    let mut i: usize = 0;
    while i < a.len()
        invariant
            a@.len() == b@.len(),
            0 <= i <= a@.len(),
            forall|k: int| 0 <= k < i ==> a@[k] == b@[k],
        decreases a@.len() - i,
    {
        if a[i] != b[i] {
            return false;
        }
        i = i + 1;
    }
    assert(a@ =~= b@);
    true
}

/// Two string slices hold the same characters.
pub fn str_eq(a: &str, b: &str) -> (r: bool)
    ensures
        r == (a@ == b@),
{
    let r = bytes_eq(a.as_bytes(), b.as_bytes());
    proof {
        if r {
            assert(decode_utf8(encode_utf8(a@)) == a@);
            assert(decode_utf8(encode_utf8(b@)) == b@);
        }
    }
    r
}

/// The lower-case hexadecimal digit for a nibble.
pub open spec fn hex_char(n: u8) -> char {
    if n == 0 { '0' } else if n == 1 { '1' } else if n == 2 { '2' } else if n == 3 { '3' }
    else if n == 4 { '4' } else if n == 5 { '5' } else if n == 6 { '6' } else if n == 7 { '7' }
    else if n == 8 { '8' } else if n == 9 { '9' } else if n == 10 { 'a' } else if n == 11 { 'b' }
    else if n == 12 { 'c' } else if n == 13 { 'd' } else if n == 14 { 'e' } else { 'f' }
}

/// The hex digit text for a nibble.
pub fn hex_digit(n: u8) -> (r: &'static str)
    requires
        n < 16,
    ensures
        r@ == seq![hex_char(n)],
{
    if n == 0 { proof { reveal_strlit("0"); } "0" } else if n == 1 { proof { reveal_strlit("1"); } "1" }
    else if n == 2 { proof { reveal_strlit("2"); } "2" } else if n == 3 { proof { reveal_strlit("3"); } "3" }
    else if n == 4 { proof { reveal_strlit("4"); } "4" } else if n == 5 { proof { reveal_strlit("5"); } "5" }
    else if n == 6 { proof { reveal_strlit("6"); } "6" } else if n == 7 { proof { reveal_strlit("7"); } "7" }
    else if n == 8 { proof { reveal_strlit("8"); } "8" } else if n == 9 { proof { reveal_strlit("9"); } "9" }
    else if n == 10 { proof { reveal_strlit("a"); } "a" } else if n == 11 { proof { reveal_strlit("b"); } "b" }
    else if n == 12 { proof { reveal_strlit("c"); } "c" } else if n == 13 { proof { reveal_strlit("d"); } "d" }
    else if n == 14 { proof { reveal_strlit("e"); } "e" } else { proof { reveal_strlit("f"); } "f" }
}

/// Whether a character has the Unicode `White_Space` property (the
/// characters `str::trim` removes).
pub open spec fn is_whitespace(c: char) -> bool {
    let u = c as u32;
    ||| (0x09 <= u && u <= 0x0d)
    ||| u == 0x20
    ||| u == 0x85
    ||| u == 0xa0
    ||| u == 0x1680
    ||| (0x2000 <= u && u <= 0x200a)
    ||| u == 0x2028
    ||| u == 0x2029
    ||| u == 0x202f
    ||| u == 0x205f
    ||| u == 0x3000
}

/// Whether a text is empty once surrounding whitespace is trimmed.
pub open spec fn is_blank(s: Seq<char>) -> bool {
    forall|i: int| 0 <= i < s.len() ==> #[trigger] is_whitespace(s[i])
}

/// Whether a text is empty or consists only of whitespace.
pub fn blank(s: &str) -> (r: bool)
    ensures
        r == is_blank(s@),
{
    let n = s.unicode_len();
    let mut i: usize = 0;
    while i < n
        invariant
            n == s@.len(),
            0 <= i <= n,
            forall|k: int| 0 <= k < i ==> #[trigger] is_whitespace(s@[k]),
        decreases n - i,
    {
        let c = s.get_char(i);
        let u = c as u32;
        let ws = (0x09 <= u && u <= 0x0d) || u == 0x20 || u == 0x85 || u == 0xa0 || u == 0x1680
            || (0x2000 <= u && u <= 0x200a) || u == 0x2028 || u == 0x2029 || u == 0x202f || u
            == 0x205f || u == 0x3000;
        if !ws {
            assert(!is_whitespace(s@[i as int]));
            return false;
        }
        i = i + 1;
    }
    true
}

/// The decimal digits of a number as text.
pub open spec fn decimal_text(n: nat) -> Seq<char>
    decreases n,
{
    if n < 10 {
        seq![hex_char(n as u8)]
    } else {
        decimal_text(n / 10).push(hex_char((n % 10) as u8))
    }
}

/// Append the decimal digits of `n` to a string.
pub fn push_decimal_text(out: &mut String, n: u64)
    ensures
        final(out)@ == old(out)@ + decimal_text(n as nat),
    decreases n,
{
    if n >= 10 {
        push_decimal_text(out, n / 10);
    }
    let d: u8 = (n % 10) as u8;
    out.append(hex_digit(d));
    assert(out@ =~= old(out)@ + decimal_text(n as nat));
}

/// Whether `needle` occurs in `hay` as a contiguous piece.
pub open spec fn contains_text(hay: Seq<char>, needle: Seq<char>) -> bool {
    exists|i: int| 0 <= i <= hay.len() - needle.len() && #[trigger] hay.subrange(i, i + needle.len()) == needle
}

/// Whether `needle` occurs in `hay`.
pub fn text_contains(hay: &str, needle: &str) -> (r: bool)
    ensures
        r == contains_text(hay@, needle@),
{
    let n = hay.unicode_len();
    let m = needle.unicode_len();
    if m > n {
        return false;
    }
    let last = n - m;
    let mut i: usize = 0;
    loop
        invariant
            n == hay@.len(),
            m == needle@.len(),
            last == n - m,
            i <= last,
            forall|k: int| 0 <= k < i ==> #[trigger] hay@.subrange(k, k + m) != needle@,
        decreases last - i,
    {
        let piece = hay.substring_char(i, i + m);
        if str_eq(piece, needle) {
            assert(hay@.subrange(i as int, i + m) == needle@);
            return true;
        }
        if i == last {
            return false;
        }
        i = i + 1;
    }
}

/// The view of an optional string.
pub open spec fn opt_view(o: Option<String>) -> Option<Seq<char>> {
    match o {
        Some(s) => Some(s@),
        None => None,
    }
}

/// The views of a sequence of strings.
pub open spec fn strings_view(v: Seq<String>) -> Seq<Seq<char>> {
    v.map_values(|s: String| s@)
}

/// The views of a sequence of string pairs.
pub open spec fn pairs_view(v: Seq<(String, String)>) -> Seq<(Seq<char>, Seq<char>)> {
    v.map_values(|p: (String, String)| (p.0@, p.1@))
}

} // verus!
