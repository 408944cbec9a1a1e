//! Small verified text helpers: character-exact string equality, byte
//! subsequence search, ASCII whitespace trimming and decimal rendering.
//! The rest of the crate states its contracts over these helpers' specs.

use vstd::prelude::*;

verus! {

/// True when `b` is an ASCII decimal digit.
pub open spec fn is_digit(b: u8) -> bool {
    48 <= b <= 57
}

/// The numeric value of an ASCII digit byte.
pub open spec fn digit_val(b: u8) -> int {
    b - 48
}

/// Every byte of `s` is an ASCII decimal digit.
pub open spec fn all_digits(s: Seq<u8>) -> bool {
    forall|i: int| 0 <= i < s.len() ==> is_digit(s[i])
}

/// The numeric value of a sequence of ASCII digits, most significant first.
pub open spec fn digits_value(s: Seq<u8>) -> int
    decreases s.len(),
{
    if s.len() == 0 {
        0
    } else {
        digits_value(s.drop_last()) * 10 + digit_val(s.last())
    }
}

/// The value of a digit sequence is never negative.
pub proof fn lemma_digits_value_nonneg(s: Seq<u8>)
    requires
        all_digits(s),
    ensures
        digits_value(s) >= 0,
    decreases s.len(),
{
    if s.len() > 0 {
        lemma_digits_value_nonneg(s.drop_last());
    }
}


/// The ASCII whitespace characters that `trim_ascii` removes.
pub open spec fn is_ws(c: char) -> bool {
    c == ' ' || c == '\t' || c == '\r' || c == '\n'
}

/// The needle `n` occurs in `h` starting at position `i`.
pub open spec fn matches_at(h: Seq<u8>, n: Seq<u8>, i: int) -> bool {
    &&& 0 <= i
    &&& i + n.len() <= h.len()
    &&& forall|k: int| 0 <= k < n.len() ==> h[i + k] == n[k]
}

/// The needle `n` occurs somewhere in `h`.
pub open spec fn contains_seq(h: Seq<u8>, n: Seq<u8>) -> bool {
    exists|i: int| matches_at(h, n, i)
}

/// Character-exact equality of two string slices.
pub fn str_eq(a: &str, b: &str) -> (r: bool)
    ensures
        r == (a@ == b@),
{
    let la = a.unicode_len();
    let lb = b.unicode_len();
    if la != lb {
        return false;
    }
    let mut i: usize = 0;
    while i < la
        invariant
            la == a@.len(),
            la == b@.len(),
            i <= la,
            forall|j: int| 0 <= j < i ==> a@[j] == b@[j],
        decreases la - i,
    {
        if a.get_char(i) != b.get_char(i) {
            return false;
        }
        i = i + 1;
    }
    proof {
        assert(a@ =~= b@);
    }
    true
}

/// Whether the byte needle `n` occurs anywhere in the haystack `h`.
pub fn contains_bytes(h: &[u8], n: &[u8]) -> (r: bool)
    ensures
        r == contains_seq(h@, n@),
{
    if n.len() > h.len() {
        proof {
            assert(forall|i: int| !matches_at(h@, n@, i));
        }
        return false;
    }
    if n.len() == 0 {
        proof {
            assert(matches_at(h@, n@, 0));
        }
        return true;
    }
    let hlen: usize = h.len();
    let bound: usize = hlen - n.len();
    let mut i: usize = 0;
    loop
        invariant
            hlen == h@.len(),
            1 <= n@.len() <= h@.len(),
            bound == h@.len() - n@.len(),
            i <= bound + 1,
            forall|j: int| 0 <= j < i ==> !matches_at(h@, n@, j),
        ensures
            (exists|j: int| matches_at(h@, n@, j)) == contains_seq(h@, n@),
            i <= bound + 1,
            (i <= bound) ==> matches_at(h@, n@, i as int),
            (i > bound) ==> forall|j: int| !matches_at(h@, n@, j),
        decreases bound + 1 - i,
    {
        if i > bound {
            proof {
                assert(forall|j: int| j > bound ==> !matches_at(h@, n@, j));
            }
            break;
        }
        if match_at(h, n, i) {
            break;
        }
        i = i + 1;
    }
    if i <= bound {
        proof {
            assert(contains_seq(h@, n@));
        }
        true
    } else {
        false
    }
}

/// Whether `n` occurs in `h` starting exactly at index `i`.
fn match_at(h: &[u8], n: &[u8], i: usize) -> (r: bool)
    requires
        i + n@.len() <= h@.len(),
    ensures
        r == matches_at(h@, n@, i as int),
{
    let hlen: usize = h.len();
    let mut k: usize = 0;
    while k < n.len()
        invariant
            hlen == h@.len(),
            i + n@.len() <= h@.len(),
            k <= n@.len(),
            forall|j: int| 0 <= j < k ==> h@[i + j] == n@[j],
        decreases n@.len() - k,
    {
        if h[i + k] != n[k] {
            return false;
        }
        k = k + 1;
    }
    true
}

/// `s` without its leading ASCII whitespace.
pub open spec fn trim_left(s: Seq<char>) -> Seq<char>
    decreases s.len(),
{
    if s.len() > 0 && is_ws(s[0]) {
        trim_left(s.drop_first())
    } else {
        s
    }
}

/// `s` without its trailing ASCII whitespace.
pub open spec fn trim_right(s: Seq<char>) -> Seq<char>
    decreases s.len(),
{
    if s.len() > 0 && is_ws(s.last()) {
        trim_right(s.drop_last())
    } else {
        s
    }
}

/// `s` with leading and trailing ASCII whitespace removed.
pub open spec fn trim_spec(s: Seq<char>) -> Seq<char> {
    trim_right(trim_left(s))
}

/// Remove leading and trailing ASCII whitespace from a string.
pub fn trim_ascii(s: &str) -> (r: String)
    ensures
        r@ == trim_spec(s@),
{
    let len = s.unicode_len();
    let mut lo: usize = 0;
    proof {
        assert(s@.subrange(0, len as int) =~= s@);
    }
    loop
        invariant
            len == s@.len(),
            lo <= len,
            trim_left(s@) == trim_left(s@.subrange(lo as int, len as int)),
        ensures
            lo <= len,
            trim_left(s@) == trim_left(s@.subrange(lo as int, len as int)),
            lo < len ==> !is_ws(s@[lo as int]),
            lo == len ==> trim_left(s@) == Seq::<char>::empty(),
        decreases len - lo,
    {
        if lo >= len {
            proof {
                assert(s@.subrange(len as int, len as int) =~= Seq::<char>::empty());
            }
            break;
        }
        let c = s.get_char(lo);
        if !(c == ' ' || c == '\t' || c == '\r' || c == '\n') {
            break;
        }
        proof {
            assert(s@.subrange(lo as int, len as int).drop_first() =~= s@.subrange(
                lo as int + 1,
                len as int,
            ));
        }
        lo = lo + 1;
    }
    if lo == len {
        return String::new();
    }
    proof {
        assert(trim_left(s@) == s@.subrange(lo as int, len as int));
    }
    let mut hi: usize = len;
    loop
        invariant
            len == s@.len(),
            lo < len,
            lo < hi <= len,
            !is_ws(s@[lo as int]),
            trim_right(s@.subrange(lo as int, len as int)) == trim_right(
                s@.subrange(lo as int, hi as int),
            ),
        ensures
            lo < hi <= len,
            trim_right(s@.subrange(lo as int, len as int)) == s@.subrange(lo as int, hi as int),
        decreases hi,
    {
        let c = s.get_char(hi - 1);
        if !(c == ' ' || c == '\t' || c == '\r' || c == '\n') {
            proof {
                assert(s@.subrange(lo as int, hi as int).last() == s@[hi - 1]);
            }
            break;
        }
        proof {
            assert(s@.subrange(lo as int, hi as int).drop_last() =~= s@.subrange(
                lo as int,
                hi as int - 1,
            ));
        }
        if hi - 1 == lo {
            proof {
                assert(is_ws(s@[lo as int]));
            }
        }
        hi = hi - 1;
    }
    let sub = s.substring_char(lo, hi);
    sub.to_owned()
}

/// The decimal digit character for value `d`.
pub open spec fn digit_char(d: int) -> char {
    if d == 0 {
        '0'
    } else if d == 1 {
        '1'
    } else if d == 2 {
        '2'
    } else if d == 3 {
        '3'
    } else if d == 4 {
        '4'
    } else if d == 5 {
        '5'
    } else if d == 6 {
        '6'
    } else if d == 7 {
        '7'
    } else if d == 8 {
        '8'
    } else {
        '9'
    }
}

/// The decimal rendering of `n`, without leading zeros (`0` renders as "0").
pub open spec fn dec_digits(n: int) -> Seq<char>
    decreases n,
{
    if n <= 0 {
        Seq::empty()
    } else {
        dec_digits(n / 10).push(digit_char(n % 10))
    }
}

/// The rendering used by `render_u64`: plain digits, with `0` as "0".
pub open spec fn render_spec(n: int) -> Seq<char> {
    if n == 0 {
        seq!['0']
    } else {
        dec_digits(n)
    }
}

/// A one-character string slice for the digit `d`.
fn digit_str(d: u64) -> (r: &'static str)
    requires
        d < 10,
    ensures
        r@ =~= seq![digit_char(d as int)],
{
    proof {
        reveal_strlit("0");
        reveal_strlit("1");
        reveal_strlit("2");
        reveal_strlit("3");
        reveal_strlit("4");
        reveal_strlit("5");
        reveal_strlit("6");
        reveal_strlit("7");
        reveal_strlit("8");
        reveal_strlit("9");
    }
    if d == 0 {
        "0"
    } else if d == 1 {
        "1"
    } else if d == 2 {
        "2"
    } else if d == 3 {
        "3"
    } else if d == 4 {
        "4"
    } else if d == 5 {
        "5"
    } else if d == 6 {
        "6"
    } else if d == 7 {
        "7"
    } else if d == 8 {
        "8"
    } else {
        "9"
    }
}

/// Append the decimal rendering of `n` to `out`.
pub fn append_u64(out: &mut String, n: u64)
    ensures
        final(out)@ == old(out)@ + render_spec(n as int),
{
    if n == 0 {
        out.append(digit_str(0));
        return;
    }
    append_digits(out, n);
}

/// Append `dec_digits(n)` to `out` (requires `n > 0`).
fn append_digits(out: &mut String, n: u64)
    requires
        n > 0,
    ensures
        final(out)@ == old(out)@ + dec_digits(n as int),
    decreases n,
{
    let ghost base: Seq<char> = out@;
    let q = n / 10;
    let r = n % 10;
    if q > 0 {
        append_digits(out, q);
    } else {
        proof {
            assert(base + dec_digits(q as int) =~= base);
        }
    }
    proof {
        assert(out@ == base + dec_digits(q as int));
    }
    out.append(digit_str(r));
    proof {
        assert(out@ =~= base + dec_digits(n as int));
    }
}

/// The decimal rendering of `n` as a fresh string.
pub fn render_u64(n: u64) -> (r: String)
    ensures
        r@ == render_spec(n as int),
{
    let mut s = String::new();
    append_u64(&mut s, n);
    proof {
        assert(s@ =~= render_spec(n as int));
    }
    s
}

} // verus!
