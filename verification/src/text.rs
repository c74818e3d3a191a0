//! Text helpers: decimal and hexadecimal rendering, substring search.

use vstd::prelude::*;

verus! {

/// The sixteen lower-case hexadecimal digits, in order.
pub open spec fn digit_table() -> Seq<char> {
    seq!['0', '1', '2', '3', '4', '5', '6', '7', '8', '9', 'a', 'b', 'c', 'd', 'e', 'f']
}

/// Decimal rendering of `n`, most significant digit first, no leading zeros.
pub open spec fn decimal(n: nat) -> Seq<char>
    decreases n,
{
    if n < 10 {
        seq![digit_table()[n as int]]
    } else {
        decimal(n / 10).push(digit_table()[(n % 10) as int])
    }
}

/// Two lower-case hexadecimal digits per byte, high nibble first.
pub open spec fn hex_lower(bytes: Seq<u8>) -> Seq<char>
    decreases bytes.len(),
{
    if bytes.len() == 0 {
        Seq::empty()
    } else {
        let b = bytes.last();
        hex_lower(bytes.drop_last()) + seq![
            digit_table()[(b / 16) as int],
            digit_table()[(b % 16) as int],
        ]
    }
}

/// The hexadecimal rendering has two characters per byte, each a lower-case
/// hexadecimal digit.
pub proof fn lemma_hex_lower_shape(bytes: Seq<u8>)
    ensures
        hex_lower(bytes).len() == 2 * bytes.len(),
        forall|i: int| 0 <= i < hex_lower(bytes).len() ==> digit_table().contains(
            #[trigger] hex_lower(bytes)[i],
        ),
    decreases bytes.len(),
{
    if bytes.len() > 0 {
        let rest = bytes.drop_last();
        lemma_hex_lower_shape(rest);
        let b = bytes.last();
        let hi = digit_table()[(b / 16) as int];
        let lo = digit_table()[(b % 16) as int];
        assert(digit_table().contains(hi));
        assert(digit_table().contains(lo));
        let h = hex_lower(bytes);
        assert forall|i: int| 0 <= i < h.len() implies digit_table().contains(#[trigger] h[i]) by {
            if i < hex_lower(rest).len() {
                assert(h[i] == hex_lower(rest)[i]);
            } else if i == hex_lower(rest).len() {
                assert(h[i] == hi);
            } else {
                assert(h[i] == lo);
            }
        }
    }
}

/// The value of a decimal or lower-case hexadecimal digit.
pub open spec fn digit_value(c: char) -> int {
    if '0' <= c && c <= '9' {
        c as int - '0' as int
    } else {
        c as int - 'a' as int + 10
    }
}

/// The number a run of decimal digits denotes.
pub open spec fn decimal_value(s: Seq<char>) -> int
    decreases s.len(),
{
    if s.len() == 0 {
        0
    } else {
        decimal_value(s.drop_last()) * 10 + digit_value(s.last())
    }
}

/// The bytes a run of hexadecimal digit pairs denotes, high digit first.
pub open spec fn hex_bytes(s: Seq<char>) -> Seq<u8>
    decreases s.len(),
{
    if s.len() < 2 {
        Seq::empty()
    } else {
        hex_bytes(s.subrange(0, s.len() - 2)).push(
            (digit_value(s[s.len() - 2]) * 16 + digit_value(s[s.len() - 1])) as u8,
        )
    }
}

/// The digit of value `k` in the table has value `k`, and is a decimal digit
/// exactly below ten.
pub proof fn lemma_digit_table(k: int)
    requires
        0 <= k < 16,
    ensures
        digit_value(digit_table()[k]) == k,
        k < 10 ==> '0' <= digit_table()[k] && digit_table()[k] <= '9',
        k >= 10 ==> 'a' <= digit_table()[k] && digit_table()[k] <= 'f',
{
    if k == 0 {
        assert(digit_table()[0] == '0');
    } else if k == 1 {
        assert(digit_table()[1] == '1');
    } else if k == 2 {
        assert(digit_table()[2] == '2');
    } else if k == 3 {
        assert(digit_table()[3] == '3');
    } else if k == 4 {
        assert(digit_table()[4] == '4');
    } else if k == 5 {
        assert(digit_table()[5] == '5');
    } else if k == 6 {
        assert(digit_table()[6] == '6');
    } else if k == 7 {
        assert(digit_table()[7] == '7');
    } else if k == 8 {
        assert(digit_table()[8] == '8');
    } else if k == 9 {
        assert(digit_table()[9] == '9');
    } else if k == 10 {
        assert(digit_table()[10] == 'a');
    } else if k == 11 {
        assert(digit_table()[11] == 'b');
    } else if k == 12 {
        assert(digit_table()[12] == 'c');
    } else if k == 13 {
        assert(digit_table()[13] == 'd');
    } else if k == 14 {
        assert(digit_table()[14] == 'e');
    } else if k == 15 {
        assert(digit_table()[15] == 'f');
    }
}

/// The decimal rendering of `n` is a run of decimal digits, without a leading
/// zero, that denotes `n`.
pub proof fn lemma_decimal_round_trip(n: nat)
    ensures
        decimal_value(decimal(n)) == n,
        decimal(n).len() >= 1,
        forall|i: int| 0 <= i < decimal(n).len() ==> '0' <= #[trigger] decimal(n)[i] && decimal(n)[i] <= '9',
        n > 0 ==> decimal(n)[0] != '0',
    decreases n,
{
    if n < 10 {
        lemma_digit_table(n as int);
        assert(decimal(n).drop_last() =~= Seq::<char>::empty());
        assert(decimal_value(decimal(n).drop_last()) == 0);
        assert(decimal(n).last() == digit_table()[n as int]);
    } else {
        let d = decimal(n / 10);
        lemma_decimal_round_trip(n / 10);
        lemma_digit_table((n % 10) as int);
        assert(decimal(n).drop_last() =~= d);
        assert(decimal(n).last() == digit_table()[(n % 10) as int]);
        assert(decimal_value(decimal(n)) == decimal_value(d) * 10 + (n % 10) as int);
        assert(decimal(n)[0] == d[0]);
        assert(n == (n / 10) * 10 + n % 10);
        assert forall|i: int| 0 <= i < decimal(n).len() implies '0' <= #[trigger] decimal(n)[i]
            && decimal(n)[i] <= '9' by {
            if i < d.len() {
                assert(decimal(n)[i] == d[i]);
            }
        }
    }
}

/// The hexadecimal rendering of bytes denotes those bytes again.
pub proof fn lemma_hex_round_trip(bytes: Seq<u8>)
    ensures
        hex_bytes(hex_lower(bytes)) == bytes,
    decreases bytes.len(),
{
    if bytes.len() > 0 {
        let rest = bytes.drop_last();
        lemma_hex_round_trip(rest);
        lemma_hex_lower_shape(rest);
        let b = bytes.last();
        lemma_digit_table((b / 16) as int);
        lemma_digit_table((b % 16) as int);
        let h = hex_lower(bytes);
        assert(h.subrange(0, h.len() - 2) =~= hex_lower(rest));
        assert(b == (b / 16) * 16 + b % 16);
        assert(bytes =~= rest.push(b));
    } else {
        assert(hex_lower(bytes) =~= Seq::<char>::empty());
    }
}

/// `p` begins `s`.
pub open spec fn starts_with(s: Seq<char>, p: Seq<char>) -> bool {
    p.len() <= s.len() && s.subrange(0, p.len() as int) == p
}

/// `p` ends `s`.
pub open spec fn ends_with(s: Seq<char>, p: Seq<char>) -> bool {
    p.len() <= s.len() && s.subrange(s.len() - p.len(), s.len() as int) == p
}

/// `pattern` occurs in `s` starting at index `i`.
pub open spec fn occurs_at(s: Seq<char>, pattern: Seq<char>, i: int) -> bool {
    0 <= i && i + pattern.len() <= s.len() && s.subrange(i, i + pattern.len()) == pattern
}

/// `pattern` occurs somewhere in `s`.
pub open spec fn contains_text(s: Seq<char>, pattern: Seq<char>) -> bool {
    exists|i: int| occurs_at(s, pattern, i)
}

/// Builds `a` followed by `b`.
pub fn join(a: &str, b: &str) -> (s: String)
    ensures
        s@ == a@ + b@,
{
    let mut s = String::new();
    s.append(a);
    s.append(b);
    s
}

/// Appends the digit of value `d` (below sixteen).
fn push_digit(s: &mut String, d: u64)
    requires
        d < 16,
    ensures
        final(s)@ == old(s)@.push(digit_table()[d as int]),
{
    let table = "0123456789abcdef";
    proof {
        reveal_strlit("0123456789abcdef");
        assert(table@ == digit_table());
        assert(table.is_ascii());
    }
    let i = d as usize;
    let one = table.substring_ascii(i, i + 1);
    assert(one@ == seq![digit_table()[d as int]]);
    s.append(one);
}

/// Appends the decimal rendering of `n`.
pub fn push_decimal(s: &mut String, n: u64)
    ensures
        final(s)@ == old(s)@ + decimal(n as nat),
    decreases n,
{
    if n >= 10 {
        push_decimal(s, n / 10);
        push_digit(s, n % 10);
    } else {
        push_digit(s, n);
    }
}

/// The decimal rendering of `n` as a new string.
pub fn decimal_string(n: u64) -> (s: String)
    ensures
        s@ == decimal(n as nat),
{
    let mut s = String::new();
    push_decimal(&mut s, n);
    s
}

/// Lower-case hexadecimal rendering of `bytes`, two digits per byte.
pub fn hex_encode(bytes: &[u8]) -> (s: String)
    ensures
        s@ == hex_lower(bytes@),
{
    let mut s = String::new();
    let mut i: usize = 0;
    while i < bytes.len()
        invariant
            i <= bytes@.len(),
            s@ == hex_lower(bytes@.subrange(0, i as int)),
        decreases bytes@.len() - i,
    {
        let b = bytes[i];
        push_digit(&mut s, (b / 16) as u64);
        push_digit(&mut s, (b % 16) as u64);
        assert(bytes@.subrange(0, i + 1).drop_last() == bytes@.subrange(0, i as int));
        i = i + 1;
    }
    assert(bytes@.subrange(0, bytes@.len() as int) == bytes@);
    s
}

/// The characters of `s`, one per element.
pub fn chars_of(s: &str) -> (v: Vec<char>)
    ensures
        v@ == s@,
{
    let n = s.unicode_len();
    let mut v: Vec<char> = Vec::new();
    let mut i: usize = 0;
    while i < n
        invariant
            n == s@.len(),
            i <= n,
            v@ == s@.subrange(0, i as int),
        decreases n - i,
    {
        v.push(s.get_char(i));
        i = i + 1;
    }
    v
}

/// Whether `pattern` occurs in `s` starting at `i`.
fn matches_at(s: &Vec<char>, pattern: &Vec<char>, i: usize) -> (m: bool)
    requires
        i + pattern@.len() <= s@.len(),
    ensures
        m == occurs_at(s@, pattern@, i as int),
{
    let slen = s.len();
    let mut j: usize = 0;
    while j < pattern.len()
        invariant
            slen == s@.len(),
            i + pattern@.len() <= s@.len(),
            j <= pattern@.len(),
            forall|k: int| 0 <= k < j ==> s@[i + k] == pattern@[k],
        decreases pattern@.len() - j,
    {
        if s[i + j] != pattern[j] {
            assert(s@.subrange(i as int, i + pattern@.len())[j as int] != pattern@[j as int]);
            return false;
        }
        j = j + 1;
    }
    assert(s@.subrange(i as int, i + pattern@.len()) =~= pattern@);
    true
}

/// Whether `pattern` occurs anywhere in `s`.
pub fn text_contains(s: &str, pattern: &str) -> (found: bool)
    ensures
        found == contains_text(s@, pattern@),
{
    let sv = chars_of(s);
    let pv = chars_of(pattern);
    if pv.len() > sv.len() {
        return false;
    }
    let last = sv.len() - pv.len();
    let mut i: usize = 0;
    loop
        invariant
            sv@ == s@,
            pv@ == pattern@,
            last == sv@.len() - pv@.len(),
            pv@.len() <= sv@.len(),
            i <= last,
            forall|k: int| 0 <= k < i ==> !occurs_at(s@, pattern@, k),
        decreases last - i,
    {
        if matches_at(&sv, &pv, i) {
            return true;
        }
        if i == last {
            assert forall|k: int| !occurs_at(s@, pattern@, k) by {
                if 0 <= k < i {
                }
            }
            return false;
        }
        i = i + 1;
    }
}

} // verus!
