//! Decimal and hexadecimal text renderings and parsings used in API paths.

use vstd::prelude::*;
use vstd::string::*;

verus! {

/// The character of a decimal digit `d` (`0 <= d < 10`).
pub open spec fn digit_char(d: nat) -> char {
    if d == 0 { '0' }
    else if d == 1 { '1' }
    else if d == 2 { '2' }
    else if d == 3 { '3' }
    else if d == 4 { '4' }
    else if d == 5 { '5' }
    else if d == 6 { '6' }
    else if d == 7 { '7' }
    else if d == 8 { '8' }
    else { '9' }
}

/// The character of a hexadecimal digit `d` (`0 <= d < 16`), lower case.
pub open spec fn hex_char(d: nat) -> char {
    if d < 10 { digit_char(d) }
    else if d == 10 { 'a' }
    else if d == 11 { 'b' }
    else if d == 12 { 'c' }
    else if d == 13 { 'd' }
    else if d == 14 { 'e' }
    else { 'f' }
}

/// The shortest decimal rendering of `n`, without sign or leading zeros.
pub open spec fn decimal_chars(n: nat) -> Seq<char>
    decreases n,
{
    if n < 10 {
        seq![digit_char(n)]
    } else {
        decimal_chars(n / 10) + seq![digit_char(n % 10)]
    }
}

/// Two lower-case hexadecimal digits per byte, most significant first.
pub open spec fn hex_chars(bytes: Seq<u8>) -> Seq<char>
    decreases bytes.len(),
{
    if bytes.len() == 0 {
        seq![]
    } else {
        hex_chars(bytes.drop_last()) + seq![
            hex_char(bytes.last() as nat / 16),
            hex_char(bytes.last() as nat % 16),
        ]
    }
}

/// `0x` followed by the lower-case hexadecimal digits of `bytes`.
pub open spec fn prefixed_hex_chars(bytes: Seq<u8>) -> Seq<char> {
    seq!['0', 'x'] + hex_chars(bytes)
}

pub open spec fn is_digit(c: char) -> bool {
    '0' <= c && c <= '9'
}

pub open spec fn digit_value(c: char) -> nat {
    (c as int - '0' as int) as nat
}

pub open spec fn is_hex_digit(c: char) -> bool {
    ('0' <= c && c <= '9') || ('a' <= c && c <= 'f') || ('A' <= c && c <= 'F')
}

pub open spec fn hex_value(c: char) -> nat {
    if '0' <= c && c <= '9' {
        (c as int - '0' as int) as nat
    } else if 'a' <= c && c <= 'f' {
        (c as int - 'a' as int + 10) as nat
    } else {
        (c as int - 'A' as int + 10) as nat
    }
}

/// The value of a sequence of decimal digits.
pub open spec fn decimal_value(s: Seq<char>) -> nat
    decreases s.len(),
{
    if s.len() == 0 {
        0
    } else {
        decimal_value(s.drop_last()) * 10 + digit_value(s.last())
    }
}

pub open spec fn all_digits(s: Seq<char>) -> bool {
    forall|i: int| 0 <= i < s.len() ==> #[trigger] is_digit(s[i])
}

/// The digits that `u64`'s `FromStr` reads: a leading `+` is dropped when something follows it.
pub open spec fn unsigned_digits(s: Seq<char>) -> Seq<char> {
    if s.len() > 1 && s[0] == '+' {
        s.drop_first()
    } else {
        s
    }
}

/// What `u64::from_str` accepts: an optional `+`, then at least one decimal digit, with a
/// value that fits in 64 bits.
pub open spec fn parse_u64_spec(s: Seq<char>) -> Option<u64> {
    let t = unsigned_digits(s);
    if t.len() > 0 && all_digits(t) && decimal_value(t) <= u64::MAX {
        Some(decimal_value(t) as u64)
    } else {
        None
    }
}

/// The bytes that `2 * n` hexadecimal digits (either case) stand for, if `s` is exactly that.
pub open spec fn parse_hex_spec(s: Seq<char>, n: nat) -> Option<Seq<u8>> {
    if s.len() == 2 * n && (forall|i: int| 0 <= i < s.len() ==> #[trigger] is_hex_digit(s[i])) {
        Some(Seq::new(n, |i: int| (16 * hex_value(s[2 * i]) + hex_value(s[2 * i + 1])) as u8))
    } else {
        None
    }
}

fn digit_str(d: u64) -> (s: &'static str)
    requires
        d < 16,
    ensures
        s@ == seq![hex_char(d as nat)],
{
    if d == 0 { proof { reveal_strlit("0"); } "0" }
    else if d == 1 { proof { reveal_strlit("1"); } "1" }
    else if d == 2 { proof { reveal_strlit("2"); } "2" }
    else if d == 3 { proof { reveal_strlit("3"); } "3" }
    else if d == 4 { proof { reveal_strlit("4"); } "4" }
    else if d == 5 { proof { reveal_strlit("5"); } "5" }
    else if d == 6 { proof { reveal_strlit("6"); } "6" }
    else if d == 7 { proof { reveal_strlit("7"); } "7" }
    else if d == 8 { proof { reveal_strlit("8"); } "8" }
    else if d == 9 { proof { reveal_strlit("9"); } "9" }
    else if d == 10 { proof { reveal_strlit("a"); } "a" }
    else if d == 11 { proof { reveal_strlit("b"); } "b" }
    else if d == 12 { proof { reveal_strlit("c"); } "c" }
    else if d == 13 { proof { reveal_strlit("d"); } "d" }
    else if d == 14 { proof { reveal_strlit("e"); } "e" }
    else { proof { reveal_strlit("f"); } "f" }
}

/// Renders `n` in decimal, as `u64`'s `Display` does.
pub fn decimal_string(n: u64) -> (s: String)
    ensures
        s@ == decimal_chars(n as nat),
    decreases n,
{
    if n < 10 {
        String::from_str(digit_str(n))
    } else {
        let mut s = decimal_string(n / 10);
        s.append(digit_str(n % 10));
        s
    }
}

/// Renders `bytes` as `0x` and lower-case hexadecimal, as the `Debug` of a fixed-size hash does.
pub fn prefixed_hex_string(bytes: &[u8]) -> (s: String)
    ensures
        s@ == prefixed_hex_chars(bytes@),
{
    let mut s = String::from_str("0x");
    proof {
        reveal_strlit("0x");
        assert(bytes@.take(0) =~= Seq::<u8>::empty());
    }
    let n = bytes.len();
    for i in 0..n
        invariant
            n == bytes@.len(),
            s@ == seq!['0', 'x'] + hex_chars(bytes@.take(i as int)),
    {
        let b = bytes[i];
        s.append(digit_str((b / 16) as u64));
        s.append(digit_str((b % 16) as u64));
        proof {
            assert(bytes@.take(i + 1).drop_last() =~= bytes@.take(i as int));
            assert(bytes@.take(i + 1).last() == b);
        }
    }
    proof {
        assert(bytes@.take(n as int) =~= bytes@);
    }
    s
}

fn char_is_digit(c: char) -> (r: bool)
    ensures
        r == is_digit(c),
{
    '0' <= c && c <= '9'
}

fn char_digit_value(c: char) -> (v: u64)
    requires
        is_digit(c),
    ensures
        v == digit_value(c),
        v < 10,
{
    (c as u32 - '0' as u32) as u64
}

fn char_hex_value(c: char) -> (v: Option<u8>)
    ensures
        v is Some <==> is_hex_digit(c),
        v matches Some(x) ==> x == hex_value(c) && x < 16,
{
    if '0' <= c && c <= '9' {
        Some((c as u32 - '0' as u32) as u8)
    } else if 'a' <= c && c <= 'f' {
        Some((c as u32 - 'a' as u32 + 10) as u8)
    } else if 'A' <= c && c <= 'F' {
        Some((c as u32 - 'A' as u32 + 10) as u8)
    } else {
        None
    }
}

/// Parses `s` as `u64::from_str` does.
pub fn parse_u64(s: &str) -> (r: Option<u64>)
    ensures
        r == parse_u64_spec(s@),
{
    let len = s.unicode_len();
    let start: usize = if len > 1 && s.get_char(0) == '+' { 1 } else { 0 };
    let ghost t = unsigned_digits(s@);
    assert(t =~= s@.skip(start as int));
    if start == len {
        return None;
    }
    let mut acc: u64 = 0;
    let mut i = start;
    while i < len
        invariant
            start <= i <= len,
            len == s@.len(),
            t =~= s@.skip(start as int),
            t == unsigned_digits(s@),
            all_digits(s@.subrange(start as int, i as int)),
            acc == decimal_value(s@.subrange(start as int, i as int)),
        decreases len - i,
    {
        let c = s.get_char(i);
        if !char_is_digit(c) {
            assert(t[i - start] == c);
            assert(!is_digit(t[i - start]));
            return None;
        }
        let d = char_digit_value(c);
        let ghost prefix = s@.subrange(start as int, i as int);
        let ghost next = s@.subrange(start as int, i + 1);
        assert(next.drop_last() =~= prefix);
        assert(next.last() == c);
        assert(decimal_value(next) == acc * 10 + d);
        match acc.checked_mul(10) {
            None => {
                proof {
                    assert(t.subrange(0, (i + 1 - start) as int) =~= next);
                    if all_digits(t) {
                        lemma_decimal_value_prefix_bound(t, (i + 1 - start) as nat);
                    }
                }
                return None;
            },
            Some(m) => match m.checked_add(d) {
                None => {
                    proof {
                        assert(t.subrange(0, (i + 1 - start) as int) =~= next);
                        if all_digits(t) {
                            lemma_decimal_value_prefix_bound(t, (i + 1 - start) as nat);
                        }
                    }
                    return None;
                },
                Some(v) => {
                    acc = v;
                },
            },
        }
        i = i + 1;
        assert forall|j: int| 0 <= j < next.len() implies #[trigger] is_digit(next[j]) by {
            if j < prefix.len() {
                assert(next[j] == prefix[j]);
            }
        }
    }
    assert(s@.subrange(start as int, len as int) =~= t);
    Some(acc)
}

/// A prefix of a digit string never has a larger value than the whole string.
proof fn lemma_decimal_value_prefix_bound(s: Seq<char>, k: nat)
    requires
        k <= s.len(),
        all_digits(s),
    ensures
        decimal_value(s.subrange(0, k as int)) <= decimal_value(s),
    decreases s.len(),
{
    if k < s.len() {
        let d = s.drop_last();
        assert(all_digits(d)) by {
            assert forall|i: int| 0 <= i < d.len() implies #[trigger] is_digit(d[i]) by {
                assert(d[i] == s[i]);
            }
        }
        lemma_decimal_value_prefix_bound(d, k);
        assert(d.subrange(0, k as int) =~= s.subrange(0, k as int));
        assert(decimal_value(s) == decimal_value(d) * 10 + digit_value(s.last()));
    } else {
        assert(s.subrange(0, k as int) =~= s);
    }
}

/// Parses exactly 64 hexadecimal digits (either case) into 32 bytes.
pub fn parse_hex_32(s: &str) -> (r: Option<[u8; 32]>)
    ensures
        match parse_hex_spec(s@, 32) {
            Some(b) => r matches Some(a) && a@ == b,
            None => r is None,
        },
{
    let len = s.unicode_len();
    if len != 64 {
        return None;
    }
    let mut out: [u8; 32] = [0u8; 32];
    let mut i: usize = 0;
    while i < 32
        invariant
            i <= 32,
            len == s@.len() == 64,
            forall|j: int| 0 <= j < 2 * i ==> #[trigger] is_hex_digit(s@[j]),
            forall|j: int|
                0 <= j < i ==> #[trigger] out@[j] == (16 * hex_value(s@[2 * j]) + hex_value(
                    s@[2 * j + 1],
                )) as u8,
        decreases 32 - i,
    {
        let hi = char_hex_value(s.get_char(2 * i));
        let lo = char_hex_value(s.get_char(2 * i + 1));
        match (hi, lo) {
            (Some(h), Some(l)) => {
                out[i] = h * 16 + l;
            },
            _ => {
                return None;
            },
        }
        i = i + 1;
    }
    proof {
        assert forall|j: int| 0 <= j < s@.len() implies #[trigger] is_hex_digit(s@[j]) by {}
        let b = Seq::new(32, |k: int| (16 * hex_value(s@[2 * k]) + hex_value(s@[2 * k + 1])) as u8);
        assert(out@ =~= b);
    }
    Some(out)
}

// ---------------------------------------------------------------------------------------------
// Facts about the renderings.

proof fn lemma_digit_char(d: nat)
    requires
        d < 10,
    ensures
        is_digit(digit_char(d)),
        digit_value(digit_char(d)) == d,
        digit_char(d) != '+',
{
}

proof fn lemma_hex_char(d: nat)
    requires
        d < 16,
    ensures
        is_hex_digit(hex_char(d)),
        hex_value(hex_char(d)) == d,
{
}

/// The decimal rendering is a non-empty string of digits whose value is `n`.
pub proof fn lemma_decimal_chars(n: nat)
    ensures
        decimal_chars(n).len() > 0,
        all_digits(decimal_chars(n)),
        decimal_value(decimal_chars(n)) == n,
        n < 10 <==> decimal_chars(n).len() == 1,
    decreases n,
{
    if n < 10 {
        lemma_digit_char(n);
        assert(decimal_chars(n).drop_last() =~= Seq::<char>::empty());
        assert(decimal_value(Seq::<char>::empty()) == 0);
    } else {
        lemma_decimal_chars(n / 10);
        lemma_digit_char(n % 10);
        let s = decimal_chars(n);
        assert(s.drop_last() =~= decimal_chars(n / 10));
        assert(s.last() == digit_char(n % 10));
        assert(decimal_value(s) == decimal_value(decimal_chars(n / 10)) * 10 + digit_value(s.last()));
        assert((n / 10) * 10 + n % 10 == n);
        assert forall|i: int| 0 <= i < s.len() implies #[trigger] is_digit(s[i]) by {
            if i < s.len() - 1 {
                assert(s[i] == decimal_chars(n / 10)[i]);
            }
        }
    }
}

/// `u64`'s decimal rendering parses back to the same number.
pub proof fn lemma_parse_decimal(n: u64)
    ensures
        parse_u64_spec(decimal_chars(n as nat)) == Some(n),
{
    lemma_decimal_chars(n as nat);
    let s = decimal_chars(n as nat);
    assert(is_digit(s[0]));
    assert(unsigned_digits(s) == s);
}

/// The hexadecimal rendering has two digits per byte, high nibble first.
pub proof fn lemma_hex_chars(bytes: Seq<u8>)
    ensures
        hex_chars(bytes).len() == 2 * bytes.len(),
        forall|i: int|
            0 <= i < bytes.len() ==> #[trigger] hex_chars(bytes)[2 * i] == hex_char(
                bytes[i] as nat / 16,
            ) && hex_chars(bytes)[2 * i + 1] == hex_char(bytes[i] as nat % 16),
    decreases bytes.len(),
{
    if bytes.len() > 0 {
        let d = bytes.drop_last();
        lemma_hex_chars(d);
        assert forall|i: int| 0 <= i < bytes.len() implies #[trigger] hex_chars(bytes)[2 * i]
            == hex_char(bytes[i] as nat / 16) && hex_chars(bytes)[2 * i + 1] == hex_char(
            bytes[i] as nat % 16,
        ) by {
            if i < d.len() {
                assert(d[i] == bytes[i]);
                assert(hex_chars(d)[2 * i] == hex_char(d[i] as nat / 16));
            }
        }
    }
}

/// The hexadecimal rendering of bytes parses back to the same bytes.
pub proof fn lemma_parse_hex(bytes: Seq<u8>)
    ensures
        parse_hex_spec(hex_chars(bytes), bytes.len()) == Some(bytes),
{
    lemma_hex_chars(bytes);
    let s = hex_chars(bytes);
    assert forall|i: int| 0 <= i < s.len() implies #[trigger] is_hex_digit(s[i]) by {
        let k = i / 2;
        if i % 2 == 0 {
            assert(i == 2 * k);
            assert(s[2 * k] == hex_char(bytes[k] as nat / 16));
            lemma_hex_char(bytes[k] as nat / 16);
        } else {
            assert(i == 2 * k + 1);
            assert(s[2 * k] == hex_char(bytes[k] as nat / 16));
            lemma_hex_char(bytes[k] as nat % 16);
        }
    }
    let b = Seq::new(bytes.len(), |i: int| (16 * hex_value(s[2 * i]) + hex_value(s[2 * i + 1])) as u8);
    assert forall|i: int| 0 <= i < bytes.len() implies b[i] == bytes[i] by {
        assert(s[2 * i] == hex_char(bytes[i] as nat / 16));
        lemma_hex_char(bytes[i] as nat / 16);
        lemma_hex_char(bytes[i] as nat % 16);
    }
    assert(b =~= bytes);
}

/// A lower-case hexadecimal digit.
pub open spec fn is_lower_hex_digit(c: char) -> bool {
    ('0' <= c && c <= '9') || ('a' <= c && c <= 'f')
}

/// `0x` and then, for each byte in order, two lower-case hexadecimal digits whose values give
/// back the byte, high digit first.
pub proof fn lemma_prefixed_hex_digits(bytes: Seq<u8>)
    ensures
        prefixed_hex_chars(bytes).len() == 2 + 2 * bytes.len(),
        prefixed_hex_chars(bytes)[0] == '0',
        prefixed_hex_chars(bytes)[1] == 'x',
        forall|i: int|
            #![trigger bytes[i]]
            0 <= i < bytes.len() ==> {
                &&& prefixed_hex_chars(bytes)[2 + 2 * i] == hex_char(bytes[i] as nat / 16)
                &&& prefixed_hex_chars(bytes)[3 + 2 * i] == hex_char(bytes[i] as nat % 16)
                &&& is_lower_hex_digit(prefixed_hex_chars(bytes)[2 + 2 * i])
                &&& is_lower_hex_digit(prefixed_hex_chars(bytes)[3 + 2 * i])
                &&& hex_value(prefixed_hex_chars(bytes)[2 + 2 * i]) * 16 + hex_value(
                    prefixed_hex_chars(bytes)[3 + 2 * i],
                ) == bytes[i]
            },
{
    lemma_hex_chars(bytes);
    let s = prefixed_hex_chars(bytes);
    let h = hex_chars(bytes);
    assert forall|i: int|
        #![trigger bytes[i]]
        0 <= i < bytes.len() implies {
            &&& s[2 + 2 * i] == hex_char(bytes[i] as nat / 16)
            &&& s[3 + 2 * i] == hex_char(bytes[i] as nat % 16)
            &&& is_lower_hex_digit(s[2 + 2 * i])
            &&& is_lower_hex_digit(s[3 + 2 * i])
            &&& hex_value(s[2 + 2 * i]) * 16 + hex_value(s[3 + 2 * i]) == bytes[i]
        } by {
        assert(s[2 + 2 * i] == h[2 * i]);
        assert(s[3 + 2 * i] == h[2 * i + 1]);
        assert(h[2 * i] == hex_char(bytes[i] as nat / 16));
        let b = bytes[i] as nat;
        lemma_hex_char(b / 16);
        lemma_hex_char(b % 16);
        assert(b / 16 * 16 + b % 16 == b);
    }
}

} // verus!
