//! Text forms of byte strings and numbers: lowercase hex with the `0x`
//! prefix, the hex of 32-byte hashes read back, and decimal numbers.
use vstd::prelude::*;
use vstd::string::*;

verus! {

/// The lowercase hex digit of a nibble.
pub open spec fn hex_char(d: int) -> char
    recommends
        0 <= d < 16,
{
    if d < 10 {
        (48 + d) as char
    } else {
        (87 + d) as char
    }
}

/// The lowercase hex of a byte string, two digits a byte, high nibble first.
pub open spec fn lower_hex(bytes: Seq<u8>) -> Seq<char> {
    Seq::new(
        2 * bytes.len(),
        |i: int|
            if i % 2 == 0 {
                hex_char(bytes[i / 2] as int / 16)
            } else {
                hex_char(bytes[i / 2] as int % 16)
            },
    )
}

/// The `0x`-prefixed lowercase hex of a byte string.
pub open spec fn prefixed_hex(bytes: Seq<u8>) -> Seq<char> {
    seq!['0', 'x'] + lower_hex(bytes)
}

/// The decimal digit of a number below ten.
pub open spec fn decimal_char(d: int) -> char {
    (48 + d) as char
}

/// The decimal form of a natural number, without leading zeros.
pub open spec fn decimal(n: nat) -> Seq<char>
    decreases n,
{
    if n < 10 {
        seq![decimal_char(n as int)]
    } else {
        decimal(n / 10).push(decimal_char((n % 10) as int))
    }
}

/// The value of a hex digit, of either case.
pub open spec fn hex_value(c: char) -> Option<int> {
    if '0' <= c && c <= '9' {
        Some(c as int - 48)
    } else if 'a' <= c && c <= 'f' {
        Some(c as int - 87)
    } else if 'A' <= c && c <= 'F' {
        Some(c as int - 55)
    } else {
        None
    }
}

/// The byte that a two-character hex field denotes: two hex digits, or a
/// `+` sign followed by one.
pub open spec fn pair_value(c0: char, c1: char) -> Option<u8> {
    match (hex_value(c0), hex_value(c1)) {
        (Some(h), Some(l)) => Some((16 * h + l) as u8),
        (None, Some(l)) => if c0 == '+' {
            Some(l as u8)
        } else {
            None
        },
        _ => None,
    }
}

/// The text without a leading `0x`, where it has one.
pub open spec fn strip_0x(s: Seq<char>) -> Seq<char> {
    if s.len() >= 2 && s[0] == '0' && s[1] == 'x' {
        s.skip(2)
    } else {
        s
    }
}

/// The text denotes a 32-byte hash: 64 characters after an optional `0x`,
/// each pair of them a byte.
pub open spec fn is_hash_text(s: Seq<char>) -> bool {
    let h = strip_0x(s);
    &&& h.len() == 64
    &&& forall|i: int| 0 <= i < 32 ==> #[trigger] pair_value(h[2 * i], h[2 * i + 1]) is Some
}

/// The 32 bytes that a hash text denotes.
pub open spec fn hash_of_text(s: Seq<char>) -> Seq<u8> {
    let h = strip_0x(s);
    Seq::new(32, |i: int| pair_value(h[2 * i], h[2 * i + 1])->0)
}

/// The one-character text of a hex digit.
fn hex_digit_str(d: u8) -> (s: &'static str)
    requires
        d < 16,
    ensures
        s@ == seq![hex_char(d as int)],
{
    proof {
        reveal_strlit("0");
        reveal_strlit("1");
        reveal_strlit("2");
        reveal_strlit("3");
        reveal_strlit("4");
        reveal_strlit("5");
        reveal_strlit("6");
        reveal_strlit("7");
        reveal_strlit("8");
        reveal_strlit("9");
        reveal_strlit("a");
        reveal_strlit("b");
        reveal_strlit("c");
        reveal_strlit("d");
        reveal_strlit("e");
        reveal_strlit("f");
    }
    match d {
        0 => "0",
        1 => "1",
        2 => "2",
        3 => "3",
        4 => "4",
        5 => "5",
        6 => "6",
        7 => "7",
        8 => "8",
        9 => "9",
        10 => "a",
        11 => "b",
        12 => "c",
        13 => "d",
        14 => "e",
        _ => "f",
    }
}

/// Lowercase hex of a byte string, two digits a byte.
pub fn encode_hex(bytes: &[u8]) -> (s: String)
    ensures
        s@ == lower_hex(bytes@),
{
    let mut s = String::new();
    let n = bytes.len();
    for i in 0..n
        invariant
            n == bytes@.len(),
            s@ =~= lower_hex(bytes@.take(i as int)),
    {
        let b = bytes[i];
        s.append(hex_digit_str(b / 16));
        s.append(hex_digit_str(b % 16));
        assert(s@ =~= lower_hex(bytes@.take(i + 1)));
    }
    assert(bytes@.take(n as int) =~= bytes@);
    s
}

/// Lowercase hex of a byte string after a `0x` prefix.
pub fn to_hex(bytes: &[u8]) -> (s: String)
    ensures
        s@ == prefixed_hex(bytes@),
{
    let mut s = String::from_str("0x");
    proof {
        reveal_strlit("0x");
    }
    let digits = encode_hex(bytes);
    s.append(digits.as_str());
    s
}

/// The decimal form of a number.
pub fn decimal_string(n: u64) -> (s: String)
    ensures
        s@ == decimal(n as nat),
    decreases n,
{
    if n < 10 {
        String::from_str(hex_digit_str(n as u8))
    } else {
        let mut s = decimal_string(n / 10);
        s.append(hex_digit_str((n % 10) as u8));
        s
    }
}

/// The value of a hex digit of either case; `None` for any other character.
fn hex_digit_value(c: char) -> (v: Option<u8>)
    ensures
        v is Some <==> hex_value(c) is Some,
        v matches Some(x) ==> x as int == hex_value(c)->0,
{
    if '0' <= c && c <= '9' {
        Some((c as u32 - 48) as u8)
    } else if 'a' <= c && c <= 'f' {
        Some((c as u32 - 87) as u8)
    } else if 'A' <= c && c <= 'F' {
        Some((c as u32 - 55) as u8)
    } else {
        None
    }
}

/// The byte of a two-character hex field, as `u8::from_str_radix` with
/// radix 16 reads it.
fn pair_byte(c0: char, c1: char) -> (v: Option<u8>)
    ensures
        v == pair_value(c0, c1),
{
    match (hex_digit_value(c0), hex_digit_value(c1)) {
        (Some(h), Some(l)) => Some(16 * h + l),
        (None, Some(l)) => if c0 == '+' {
            Some(l)
        } else {
            None
        },
        _ => None,
    }
}

/// Reads a 32-byte hash from its hex text, with or without a `0x` prefix;
/// `None` where the text is no such hash.
pub fn parse_hash(s: &str) -> (r: Option<[u8; 32]>)
    ensures
        r is Some <==> is_hash_text(s@),
        r matches Some(a) ==> a@ == hash_of_text(s@),
        r matches Some(a) ==> forall|k: int|
            0 <= k < 32 ==> pair_value(strip_0x(s@)[2 * k], strip_0x(s@)[2 * k + 1]) == Some(
                #[trigger] a@[k],
            ),
{
    let len = s.unicode_len();
    let offset: usize = if len >= 2 && s.get_char(0) == '0' && s.get_char(1) == 'x' {
        2
    } else {
        0
    };
    let ghost h = strip_0x(s@);
    assert(h =~= s@.skip(offset as int));
    if len - offset != 64 {
        return None;
    }
    let mut a: [u8; 32] = [0u8; 32];
    for i in 0..32usize
        invariant
            len == s@.len(),
            h == s@.skip(offset as int),
            h.len() == 64,
            offset + 64 == len,
            forall|j: int| 0 <= j < i ==> #[trigger] pair_value(h[2 * j], h[2 * j + 1]) is Some,
            forall|j: int| 0 <= j < i ==> a@[j] == pair_value(h[2 * j], h[2 * j + 1])->0,
    {
        let c0 = s.get_char(offset + 2 * i);
        let c1 = s.get_char(offset + 2 * i + 1);
        assert(c0 == h[2 * i] && c1 == h[2 * i + 1]);
        match pair_byte(c0, c1) {
            Some(b) => {
                a[i] = b;
            },
            None => {
                return None;
            },
        }
    }
    assert(a@ =~= hash_of_text(s@));
    Some(a)
}

/// Whether the text is the hex of a 32-byte hash, with or without a `0x`
/// prefix.
pub fn is_hash(s: &str) -> (b: bool)
    ensures
        b == is_hash_text(s@),
{
    parse_hash(s).is_some()
}

/// Reads a 32-byte hash from its hex text, with or without a `0x` prefix.
pub fn hash_from_hex(s: &str) -> (a: [u8; 32])
    requires
        is_hash_text(s@),
    ensures
        a@ == hash_of_text(s@),
{
    parse_hash(s).unwrap()
}

/// Hex text is lowercase: every digit written for a byte string is one of
/// `0`-`9` or `a`-`f`, the two digits of the `k`-th byte stand at `2k` and
/// `2k + 1`, and are read back as its high and low nibbles.
pub proof fn lower_hex_digits(bytes: Seq<u8>)
    ensures
        lower_hex(bytes).len() == 2 * bytes.len(),
        forall|i: int|
            0 <= i < 2 * bytes.len() ==> ('0' <= #[trigger] lower_hex(bytes)[i] <= '9') || ('a'
                <= lower_hex(bytes)[i] <= 'f'),
        forall|k: int|
            0 <= k < bytes.len() ==> hex_value(#[trigger] lower_hex(bytes)[2 * k]) == Some(
                bytes[k] as int / 16,
            ) && hex_value(lower_hex(bytes)[2 * k + 1]) == Some(bytes[k] as int % 16),
{
    assert forall|i: int| 0 <= i < 2 * bytes.len() implies ('0' <= #[trigger] lower_hex(bytes)[i]
        <= '9') || ('a' <= lower_hex(bytes)[i] <= 'f') by {
        lemma_hex_char_value(bytes[i / 2] as int / 16);
        lemma_hex_char_value(bytes[i / 2] as int % 16);
    }
    assert forall|k: int| 0 <= k < bytes.len() implies hex_value(#[trigger] lower_hex(bytes)[2 * k])
        == Some(bytes[k] as int / 16) && hex_value(lower_hex(bytes)[2 * k + 1]) == Some(
        bytes[k] as int % 16,
    ) by {
        assert((2 * k) / 2 == k && (2 * k) % 2 == 0);
        assert((2 * k + 1) / 2 == k && (2 * k + 1) % 2 == 1);
        lemma_hex_char_value(bytes[k] as int / 16);
        lemma_hex_char_value(bytes[k] as int % 16);
    }
}

/// Decimal text: a number below ten is its one digit, and a larger number
/// is the text of its tens followed by the digit of its ones.
pub proof fn decimal_digits(n: nat, d: nat)
    ensures
        n < 10 ==> decimal(n) == seq![('0' as int + n) as char],
        n >= 1 && d < 10 ==> decimal(10 * n + d) == decimal(n).push(('0' as int + d) as char),
{
    if n >= 1 && d < 10 {
        assert((10 * n + d) / 10 == n);
        assert((10 * n + d) % 10 == d);
    }
}

/// A lowercase hex digit: `0`-`9` or `a`-`f`.
pub open spec fn is_lower_hex_digit(c: char) -> bool {
    ('0' <= c && c <= '9') || ('a' <= c && c <= 'f')
}

/// The canonical text of a 32-byte hash: `0x` and 64 lowercase hex digits.
pub open spec fn is_canonical_hash_text(s: Seq<char>) -> bool {
    &&& s.len() == 66
    &&& s[0] == '0'
    &&& s[1] == 'x'
    &&& forall|i: int| 2 <= i < 66 ==> is_lower_hex_digit(#[trigger] s[i])
}

/// A hex digit is read back as the nibble it was written for.
pub proof fn lemma_hex_char_value(d: int)
    requires
        0 <= d < 16,
    ensures
        hex_value(hex_char(d)) == Some(d),
        is_lower_hex_digit(hex_char(d)),
{
}

/// A lowercase hex digit is written back from the value it is read as.
pub proof fn lemma_lower_hex_digit_char(c: char)
    requires
        is_lower_hex_digit(c),
    ensures
        hex_value(c) is Some,
        0 <= hex_value(c)->0 < 16,
        hex_char(hex_value(c)->0) == c,
{
}

/// The two hex digits of a byte are read back as that byte.
pub proof fn lemma_byte_pair(b: u8)
    ensures
        pair_value(hex_char(b as int / 16), hex_char(b as int % 16)) == Some(b),
{
    lemma_hex_char_value(b as int / 16);
    lemma_hex_char_value(b as int % 16);
    assert(16 * (b as int / 16) + b as int % 16 == b as int);
}

/// Writing a 32-byte hash as `0x`-prefixed hex and reading it back gives the hash.
pub proof fn lemma_hash_text_round_trip(a: Seq<u8>)
    requires
        a.len() == 32,
    ensures
        is_hash_text(prefixed_hex(a)),
        is_canonical_hash_text(prefixed_hex(a)),
        hash_of_text(prefixed_hex(a)) == a,
{
    let t = prefixed_hex(a);
    assert(strip_0x(t) =~= lower_hex(a));
    assert forall|i: int| 0 <= i < 32 implies #[trigger] pair_value(
        lower_hex(a)[2 * i],
        lower_hex(a)[2 * i + 1],
    ) == Some(a[i]) by {
        assert((2 * i) / 2 == i);
        assert((2 * i + 1) / 2 == i);
        assert((2 * i) % 2 == 0);
        assert((2 * i + 1) % 2 == 1);
        lemma_byte_pair(a[i]);
    }
    assert forall|i: int| 2 <= i < 66 implies is_lower_hex_digit(#[trigger] t[i]) by {
        let j = i - 2;
        if j % 2 == 0 {
            lemma_hex_char_value(a[j / 2] as int / 16);
        } else {
            lemma_hex_char_value(a[j / 2] as int % 16);
        }
    }
    assert(hash_of_text(t) =~= a);
}

/// Reading a canonical hash text and writing the hash back gives the text.
pub proof fn lemma_canonical_hash_text_round_trip(s: Seq<char>)
    requires
        is_canonical_hash_text(s),
    ensures
        is_hash_text(s),
        prefixed_hex(hash_of_text(s)) == s,
{
    let h = strip_0x(s);
    assert(h =~= s.skip(2));
    assert forall|i: int| 0 <= i < 32 implies #[trigger] pair_value(h[2 * i], h[2 * i + 1])
        == Some((16 * hex_value(h[2 * i])->0 + hex_value(h[2 * i + 1])->0) as u8) by {
        lemma_lower_hex_digit_char(h[2 * i]);
        lemma_lower_hex_digit_char(h[2 * i + 1]);
    }
    let a = hash_of_text(s);
    assert forall|j: int| 0 <= j < 64 implies #[trigger] lower_hex(a)[j] == h[j] by {
        let i = j / 2;
        let hi = hex_value(h[2 * i])->0;
        let lo = hex_value(h[2 * i + 1])->0;
        lemma_lower_hex_digit_char(h[2 * i]);
        lemma_lower_hex_digit_char(h[2 * i + 1]);
        assert(a[i] as int == 16 * hi + lo);
        assert((16 * hi + lo) / 16 == hi);
        assert((16 * hi + lo) % 16 == lo);
    }
    assert(prefixed_hex(a) =~= s);
}

} // verus!
