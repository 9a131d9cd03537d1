//! Which feeds are handed to feed-rs.
//!
//! feed-rs panics on some inputs: it cuts the name around an e-mail address that a regular
//! expression finds in a person's name (`parse_person_name_email`) as if the characters next
//! to the address were one byte long; it unwraps `parse::<u64>()` of the numbers in iTunes
//! durations and MediaRSS `start`, `end` and `time` values (`parse_npt`); and its XML reader
//! asserts when a declaration names another encoding after the first bytes were decoded. The
//! predicate `feed_admitted` leaves out every feed that can reach one of those panics. It is
//! read on the raw bytes, so it also leaves out some feeds that would parse.
use vstd::prelude::*;
use crate::text::{contains, occurs_at, bytes_contain, bytes_match_at};
use vstd::utf8::encode_utf8;

verus! {

/// An ASCII digit.
pub open spec fn is_ascii_digit(b: u8) -> bool {
    0x30 <= b <= 0x39
}

/// An ASCII letter.
pub open spec fn is_ascii_letter(b: u8) -> bool {
    (0x41 <= b <= 0x5a) || (0x61 <= b <= 0x7a)
}

/// An ASCII hexadecimal digit.
pub open spec fn is_hex_digit(b: u8) -> bool {
    is_ascii_digit(b) || (0x41 <= b <= 0x46) || (0x61 <= b <= 0x66)
}

/// The value of a hexadecimal digit.
pub open spec fn hex_digit_value(b: u8) -> int {
    if is_ascii_digit(b) {
        b - 0x30
    } else if 0x41 <= b <= 0x46 {
        b - 0x41 + 10
    } else {
        b - 0x61 + 10
    }
}

/// Index of the first byte at or after `j` that is not an ASCII digit, or the length.
pub open spec fn digits_end(s: Seq<u8>, j: int) -> int
    decreases s.len() - j,
{
    if j >= s.len() {
        s.len() as int
    } else if is_ascii_digit(s[j]) {
        digits_end(s, j + 1)
    } else {
        j
    }
}

/// Index of the first byte at or after `j` that is not a hexadecimal digit, or the length.
pub open spec fn hex_digits_end(s: Seq<u8>, j: int) -> int
    decreases s.len() - j,
{
    if j >= s.len() {
        s.len() as int
    } else if is_hex_digit(s[j]) {
        hex_digits_end(s, j + 1)
    } else {
        j
    }
}

/// The number written in decimal by the bytes `s[a..e]`.
pub open spec fn decimal_value(s: Seq<u8>, a: int, e: int) -> int
    decreases e - a,
{
    if e <= a {
        0
    } else {
        decimal_value(s, a, e - 1) * 10 + (s[e - 1] - 0x30)
    }
}

/// The number written in hexadecimal by the bytes `s[a..e]`.
pub open spec fn hex_value(s: Seq<u8>, a: int, e: int) -> int
    decreases e - a,
{
    if e <= a {
        0
    } else {
        hex_value(s, a, e - 1) * 16 + hex_digit_value(s[e - 1])
    }
}

/// A numeric character reference `&#` starts at `i`.
pub open spec fn char_ref_at(s: Seq<u8>, i: int) -> bool {
    0 <= i && i + 1 < s.len() && s[i] == 0x26 && s[i + 1] == 0x23
}

/// The code point of the character reference at `i` when it is `&#` and one to six decimal
/// digits, or `&#x` and one to six hexadecimal digits, then `;`.
pub open spec fn char_ref_value(s: Seq<u8>, i: int) -> Option<int> {
    if char_ref_at(s, i) && i + 2 < s.len() {
        let hex = s[i + 2] == 0x78;
        let d = if hex { i + 3 } else { i + 2 };
        let e = if hex { hex_digits_end(s, d) } else { digits_end(s, d) };
        if d < e && e - d <= 6 && e < s.len() && s[e] == 0x3b {
            Some(if hex { hex_value(s, d, e) } else { decimal_value(s, d, e) })
        } else {
            None
        }
    } else {
        None
    }
}

/// A JSON escape `\u` starts at `i`.
pub open spec fn json_escape_at(s: Seq<u8>, i: int) -> bool {
    0 <= i && i + 1 < s.len() && s[i] == 0x5c && s[i + 1] == 0x75
}

/// The code unit of the JSON escape at `i` when four hexadecimal digits follow `\u`.
pub open spec fn json_escape_value(s: Seq<u8>, i: int) -> Option<int> {
    if json_escape_at(s, i) && i + 6 <= s.len() && hex_digits_end(s, i + 2) >= i + 6 {
        Some(hex_value(s, i + 2, i + 6))
    } else {
        None
    }
}

/// An escape that can stand for another character starts at `i`: a numeric character
/// reference of XML or a `\u` escape of JSON.
pub open spec fn escape_at(s: Seq<u8>, i: int) -> bool {
    char_ref_at(s, i) || json_escape_at(s, i)
}

/// What the escape at `i` stands for, when it is in one of the forms read here.
pub open spec fn escape_value(s: Seq<u8>, i: int) -> Option<int> {
    if char_ref_at(s, i) {
        char_ref_value(s, i)
    } else {
        json_escape_value(s, i)
    }
}

/// The escape at `i` may stand for `@`.
pub open spec fn at_escape(s: Seq<u8>, i: int) -> bool {
    escape_at(s, i) && match escape_value(s, i) {
        Some(v) => v == 0x40,
        None => true,
    }
}

/// The escape at `i` may stand for a character outside ASCII.
pub open spec fn high_escape(s: Seq<u8>, i: int) -> bool {
    escape_at(s, i) && match escape_value(s, i) {
        Some(v) => v >= 0x80,
        None => true,
    }
}

/// The code points that the regex crate's `\d` matches (Unicode general category Nd).
pub open spec fn is_decimal_digit(c: int) -> bool {
    ||| 0x30 <= c <= 0x39
    ||| 0x660 <= c <= 0x669
    ||| 0x6f0 <= c <= 0x6f9
    ||| 0x7c0 <= c <= 0x7c9
    ||| 0x966 <= c <= 0x96f
    ||| 0x9e6 <= c <= 0x9ef
    ||| 0xa66 <= c <= 0xa6f
    ||| 0xae6 <= c <= 0xaef
    ||| 0xb66 <= c <= 0xb6f
    ||| 0xbe6 <= c <= 0xbef
    ||| 0xc66 <= c <= 0xc6f
    ||| 0xce6 <= c <= 0xcef
    ||| 0xd66 <= c <= 0xd6f
    ||| 0xde6 <= c <= 0xdef
    ||| 0xe50 <= c <= 0xe59
    ||| 0xed0 <= c <= 0xed9
    ||| 0xf20 <= c <= 0xf29
    ||| 0x1040 <= c <= 0x1049
    ||| 0x1090 <= c <= 0x1099
    ||| 0x17e0 <= c <= 0x17e9
    ||| 0x1810 <= c <= 0x1819
    ||| 0x1946 <= c <= 0x194f
    ||| 0x19d0 <= c <= 0x19d9
    ||| 0x1a80 <= c <= 0x1a89
    ||| 0x1a90 <= c <= 0x1a99
    ||| 0x1b50 <= c <= 0x1b59
    ||| 0x1bb0 <= c <= 0x1bb9
    ||| 0x1c40 <= c <= 0x1c49
    ||| 0x1c50 <= c <= 0x1c59
    ||| 0xa620 <= c <= 0xa629
    ||| 0xa8d0 <= c <= 0xa8d9
    ||| 0xa900 <= c <= 0xa909
    ||| 0xa9d0 <= c <= 0xa9d9
    ||| 0xa9f0 <= c <= 0xa9f9
    ||| 0xaa50 <= c <= 0xaa59
    ||| 0xabf0 <= c <= 0xabf9
    ||| 0xff10 <= c <= 0xff19
    ||| 0x104a0 <= c <= 0x104a9
    ||| 0x10d30 <= c <= 0x10d39
    ||| 0x10d40 <= c <= 0x10d49
    ||| 0x11066 <= c <= 0x1106f
    ||| 0x110f0 <= c <= 0x110f9
    ||| 0x11136 <= c <= 0x1113f
    ||| 0x111d0 <= c <= 0x111d9
    ||| 0x112f0 <= c <= 0x112f9
    ||| 0x11450 <= c <= 0x11459
    ||| 0x114d0 <= c <= 0x114d9
    ||| 0x11650 <= c <= 0x11659
    ||| 0x116c0 <= c <= 0x116c9
    ||| 0x116d0 <= c <= 0x116e3
    ||| 0x11730 <= c <= 0x11739
    ||| 0x118e0 <= c <= 0x118e9
    ||| 0x11950 <= c <= 0x11959
    ||| 0x11bf0 <= c <= 0x11bf9
    ||| 0x11c50 <= c <= 0x11c59
    ||| 0x11d50 <= c <= 0x11d59
    ||| 0x11da0 <= c <= 0x11da9
    ||| 0x11f50 <= c <= 0x11f59
    ||| 0x16130 <= c <= 0x16139
    ||| 0x16a60 <= c <= 0x16a69
    ||| 0x16ac0 <= c <= 0x16ac9
    ||| 0x16b50 <= c <= 0x16b59
    ||| 0x16d70 <= c <= 0x16d79
    ||| 0x1ccf0 <= c <= 0x1ccf9
    ||| 0x1d7ce <= c <= 0x1d7ff
    ||| 0x1e140 <= c <= 0x1e149
    ||| 0x1e2f0 <= c <= 0x1e2f9
    ||| 0x1e4f0 <= c <= 0x1e4f9
    ||| 0x1e5f1 <= c <= 0x1e5fa
    ||| 0x1e950 <= c <= 0x1e959
    ||| 0x1fbf0 <= c <= 0x1fbf9
}

/// Whether `c` is a code point that `\d` matches.
pub fn decimal_digit(c: u32) -> (r: bool)
    ensures
        r == is_decimal_digit(c as int),
{
    (0x30 <= c && c <= 0x39)
        || (0x660 <= c && c <= 0x669)
        || (0x6f0 <= c && c <= 0x6f9)
        || (0x7c0 <= c && c <= 0x7c9)
        || (0x966 <= c && c <= 0x96f)
        || (0x9e6 <= c && c <= 0x9ef)
        || (0xa66 <= c && c <= 0xa6f)
        || (0xae6 <= c && c <= 0xaef)
        || (0xb66 <= c && c <= 0xb6f)
        || (0xbe6 <= c && c <= 0xbef)
        || (0xc66 <= c && c <= 0xc6f)
        || (0xce6 <= c && c <= 0xcef)
        || (0xd66 <= c && c <= 0xd6f)
        || (0xde6 <= c && c <= 0xdef)
        || (0xe50 <= c && c <= 0xe59)
        || (0xed0 <= c && c <= 0xed9)
        || (0xf20 <= c && c <= 0xf29)
        || (0x1040 <= c && c <= 0x1049)
        || (0x1090 <= c && c <= 0x1099)
        || (0x17e0 <= c && c <= 0x17e9)
        || (0x1810 <= c && c <= 0x1819)
        || (0x1946 <= c && c <= 0x194f)
        || (0x19d0 <= c && c <= 0x19d9)
        || (0x1a80 <= c && c <= 0x1a89)
        || (0x1a90 <= c && c <= 0x1a99)
        || (0x1b50 <= c && c <= 0x1b59)
        || (0x1bb0 <= c && c <= 0x1bb9)
        || (0x1c40 <= c && c <= 0x1c49)
        || (0x1c50 <= c && c <= 0x1c59)
        || (0xa620 <= c && c <= 0xa629)
        || (0xa8d0 <= c && c <= 0xa8d9)
        || (0xa900 <= c && c <= 0xa909)
        || (0xa9d0 <= c && c <= 0xa9d9)
        || (0xa9f0 <= c && c <= 0xa9f9)
        || (0xaa50 <= c && c <= 0xaa59)
        || (0xabf0 <= c && c <= 0xabf9)
        || (0xff10 <= c && c <= 0xff19)
        || (0x104a0 <= c && c <= 0x104a9)
        || (0x10d30 <= c && c <= 0x10d39)
        || (0x10d40 <= c && c <= 0x10d49)
        || (0x11066 <= c && c <= 0x1106f)
        || (0x110f0 <= c && c <= 0x110f9)
        || (0x11136 <= c && c <= 0x1113f)
        || (0x111d0 <= c && c <= 0x111d9)
        || (0x112f0 <= c && c <= 0x112f9)
        || (0x11450 <= c && c <= 0x11459)
        || (0x114d0 <= c && c <= 0x114d9)
        || (0x11650 <= c && c <= 0x11659)
        || (0x116c0 <= c && c <= 0x116c9)
        || (0x116d0 <= c && c <= 0x116e3)
        || (0x11730 <= c && c <= 0x11739)
        || (0x118e0 <= c && c <= 0x118e9)
        || (0x11950 <= c && c <= 0x11959)
        || (0x11bf0 <= c && c <= 0x11bf9)
        || (0x11c50 <= c && c <= 0x11c59)
        || (0x11d50 <= c && c <= 0x11d59)
        || (0x11da0 <= c && c <= 0x11da9)
        || (0x11f50 <= c && c <= 0x11f59)
        || (0x16130 <= c && c <= 0x16139)
        || (0x16a60 <= c && c <= 0x16a69)
        || (0x16ac0 <= c && c <= 0x16ac9)
        || (0x16b50 <= c && c <= 0x16b59)
        || (0x16d70 <= c && c <= 0x16d79)
        || (0x1ccf0 <= c && c <= 0x1ccf9)
        || (0x1d7ce <= c && c <= 0x1d7ff)
        || (0x1e140 <= c && c <= 0x1e149)
        || (0x1e2f0 <= c && c <= 0x1e2f9)
        || (0x1e4f0 <= c && c <= 0x1e4f9)
        || (0x1e5f1 <= c && c <= 0x1e5fa)
        || (0x1e950 <= c && c <= 0x1e959)
        || (0x1fbf0 <= c && c <= 0x1fbf9)
}

/// Index of the first byte at or after `j` that is not an ASCII digit, or the length.
fn digits_end_from(s: &[u8], j: usize) -> (r: usize)
    requires
        j <= s.len(),
    ensures
        r == digits_end(s@, j as int),
        j <= r <= s.len(),
{
    let mut k = j;
    while k < s.len()
        invariant
            j <= k <= s.len(),
            digits_end(s@, k as int) == digits_end(s@, j as int),
        decreases s.len() - k,
    {
        if !(0x30 <= s[k] && s[k] <= 0x39) {
            return k;
        }
        k = k + 1;
    }
    k
}

/// Index of the first byte at or after `j` that is not a hexadecimal digit, or the length.
fn hex_digits_end_from(s: &[u8], j: usize) -> (r: usize)
    requires
        j <= s.len(),
    ensures
        r == hex_digits_end(s@, j as int),
        j <= r <= s.len(),
{
    let mut k = j;
    while k < s.len()
        invariant
            j <= k <= s.len(),
            hex_digits_end(s@, k as int) == hex_digits_end(s@, j as int),
        decreases s.len() - k,
    {
        let b = s[k];
        if !((0x30 <= b && b <= 0x39) || (0x41 <= b && b <= 0x46) || (0x61 <= b && b <= 0x66)) {
            return k;
        }
        k = k + 1;
    }
    k
}

/// `16` to the power `n`, for the digit counts read here.
pub open spec fn power16(n: int) -> int {
    if n <= 0 {
        1
    } else if n == 1 {
        16
    } else if n == 2 {
        256
    } else if n == 3 {
        4096
    } else if n == 4 {
        65536
    } else if n == 5 {
        1048576
    } else {
        16777216
    }
}

/// The number written by the digits `s[d..e]`, in hexadecimal when `hex`, else in decimal.
fn digits_value(s: &[u8], d: usize, e: usize, hex: bool) -> (r: u32)
    requires
        d <= e <= s.len(),
        e - d <= 6,
        hex ==> forall|k: int| d <= k < e ==> is_hex_digit(s@[k]),
        !hex ==> forall|k: int| d <= k < e ==> is_ascii_digit(s@[k]),
    ensures
        r as int == if hex { hex_value(s@, d as int, e as int) } else { decimal_value(s@, d as int, e as int) },
{
    let mut v: u32 = 0;
    let mut k = d;
    while k < e
        invariant
            d <= k <= e,
            e <= s.len(),
            e - d <= 6,
            hex ==> forall|m: int| d <= m < e ==> is_hex_digit(s@[m]),
            !hex ==> forall|m: int| d <= m < e ==> is_ascii_digit(s@[m]),
            v as int == if hex { hex_value(s@, d as int, k as int) } else { decimal_value(s@, d as int, k as int) },
            v < power16(k - d),
        decreases e - k,
    {
        let b = s[k];
        if hex {
            let h: u32 = if 0x30 <= b && b <= 0x39 {
                (b - 0x30) as u32
            } else if 0x41 <= b && b <= 0x46 {
                (b - 0x41 + 10) as u32
            } else {
                (b - 0x61 + 10) as u32
            };
            assert(h < 16);
            v = v * 16 + h;
        } else {
            v = v * 10 + (b - 0x30) as u32;
        }
        k = k + 1;
    }
    v
}

/// What the numeric character reference at `i` stands for (see `char_ref_value`).
fn char_ref_value_at(s: &[u8], i: usize) -> (r: Option<u32>)
    requires
        i < s.len(),
    ensures
        match r {
            Some(v) => char_ref_value(s@, i as int) == Some(v as int),
            None => char_ref_value(s@, i as int) is None,
        },
{
    if !(s.len() - i > 2 && s[i] == 0x26 && s[i + 1] == 0x23) {
        return None;
    }
    let hex = s[i + 2] == 0x78;
    let d = if hex { i + 3 } else { i + 2 };
    let e = if hex { hex_digits_end_from(s, d) } else { digits_end_from(s, d) };
    if d < e && e - d <= 6 && e < s.len() && s[e] == 0x3b {
        proof {
            lemma_run_of_digits(s@, d as int, hex);
        }
        Some(digits_value(s, d, e, hex))
    } else {
        None
    }
}

/// Every byte between `d` and the end of the digit run starting there is a digit.
proof fn lemma_run_of_digits(s: Seq<u8>, d: int, hex: bool)
    requires
        0 <= d <= s.len(),
    ensures
        hex ==> forall|k: int| d <= k < hex_digits_end(s, d) ==> is_hex_digit(s[k]),
        !hex ==> forall|k: int| d <= k < digits_end(s, d) ==> is_ascii_digit(s[k]),
        hex ==> d <= hex_digits_end(s, d) <= s.len(),
        !hex ==> d <= digits_end(s, d) <= s.len(),
    decreases s.len() - d,
{
    if d < s.len() {
        lemma_run_of_digits(s, d + 1, hex);
    }
}

/// What the JSON escape at `i` stands for (see `json_escape_value`).
fn json_escape_value_at(s: &[u8], i: usize) -> (r: Option<u32>)
    requires
        i < s.len(),
    ensures
        match r {
            Some(v) => json_escape_value(s@, i as int) == Some(v as int),
            None => json_escape_value(s@, i as int) is None,
        },
{
    if !(s.len() - i >= 6 && s[i] == 0x5c && s[i + 1] == 0x75) {
        return None;
    }
    let e = hex_digits_end_from(s, i + 2);
    if e >= i + 6 {
        proof {
            lemma_run_of_digits(s@, i + 2, true);
        }
        Some(digits_value(s, i + 2, i + 6, true))
    } else {
        None
    }
}

/// Whether the escape at `i` may stand for `@` (first) and whether it may stand for a
/// character outside ASCII (second).
fn escape_kinds_at(s: &[u8], i: usize) -> (r: (bool, bool))
    requires
        i < s.len(),
    ensures
        r.0 == at_escape(s@, i as int),
        r.1 == high_escape(s@, i as int),
{
    let v = if s.len() - i > 1 && s[i] == 0x26 && s[i + 1] == 0x23 {
        char_ref_value_at(s, i)
    } else if s.len() - i > 1 && s[i] == 0x5c && s[i + 1] == 0x75 {
        json_escape_value_at(s, i)
    } else {
        return (false, false);
    };
    match v {
        Some(c) => (c == 0x40, c >= 0x80),
        None => (true, true),
    }
}

/// Bytes that can belong to an e-mail address as feed-rs's expression finds it (ASCII letters
/// and digits and `. _ % + - @ : < [ ( > ] )`), or to an escape or markup written right next
/// to one (`& # ; \ ! ?`).
pub open spec fn in_address_run(b: u8) -> bool {
    ||| is_ascii_digit(b)
    ||| is_ascii_letter(b)
    ||| b == 0x2e || b == 0x5f || b == 0x25 || b == 0x2b || b == 0x2d || b == 0x40 || b == 0x3a
    ||| b == 0x3c || b == 0x5b || b == 0x28 || b == 0x3e || b == 0x5d || b == 0x29
    ||| b == 0x26 || b == 0x23 || b == 0x3b || b == 0x5c || b == 0x21 || b == 0x3f
}

/// Index of the first byte at or after `i` that is not `in_address_run`, or the length.
pub open spec fn run_end(s: Seq<u8>, i: int) -> int
    decreases s.len() - i,
{
    if i >= s.len() {
        s.len() as int
    } else if in_address_run(s[i]) {
        run_end(s, i + 1)
    } else {
        i
    }
}

/// A maximal run of `in_address_run` bytes starts at `a`.
pub open spec fn run_start(s: Seq<u8>, a: int) -> bool {
    0 <= a < s.len() && in_address_run(s[a]) && (a == 0 || !in_address_run(s[a - 1]))
}

/// Markup whose content the XML reader drops from the text around it starts or ends at `i`:
/// `<!` that does not open a CDATA section (a comment or a document type), `<?` (a
/// processing instruction or declaration), `-->` or `?>`.
pub open spec fn vanishing_at(s: Seq<u8>, i: int) -> bool {
    &&& 0 <= i
    &&& {
        ||| (i + 1 < s.len() && s[i] == 0x3c && s[i + 1] == 0x21 && (i + 2 >= s.len() || s[i + 2] != 0x5b))
        ||| (i + 1 < s.len() && s[i] == 0x3c && s[i + 1] == 0x3f)
        ||| (i + 2 < s.len() && s[i] == 0x2d && s[i + 1] == 0x2d && s[i + 2] == 0x3e)
        ||| (i + 1 < s.len() && s[i] == 0x3f && s[i + 1] == 0x3e)
    }
}

/// An `@`, or an escape that may stand for one, at `k`.
pub open spec fn address_source_at(s: Seq<u8>, k: int) -> bool {
    s[k] == 0x40 || at_escape(s, k)
}

/// The run `s[a..e]` may read, once unescaped, as an e-mail address with a character
/// outside ASCII next to it: it holds an `@` (or an escape that may stand for one) and also
/// an escape that may stand for a character outside ASCII, a byte outside ASCII right before
/// or after it, or markup that would join it to other text.
pub open spec fn run_refused(s: Seq<u8>, a: int, e: int) -> bool {
    let source = exists|k: int| a <= k < e && #[trigger] address_source_at(s, k);
    let high = (exists|k: int| a <= k < e && #[trigger] high_escape(s, k))
        || (a > 0 && s[a - 1] >= 0x80) || (e < s.len() && s[e] >= 0x80);
    let vanish = exists|k: int| a <= k < e && #[trigger] vanishing_at(s, k);
    source && (high || vanish)
}

/// No run of `s` is refused (`run_refused`): the name feed-rs cuts around an e-mail address
/// found in a person's name is never cut inside a character.
pub open spec fn addresses_safe(s: Seq<u8>) -> bool {
    forall|a: int| #[trigger] run_start(s, a) ==> !run_refused(s, a, run_end(s, a))
}

/// The bytes from `i` to the end of its run are all `in_address_run`, and the run ends there.
proof fn lemma_run_bytes(s: Seq<u8>, i: int)
    requires
        0 <= i <= s.len(),
    ensures
        i <= run_end(s, i) <= s.len(),
        forall|k: int| i <= k < run_end(s, i) ==> in_address_run(#[trigger] s[k]),
        run_end(s, i) < s.len() ==> !in_address_run(s[run_end(s, i)]),
    decreases s.len() - i,
{
    if i < s.len() {
        lemma_run_bytes(s, i + 1);
    }
}

/// Index of the first byte at or after `j` that is not `in_address_run`, or the length.
fn run_end_from(s: &[u8], j: usize) -> (r: usize)
    requires
        j <= s.len(),
    ensures
        r == run_end(s@, j as int),
{
    let mut k = j;
    while k < s.len()
        invariant
            j <= k <= s.len(),
            run_end(s@, k as int) == run_end(s@, j as int),
        decreases s.len() - k,
    {
        if !address_byte(s[k]) {
            return k;
        }
        k = k + 1;
    }
    k
}

/// Whether `b` is `in_address_run`.
fn address_byte(b: u8) -> (r: bool)
    ensures
        r == in_address_run(b),
{
    (0x30 <= b && b <= 0x39) || (0x41 <= b && b <= 0x5a) || (0x61 <= b && b <= 0x7a)
        || b == 0x2e || b == 0x5f || b == 0x25 || b == 0x2b || b == 0x2d || b == 0x40 || b == 0x3a
        || b == 0x3c || b == 0x5b || b == 0x28 || b == 0x3e || b == 0x5d || b == 0x29
        || b == 0x26 || b == 0x23 || b == 0x3b || b == 0x5c || b == 0x21 || b == 0x3f
}

/// Whether markup that the XML reader drops starts or ends at `i` (`vanishing_at`).
fn vanishing(s: &[u8], i: usize) -> (r: bool)
    requires
        i < s.len(),
    ensures
        r == vanishing_at(s@, i as int),
{
    let n = s.len() - i;
    (n > 1 && s[i] == 0x3c && s[i + 1] == 0x21 && (n <= 2 || s[i + 2] != 0x5b))
        || (n > 1 && s[i] == 0x3c && s[i + 1] == 0x3f)
        || (n > 2 && s[i] == 0x2d && s[i + 1] == 0x2d && s[i + 2] == 0x3e)
        || (n > 1 && s[i] == 0x3f && s[i + 1] == 0x3e)
}

/// Whether the run `s[a..e]` is refused (`run_refused`).
fn run_is_refused(s: &[u8], a: usize, e: usize) -> (r: bool)
    requires
        a <= e <= s.len(),
    ensures
        r == run_refused(s@, a as int, e as int),
{
    let mut source = false;
    let mut high = false;
    let mut vanish = false;
    let mut k = a;
    while k < e
        invariant
            a <= k <= e <= s.len(),
            source == exists|m: int| a <= m < k && #[trigger] address_source_at(s@, m),
            high == exists|m: int| a <= m < k && #[trigger] high_escape(s@, m),
            vanish == exists|m: int| a <= m < k && #[trigger] vanishing_at(s@, m),
        decreases e - k,
    {
        let (at, hi) = escape_kinds_at(s, k);
        if s[k] == 0x40 || at {
            source = true;
        }
        if hi {
            high = true;
        }
        if vanishing(s, k) {
            vanish = true;
        }
        assert(address_source_at(s@, k as int) == (s@[k as int] == 0x40 || at));
        k = k + 1;
    }
    let outside = (a > 0 && s[a - 1] >= 0x80) || (e < s.len() && s[e] >= 0x80);
    source && (high || outside || vanish)
}

/// Whether no run of `s` is refused (`addresses_safe`).
pub fn addresses_are_safe(s: &[u8]) -> (r: bool)
    ensures
        r == addresses_safe(s@),
{
    let mut i: usize = 0;
    while i < s.len()
        invariant
            i <= s.len(),
            forall|a: int| 0 <= a < i && #[trigger] run_start(s@, a) ==> !run_refused(s@, a, run_end(s@, a)),
            i < s.len() && in_address_run(s@[i as int]) ==> run_start(s@, i as int),
        decreases s.len() - i,
    {
        if !address_byte(s[i]) {
            i = i + 1;
        } else {
            let e = run_end_from(s, i);
            proof {
                lemma_run_bytes(s@, i as int);
            }
            if run_is_refused(s, i, e) {
                assert(run_start(s@, i as int));
                return false;
            }
            assert forall|a: int| 0 <= a < e && #[trigger] run_start(s@, a) implies !run_refused(s@, a, run_end(s@, a)) by {
                if a > i {
                    assert(in_address_run(s@[a - 1]));
                }
            }
            i = e;
        }
    }
    true
}

/// The code point of the UTF-8 sequence whose lead byte is at `i`, or -1 where no sequence
/// starts (an ASCII byte, a continuation byte, or a sequence cut off by the end).
pub open spec fn code_point_at(s: Seq<u8>, i: int) -> int {
    if s[i] >= 0xf0 && i + 3 < s.len() {
        (s[i] - 0xf0) * 0x40000 + (s[i + 1] % 64) * 0x1000 + (s[i + 2] % 64) * 64 + s[i + 3] % 64
    } else if s[i] >= 0xe0 && i + 2 < s.len() {
        (s[i] - 0xe0) * 0x1000 + (s[i + 1] % 64) * 64 + s[i + 2] % 64
    } else if s[i] >= 0xc0 && i + 1 < s.len() {
        (s[i] - 0xc0) * 64 + s[i + 1] % 64
    } else {
        -1
    }
}

/// A maximal run of ASCII digits starts at `i` and is longer than fifteen digits.
pub open spec fn long_digit_run_at(s: Seq<u8>, i: int) -> bool {
    &&& 0 <= i < s.len()
    &&& is_ascii_digit(s[i])
    &&& (i == 0 || !is_ascii_digit(s[i - 1]))
    &&& digits_end(s, i) - i > 15
}

/// A character outside ASCII that `\d` matches starts at `i`.
pub open spec fn wide_digit_at(s: Seq<u8>, i: int) -> bool {
    0 <= i < s.len() && s[i] >= 0x80 && is_decimal_digit(code_point_at(s, i))
}

/// A character reference that may stand for a digit starts at `i`.
pub open spec fn digit_escape_at(s: Seq<u8>, i: int) -> bool {
    char_ref_at(s, i) && match char_ref_value(s, i) {
        Some(v) => is_decimal_digit(v),
        None => true,
    }
}

/// An ASCII digit at `i` is written right before `<!` or `<?`, or right after `-->`, `?>` or
/// `]]>`: markup the XML reader drops or unwraps could join it to more digits.
pub open spec fn joined_digit_at(s: Seq<u8>, i: int) -> bool {
    &&& 0 <= i < s.len()
    &&& is_ascii_digit(s[i])
    &&& {
        ||| (i + 2 < s.len() && s[i + 1] == 0x3c && (s[i + 2] == 0x21 || s[i + 2] == 0x3f))
        ||| (i >= 3 && s[i - 3] == 0x2d && s[i - 2] == 0x2d && s[i - 1] == 0x3e)
        ||| (i >= 2 && s[i - 2] == 0x3f && s[i - 1] == 0x3e)
        ||| (i >= 3 && s[i - 3] == 0x5d && s[i - 2] == 0x5d && s[i - 1] == 0x3e)
    }
}

/// Every number feed-rs can read as a play time (`parse_npt`) is written with at most
/// fifteen ASCII digits, so that `parse::<u64>()` succeeds and hours times 3600 plus
/// minutes and seconds stay below `u64::MAX`: no digit run is longer, no character outside
/// ASCII that `\d` matches occurs, no character reference stands for a digit, and no markup
/// joins digits.
pub open spec fn play_times_safe(s: Seq<u8>) -> bool {
    &&& forall|i: int| !#[trigger] long_digit_run_at(s, i)
    &&& forall|i: int| !#[trigger] wide_digit_at(s, i)
    &&& forall|i: int| !#[trigger] digit_escape_at(s, i)
    &&& forall|i: int| !#[trigger] joined_digit_at(s, i)
}

/// The code point of the UTF-8 sequence whose lead byte is at `i` (`code_point_at`), when
/// there is one.
fn code_point(s: &[u8], i: usize) -> (r: Option<u32>)
    requires
        i < s.len(),
    ensures
        match r {
            Some(c) => code_point_at(s@, i as int) == c as int,
            None => code_point_at(s@, i as int) == -1,
        },
{
    let n = s.len() - i;
    let b = s[i] as u32;
    if b >= 0xf0 && n > 3 {
        Some((b - 0xf0) * 0x40000 + (s[i + 1] % 64) as u32 * 0x1000 + (s[i + 2] % 64) as u32 * 64
            + (s[i + 3] % 64) as u32)
    } else if b >= 0xe0 && n > 2 {
        Some((b - 0xe0) * 0x1000 + (s[i + 1] % 64) as u32 * 64 + (s[i + 2] % 64) as u32)
    } else if b >= 0xc0 && n > 1 {
        Some((b - 0xc0) * 64 + (s[i + 1] % 64) as u32)
    } else {
        None
    }
}

/// Whether the ASCII digit at `i` touches markup that could join it to more digits
/// (`joined_digit_at`).
fn joined_digit(s: &[u8], i: usize) -> (r: bool)
    requires
        i < s.len(),
    ensures
        r == joined_digit_at(s@, i as int),
{
    let n = s.len() - i;
    (0x30 <= s[i] && s[i] <= 0x39) && ((n > 2 && s[i + 1] == 0x3c && (s[i + 2] == 0x21
        || s[i + 2] == 0x3f)) || (i >= 3 && s[i - 3] == 0x2d && s[i - 2] == 0x2d && s[i - 1]
        == 0x3e) || (i >= 2 && s[i - 2] == 0x3f && s[i - 1] == 0x3e) || (i >= 3 && s[i - 3]
        == 0x5d && s[i - 2] == 0x5d && s[i - 1] == 0x3e))
}

/// Whether every play time in `s` is safe to read (`play_times_safe`).
pub fn play_times_are_safe(s: &[u8]) -> (r: bool)
    ensures
        r == play_times_safe(s@),
{
    let mut i: usize = 0;
    while i < s.len()
        invariant
            i <= s.len(),
            forall|k: int| k < i ==> !#[trigger] long_digit_run_at(s@, k),
            forall|k: int| k < i ==> !#[trigger] wide_digit_at(s@, k),
            forall|k: int| k < i ==> !#[trigger] digit_escape_at(s@, k),
            forall|k: int| k < i ==> !#[trigger] joined_digit_at(s@, k),
        decreases s.len() - i,
    {
        let b = s[i];
        if 0x30 <= b && b <= 0x39 && (i == 0 || !(0x30 <= s[i - 1] && s[i - 1] <= 0x39)) {
            let e = digits_end_from(s, i);
            if e - i > 15 {
                assert(long_digit_run_at(s@, i as int));
                return false;
            }
        }
        assert(!long_digit_run_at(s@, i as int));
        if b >= 0x80 {
            match code_point(s, i) {
                Some(c) => {
                    if decimal_digit(c) {
                        assert(wide_digit_at(s@, i as int));
                        return false;
                    }
                },
                None => {},
            }
        }
        assert(!wide_digit_at(s@, i as int));
        if s.len() - i > 1 && b == 0x26 && s[i + 1] == 0x23 {
            let digit = match char_ref_value_at(s, i) {
                Some(c) => decimal_digit(c),
                None => true,
            };
            if digit {
                assert(digit_escape_at(s@, i as int));
                return false;
            }
        }
        assert(!digit_escape_at(s@, i as int));
        if joined_digit(s, i) {
            return false;
        }
        i = i + 1;
    }
    assert forall|k: int| !#[trigger] long_digit_run_at(s@, k) by {
        if k >= s.len() {
        }
    }
    true
}

/// The feed starts the way quick-xml recognises UTF-16: a UTF-16 byte order mark, or `<?`
/// written in 16-bit units.
pub open spec fn utf16_start(s: Seq<u8>) -> bool {
    ||| (s.len() >= 2 && s[0] == 0xfe && s[1] == 0xff)
    ||| (s.len() >= 2 && s[0] == 0xff && s[1] == 0xfe)
    ||| (s.len() >= 4 && s[0] == 0 && s[1] == 0x3c && s[2] == 0 && s[3] == 0x3f)
    ||| (s.len() >= 4 && s[0] == 0x3c && s[1] == 0 && s[2] == 0x3f && s[3] == 0)
}

/// An XML declaration starts at `i`: `<?xml` followed by white space or `?`.
pub open spec fn declaration_at(s: Seq<u8>, i: int) -> bool {
    &&& 0 <= i && i + 5 < s.len()
    &&& s[i] == 0x3c && s[i + 1] == 0x3f && s[i + 2] == 0x78 && s[i + 3] == 0x6d && s[i + 4] == 0x6c
    &&& (s[i + 5] == 0x20 || s[i + 5] == 0x09 || s[i + 5] == 0x0a || s[i + 5] == 0x0d || s[i + 5] == 0x3f)
}

/// Index of the first `?>` at or after `j`, or the length: where a processing instruction
/// that is open at `j` ends.
pub open spec fn instruction_end(s: Seq<u8>, j: int) -> int
    decreases s.len() - j,
{
    if j + 1 >= s.len() {
        s.len() as int
    } else if s[j] == 0x3f && s[j + 1] == 0x3e {
        j
    } else {
        instruction_end(s, j + 1)
    }
}

/// The word `encoding` starts at `k`.
pub open spec fn encoding_word_at(s: Seq<u8>, k: int) -> bool {
    &&& 0 <= k && k + 8 <= s.len()
    &&& s[k] == 0x65 && s[k + 1] == 0x6e && s[k + 2] == 0x63 && s[k + 3] == 0x6f
    &&& s[k + 4] == 0x64 && s[k + 5] == 0x69 && s[k + 6] == 0x6e && s[k + 7] == 0x67
}

/// The word `encoding` at `k` is followed by `="UTF-8"`, `='UTF-8'`, `="utf-8"` or
/// `='utf-8'`.
pub open spec fn utf8_label_at(s: Seq<u8>, k: int) -> bool {
    let p = k + 8;
    &&& p + 8 <= s.len()
    &&& s[p] == 0x3d
    &&& (s[p + 1] == 0x22 || s[p + 1] == 0x27)
    &&& s[p + 7] == s[p + 1]
    &&& s[p + 5] == 0x2d && s[p + 6] == 0x38
    &&& ((s[p + 2] == 0x55 && s[p + 3] == 0x54 && s[p + 4] == 0x46)
        || (s[p + 2] == 0x75 && s[p + 3] == 0x74 && s[p + 4] == 0x66))
}

/// Every XML declaration names no encoding, or names UTF-8: feed-rs switches the decoder
/// of quick-xml to the encoding a declaration names, and that switch asserts once the
/// first bytes were decoded.
pub open spec fn declarations_safe(s: Seq<u8>) -> bool {
    forall|i: int, k: int|
        #![trigger declaration_at(s, i), encoding_word_at(s, k)]
        declaration_at(s, i) && i <= k && k + 8 <= instruction_end(s, i + 2) && encoding_word_at(s, k)
            ==> utf8_label_at(s, k)
}

/// A document type declaration `<!D` or `<!d` starts at `i`.
pub open spec fn doctype_at(s: Seq<u8>, i: int) -> bool {
    0 <= i && i + 2 < s.len() && s[i] == 0x3c && s[i + 1] == 0x21 && (s[i + 2] == 0x44 || s[i + 2] == 0x64)
}

/// An element's start tag may start at `j`: `<` followed by anything but `!`, `?` or `/`.
pub open spec fn element_start_at(s: Seq<u8>, j: int) -> bool {
    0 <= j && j + 1 < s.len() && s[j] == 0x3c && s[j + 1] != 0x21 && s[j + 1] != 0x3f && s[j + 1] != 0x2f
}

/// Document type declarations come before every element, where no text they could drop
/// from is read.
pub open spec fn doctypes_first(s: Seq<u8>) -> bool {
    forall|i: int, j: int| #[trigger] doctype_at(s, i) && #[trigger] element_start_at(s, j) ==> i < j
}

/// The iTunes namespace.
pub open spec fn itunes_namespace() -> Seq<u8> {
    encode_utf8("http://www.itunes.com/dtds/podcast-1.0.dtd"@)
}

/// The MediaRSS namespace.
pub open spec fn media_rss_namespace() -> Seq<u8> {
    encode_utf8("http://search.yahoo.com/mrss/"@)
}

/// The feeds that are handed to feed-rs: read as UTF-8 throughout (no UTF-16 start, no
/// declaration of another encoding), with document types before every element, no e-mail
/// address that feed-rs would cut inside a character (`addresses_safe`), and, where the
/// iTunes or MediaRSS namespace is named, only play times that feed-rs reads without
/// panicking (`play_times_safe`). feed-rs reads those namespaces by their exact names, and
/// only in them does it read play times.
///
/// The rules are read on bytes, not on the elements feed-rs reads, so some feeds that
/// feed-rs would read are left out too: feeds declaring an encoding other than UTF-8 (or
/// writing the declaration otherwise than `encoding="UTF-8"`), a document type after an
/// element, an `@` in a run of address bytes that also touches a character outside ASCII
/// or a comment, and, in feeds naming the iTunes or MediaRSS namespace, any digit run
/// longer than fifteen digits, any non-ASCII digit, any character reference to a digit or
/// any digit written against a comment, instruction or CDATA marker.
pub open spec fn feed_admitted(xml: Seq<u8>) -> bool {
    &&& !utf16_start(xml)
    &&& declarations_safe(xml)
    &&& doctypes_first(xml)
    &&& addresses_safe(xml)
    &&& (contains(xml, itunes_namespace()) || contains(xml, media_rss_namespace())) ==> play_times_safe(xml)
}

/// Index of the first `?>` at or after `j`, or the length (`instruction_end`).
fn instruction_end_from(s: &[u8], j: usize) -> (r: usize)
    requires
        j <= s.len(),
    ensures
        r == instruction_end(s@, j as int),
        r <= s.len(),
{
    let mut k = j;
    while s.len() - k > 1
        invariant
            j <= k <= s.len(),
            instruction_end(s@, k as int) == instruction_end(s@, j as int),
        decreases s.len() - k,
    {
        if s[k] == 0x3f && s[k + 1] == 0x3e {
            return k;
        }
        k = k + 1;
    }
    s.len()
}

/// Whether `encoding` starts at `k`.
fn encoding_word(s: &[u8], k: usize) -> (r: bool)
    requires
        k < s.len(),
    ensures
        r == encoding_word_at(s@, k as int),
{
    s.len() - k >= 8 && s[k] == 0x65 && s[k + 1] == 0x6e && s[k + 2] == 0x63 && s[k + 3] == 0x6f
        && s[k + 4] == 0x64 && s[k + 5] == 0x69 && s[k + 6] == 0x6e && s[k + 7] == 0x67
}

/// Whether `encoding` at `k` is followed by a UTF-8 label (`utf8_label_at`).
fn utf8_label(s: &[u8], k: usize) -> (r: bool)
    requires
        k < s.len(),
    ensures
        r == utf8_label_at(s@, k as int),
{
    if s.len() - k < 16 {
        return false;
    }
    let p = k + 8;
    s[p] == 0x3d && (s[p + 1] == 0x22 || s[p + 1] == 0x27) && s[p + 7] == s[p + 1] && s[p + 5]
        == 0x2d && s[p + 6] == 0x38 && ((s[p + 2] == 0x55 && s[p + 3] == 0x54 && s[p + 4] == 0x46)
        || (s[p + 2] == 0x75 && s[p + 3] == 0x74 && s[p + 4] == 0x66))
}

/// Whether every declaration of `s` names no encoding or UTF-8 (`declarations_safe`).
fn declarations_are_safe(s: &[u8]) -> (r: bool)
    ensures
        r == declarations_safe(s@),
{
    let mut i: usize = 0;
    while i < s.len()
        invariant
            i <= s.len(),
            forall|d: int, k: int|
                #![trigger declaration_at(s@, d), encoding_word_at(s@, k)]
                d < i && declaration_at(s@, d) && d <= k && k + 8 <= instruction_end(s@, d + 2)
                    && encoding_word_at(s@, k) ==> utf8_label_at(s@, k),
        decreases s.len() - i,
    {
        let n = s.len() - i;
        if n > 5 && s[i] == 0x3c && s[i + 1] == 0x3f && s[i + 2] == 0x78 && s[i + 3] == 0x6d && s[i + 4] == 0x6c
            && (s[i + 5] == 0x20 || s[i + 5] == 0x09 || s[i + 5] == 0x0a || s[i + 5] == 0x0d || s[i + 5] == 0x3f) {
            let end = instruction_end_from(s, i + 2);
            let mut k = i;
            while end >= 8 && k <= end - 8
                invariant
                    i <= k,
                    end <= s.len(),
                    end == instruction_end(s@, i + 2),
                    declaration_at(s@, i as int),
                    forall|m: int| #![trigger encoding_word_at(s@, m)]
                        i <= m < k && m + 8 <= end && encoding_word_at(s@, m) ==> utf8_label_at(s@, m),
                decreases end - k,
            {
                if encoding_word(s, k) && !utf8_label(s, k) {
                    assert(declaration_at(s@, i as int) && encoding_word_at(s@, k as int));
                    return false;
                }
                k = k + 1;
            }
        }
        i = i + 1;
    }
    true
}

/// Whether every document type declaration of `s` comes before every element
/// (`doctypes_first`).
fn doctypes_come_first(s: &[u8]) -> (r: bool)
    ensures
        r == doctypes_first(s@),
{
    let mut seen = false;
    let ghost mut first: int = 0;
    let mut i: usize = 0;
    while i < s.len()
        invariant
            i <= s.len(),
            seen ==> 0 <= first < i && element_start_at(s@, first),
            !seen ==> forall|j: int| j < i ==> !#[trigger] element_start_at(s@, j),
            forall|d: int, j: int| #[trigger] doctype_at(s@, d) && #[trigger] element_start_at(s@, j) && d < i ==> d < j,
        decreases s.len() - i,
    {
        let n = s.len() - i;
        if n > 2 && s[i] == 0x3c && s[i + 1] == 0x21 && (s[i + 2] == 0x44 || s[i + 2] == 0x64) && seen {
            assert(doctype_at(s@, i as int) && element_start_at(s@, first));
            return false;
        }
        if !seen && n > 1 && s[i] == 0x3c && s[i + 1] != 0x21 && s[i + 1] != 0x3f && s[i + 1] != 0x2f {
            seen = true;
            proof {
                first = i as int;
            }
        }
        i = i + 1;
    }
    true
}

/// Whether feed-rs may be handed `xml` (`feed_admitted`).
pub fn feed_is_admitted(xml: &[u8]) -> (r: bool)
    ensures
        r == feed_admitted(xml@),
{
    let n = xml.len();
    if (n >= 2 && xml[0] == 0xfe && xml[1] == 0xff) || (n >= 2 && xml[0] == 0xff && xml[1] == 0xfe)
        || (n >= 4 && xml[0] == 0 && xml[1] == 0x3c && xml[2] == 0 && xml[3] == 0x3f)
        || (n >= 4 && xml[0] == 0x3c && xml[1] == 0 && xml[2] == 0x3f && xml[3] == 0) {
        return false;
    }
    if !declarations_are_safe(xml) || !doctypes_come_first(xml) || !addresses_are_safe(xml) {
        return false;
    }
    let named = bytes_contain(xml, "http://www.itunes.com/dtds/podcast-1.0.dtd".as_bytes())
        || bytes_contain(xml, "http://search.yahoo.com/mrss/".as_bytes());
    !named || play_times_are_safe(xml)
}

} // verus!
