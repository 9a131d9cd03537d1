//! Byte-level text search and cutting on UTF-8 strings, as `str` does it.
use vstd::prelude::*;
use vstd::utf8::*;

verus! {

/// `p` is a prefix of `s`.
pub open spec fn starts_with(s: Seq<u8>, p: Seq<u8>) -> bool {
    p.len() <= s.len() && s.subrange(0, p.len() as int) == p
}

/// `p` occurs in `s` starting at index `i`.
pub open spec fn occurs_at(s: Seq<u8>, p: Seq<u8>, i: int) -> bool {
    0 <= i && i + p.len() <= s.len() && s.subrange(i, i + p.len()) == p
}

/// `p` occurs somewhere in `s`.
pub open spec fn contains(s: Seq<u8>, p: Seq<u8>) -> bool {
    exists|i: int| occurs_at(s, p, i)
}

/// Index of the first `x` in `s` at or after `from`, or the length of `s` when there is none.
pub open spec fn find_byte(s: Seq<u8>, from: int, x: u8) -> int
    decreases s.len() - from,
{
    if from >= s.len() {
        s.len() as int
    } else if s[from] == x {
        from
    } else {
        find_byte(s, from + 1, x)
    }
}

/// The text that the bytes of `s` from `from` up to `to` encode.
pub open spec fn text_between(s: Seq<u8>, from: int, to: int) -> Seq<char> {
    decode_utf8(s.subrange(from, to))
}

pub proof fn lemma_find_byte(s: Seq<u8>, from: int, x: u8)
    requires
        0 <= from <= s.len(),
    ensures
        from <= find_byte(s, from, x) <= s.len(),
        find_byte(s, from, x) < s.len() ==> s[find_byte(s, from, x)] == x,
        forall|k: int| from <= k < find_byte(s, from, x) ==> s[k] != x,
    decreases s.len() - from,
{
    if from < s.len() && s[from] != x {
        lemma_find_byte(s, from + 1, x);
    }
}

/// In valid UTF-8, an ASCII byte starts a character and so does the byte after it.
pub proof fn lemma_ascii_boundaries(b: Seq<u8>, i: int)
    requires
        valid_utf8(b),
        0 <= i < b.len(),
        b[i] < 0x80,
    ensures
        is_char_boundary(b, i),
        is_char_boundary(b, i + 1),
{
    is_char_boundary_iff_not_is_continuation_byte(b, i);
    if i + 1 == b.len() {
        is_char_boundary_start_end_of_seq(b);
    } else {
        valid_utf8_split(b, i);
        let t = b.subrange(i, b.len() as int);
        assert(t[0] == b[i]);
        assert(length_of_first_scalar(t) == 1);
        assert(pop_first_scalar(t) =~= t.subrange(1, t.len() as int));
        assert(is_char_boundary(t, 1)) by {
            reveal_with_fuel(is_char_boundary, 2);
        }
        is_char_boundary_iff_not_is_continuation_byte(t, 1);
        assert(t[1] == b[i + 1]);
        is_char_boundary_iff_not_is_continuation_byte(b, i + 1);
    }
}

/// A character boundary of `b` before `j` is one of the first `j` bytes too.
pub proof fn lemma_boundary_of_prefix(b: Seq<u8>, i: int, j: int)
    requires
        valid_utf8(b),
        is_char_boundary(b, i),
        is_char_boundary(b, j),
        0 <= i <= j <= b.len(),
    ensures
        valid_utf8(b.subrange(0, j)),
        is_char_boundary(b.subrange(0, j), i),
{
    valid_utf8_split(b, j);
    let p = b.subrange(0, j);
    if i == j {
        is_char_boundary_start_end_of_seq(p);
    } else {
        is_char_boundary_iff_not_is_continuation_byte(b, i);
        is_char_boundary_iff_not_is_continuation_byte(p, i);
    }
}

/// Whether `p` is a prefix of `s`.
pub fn bytes_start_with(s: &[u8], p: &[u8]) -> (r: bool)
    ensures
        r == starts_with(s@, p@),
{
    if p.len() > s.len() {
        return false;
    }
    let mut i: usize = 0;
    while i < p.len()
        invariant
            p.len() <= s.len(),
            i <= p.len(),
            forall|j: int| 0 <= j < i ==> s@[j] == p@[j],
        decreases p.len() - i,
    {
        if s[i] != p[i] {
            assert(s@.subrange(0, p.len() as int)[i as int] != p@[i as int]);
            return false;
        }
        i = i + 1;
    }
    assert(s@.subrange(0, p.len() as int) =~= p@);
    true
}

/// Whether `p` occurs in `s` at index `i`.
pub fn bytes_match_at(s: &[u8], p: &[u8], i: usize) -> (r: bool)
    requires
        i + p.len() <= s.len(),
    ensures
        r == occurs_at(s@, p@, i as int),
{
    let mut j: usize = 0;
    while j < p.len()
        invariant
            i + p.len() <= s.len(),
            j <= p.len(),
            forall|k: int| 0 <= k < j ==> s@[i + k] == p@[k],
        decreases p.len() - j,
    {
        if s[i + j] != p[j] {
            assert(s@.subrange(i as int, i + p.len())[j as int] != p@[j as int]);
            return false;
        }
        j = j + 1;
    }
    assert(s@.subrange(i as int, i + p.len()) =~= p@);
    true
}

/// Whether `p` occurs anywhere in `s`.
pub fn bytes_contain(s: &[u8], p: &[u8]) -> (r: bool)
    ensures
        r == contains(s@, p@),
{
    if p.len() > s.len() {
        assert forall|k: int| !occurs_at(s@, p@, k) by {}
        return false;
    }
    let last = s.len() - p.len();
    let mut i: usize = 0;
    while i < last
        invariant
            last == s.len() - p.len(),
            i <= last,
            forall|k: int| 0 <= k < i ==> !#[trigger] occurs_at(s@, p@, k),
        decreases last - i,
    {
        if bytes_match_at(s, p, i) {
            assert(occurs_at(s@, p@, i as int));
            return true;
        }
        i = i + 1;
    }
    if bytes_match_at(s, p, last) {
        assert(occurs_at(s@, p@, last as int));
        return true;
    }
    assert forall|k: int| !occurs_at(s@, p@, k) by {
        if 0 <= k < i {
        }
    }
    false
}

/// Index of the first `x` in `s` at or after `from`, or the length of `s`.
pub fn find_byte_from(s: &[u8], from: usize, x: u8) -> (r: usize)
    requires
        from <= s.len(),
    ensures
        r == find_byte(s@, from as int, x),
{
    let mut i = from;
    while i < s.len()
        invariant
            from <= i <= s.len(),
            find_byte(s@, i as int, x) == find_byte(s@, from as int, x),
        decreases s.len() - i,
    {
        if s[i] == x {
            return i;
        }
        i = i + 1;
    }
    i
}

/// The text that the bytes of `s` from `from` up to `to` encode, cut at character
/// boundaries as `&s[from..to]` cuts it.
pub fn cut(s: &str, from: usize, to: usize) -> (r: String)
    requires
        from <= to,
        is_char_boundary(encode_utf8(s@), from as int),
        is_char_boundary(encode_utf8(s@), to as int),
    ensures
        r@ == text_between(encode_utf8(s@), from as int, to as int),
{
    let ghost b = encode_utf8(s@);
    proof {
        encode_utf8_valid_utf8(s@);
    }
    let (left, _) = s.split_at(to);
    proof {
        lemma_boundary_of_prefix(b, from as int, to as int);
        assert(encode_utf8(left@) =~= b.subrange(0, to as int));
    }
    let (_, mid) = left.split_at(from);
    proof {
        assert(encode_utf8(mid@) =~= b.subrange(from as int, to as int));
        encode_utf8_decode_utf8(mid@);
    }
    mid.to_owned()
}

/// Unicode's White_Space property, which `char::is_whitespace` and `str::trim` use.
pub open spec fn is_white_space(c: char) -> bool {
    let v = c as u32;
    ||| 0x09 <= v <= 0x0d
    ||| v == 0x20
    ||| v == 0x85
    ||| v == 0xa0
    ||| v == 0x1680
    ||| 0x2000 <= v <= 0x200a
    ||| v == 0x2028
    ||| v == 0x2029
    ||| v == 0x202f
    ||| v == 0x205f
    ||| v == 0x3000
}

/// `s` without its leading white space.
pub open spec fn trim_start(s: Seq<char>) -> Seq<char>
    decreases s.len(),
{
    if s.len() > 0 && is_white_space(s[0]) {
        trim_start(s.drop_first())
    } else {
        s
    }
}

/// `s` without its trailing white space.
pub open spec fn trim_end(s: Seq<char>) -> Seq<char>
    decreases s.len(),
{
    if s.len() > 0 && is_white_space(s.last()) {
        trim_end(s.drop_last())
    } else {
        s
    }
}

/// `s` without leading and trailing white space.
pub open spec fn trim(s: Seq<char>) -> Seq<char> {
    trim_end(trim_start(s))
}

/// The texts of `list` with `sep` between each two of them.
pub open spec fn join(list: Seq<Seq<char>>, sep: Seq<char>) -> Seq<char>
    decreases list.len(),
{
    if list.len() == 0 {
        Seq::empty()
    } else if list.len() == 1 {
        list[0]
    } else {
        join(list.drop_last(), sep) + sep + list.last()
    }
}

/// The views of a list of strings.
pub open spec fn texts(list: Seq<String>) -> Seq<Seq<char>> {
    list.map_values(|s: String| s@)
}

/// Whether `c` is white space in the sense of `is_white_space`.
pub fn char_is_white_space(c: char) -> (r: bool)
    ensures
        r == is_white_space(c),
{
    let v = c as u32;
    (0x09 <= v && v <= 0x0d) || v == 0x20 || v == 0x85 || v == 0xa0 || v == 0x1680 || (0x2000
        <= v && v <= 0x200a) || v == 0x2028 || v == 0x2029 || v == 0x202f || v == 0x205f || v
        == 0x3000
}

proof fn lemma_trim_start_skip(s: Seq<char>, i: int)
    requires
        0 <= i <= s.len(),
        forall|k: int| 0 <= k < i ==> is_white_space(#[trigger] s[k]),
    ensures
        trim_start(s) == trim_start(s.subrange(i, s.len() as int)),
    decreases i,
{
    if i > 0 {
        assert(s.drop_first().subrange(i - 1, s.drop_first().len() as int) =~= s.subrange(
            i,
            s.len() as int,
        ));
        lemma_trim_start_skip(s.drop_first(), i - 1);
    } else {
        assert(s.subrange(0, s.len() as int) =~= s);
    }
}

proof fn lemma_trim_end_skip(s: Seq<char>, j: int)
    requires
        0 <= j <= s.len(),
        forall|k: int| j <= k < s.len() ==> is_white_space(#[trigger] s[k]),
    ensures
        trim_end(s) == trim_end(s.subrange(0, j)),
    decreases s.len() - j,
{
    if j < s.len() {
        assert(s.drop_last().subrange(0, j) =~= s.subrange(0, j));
        lemma_trim_end_skip(s.drop_last(), j);
    } else {
        assert(s.subrange(0, j) =~= s);
    }
}

/// `s` without leading and trailing white space, as `str::trim` gives it.
pub fn trim_text(s: &str) -> (r: String)
    ensures
        r@ == trim(s@),
{
    let n = s.unicode_len();
    let mut i: usize = 0;
    while i < n && char_is_white_space(s.get_char(i))
        invariant
            n == s@.len(),
            i <= n,
            forall|k: int| 0 <= k < i ==> is_white_space(#[trigger] s@[k]),
        decreases n - i,
    {
        i = i + 1;
    }
    let mut j: usize = n;
    while j > i && char_is_white_space(s.get_char(j - 1))
        invariant
            n == s@.len(),
            i <= j <= n,
            forall|k: int| j <= k < n ==> is_white_space(#[trigger] s@[k]),
        decreases j,
    {
        j = j - 1;
    }
    proof {
        lemma_trim_start_skip(s@, i as int);
        let rest = s@.subrange(i as int, n as int);
        if i < n {
            assert(rest[0] == s@[i as int]);
        }
        assert(trim_start(rest) == rest);
        assert forall|k: int| j - i <= k < rest.len() implies is_white_space(#[trigger] rest[k]) by {
            assert(rest[k] == s@[i + k]);
        }
        lemma_trim_end_skip(rest, j - i);
        let mid = rest.subrange(0, j - i);
        assert(mid =~= s@.subrange(i as int, j as int));
        if j > i {
            assert(mid.last() == s@[j - 1]);
        }
        assert(trim_end(mid) == mid);
    }
    s.substring_char(i, j).to_owned()
}

/// The strings of `list` with `sep` between each two of them, as `join` on a slice gives it.
pub fn join_texts(list: &Vec<String>, sep: &str) -> (r: String)
    ensures
        r@ == join(texts(list@), sep@),
{
    let mut r = String::new();
    let ghost all = texts(list@);
    let mut i: usize = 0;
    while i < list.len()
        invariant
            i <= list.len(),
            all == texts(list@),
            r@ == join(all.take(i as int), sep@),
        decreases list.len() - i,
    {
        assert(all.take(i + 1).drop_last() =~= all.take(i as int));
        if i != 0 {
            r.append(sep);
        }
        r.append(list[i].as_str());
        proof {
            if i == 0 {
                assert(r@ =~= all.take(1)[0]);
            }
        }
        i = i + 1;
    }
    assert(all.take(list.len() as int) =~= all);
    r
}

/// The lines of the bytes of `s` from `from` on: the pieces between newline bytes, as
/// `str::split('\n')` gives them.
pub open spec fn lines_from(s: Seq<u8>, from: int) -> Seq<Seq<char>>
    decreases s.len() - from,
{
    if from < 0 || from > s.len() {
        Seq::empty()
    } else {
        let e = find_byte(s, from, NEWLINE);
        if e >= s.len() {
            seq![text_between(s, from, s.len() as int)]
        } else {
            proof {
                lemma_find_byte(s, from, NEWLINE);
            }
            seq![text_between(s, from, e)] + lines_from(s, e + 1)
        }
    }
}

/// The line separator.
pub const NEWLINE: u8 = 10;

/// The lines of `s`, as `s.split('\n')` gives them.
pub fn split_lines(s: &str) -> (r: Vec<String>)
    ensures
        texts(r@) == lines_from(encode_utf8(s@), 0),
{
    let b = s.as_bytes();
    let ghost bs = encode_utf8(s@);
    proof {
        encode_utf8_valid_utf8(s@);
        is_char_boundary_start_end_of_seq(bs);
    }
    let mut r: Vec<String> = Vec::new();
    let mut from: usize = 0;
    loop
        invariant
            b@ == bs,
            bs == encode_utf8(s@),
            valid_utf8(bs),
            from <= b.len(),
            is_char_boundary(bs, from as int),
            is_char_boundary(bs, bs.len() as int),
            texts(r@) + lines_from(bs, from as int) == lines_from(bs, 0),
        decreases b.len() - from,
    {
        let e = find_byte_from(b, from, NEWLINE);
        proof {
            lemma_find_byte(bs, from as int, NEWLINE);
            if e < bs.len() {
                lemma_ascii_boundaries(bs, e as int);
            }
        }
        let line = cut(s, from, e);
        let ghost before = texts(r@);
        r.push(line);
        assert(texts(r@) =~= before.push(line@));
        if e == b.len() {
            assert(texts(r@) =~= before + lines_from(bs, from as int));
            assert(texts(r@) + lines_from(bs, e as int + 1) =~= texts(r@));
            return r;
        }
        assert(lines_from(bs, from as int) == seq![line@] + lines_from(bs, e + 1));
        assert(texts(r@) + lines_from(bs, e + 1) =~= before + lines_from(bs, from as int));
        from = e + 1;
    }
}

proof fn lemma_join_cons(x: Seq<char>, rest: Seq<Seq<char>>, sep: Seq<char>)
    requires
        rest.len() > 0,
    ensures
        join(seq![x] + rest, sep) == x + sep + join(rest, sep),
    decreases rest.len(),
{
    let all = seq![x] + rest;
    if rest.len() == 1 {
        assert(all.drop_last() =~= seq![x]);
        assert(all.last() == rest[0]);
        assert(join(seq![x], sep) == x);
        assert(join(rest, sep) == rest[0]);
    } else {
        assert(all.drop_last() =~= seq![x] + rest.drop_last());
        lemma_join_cons(x, rest.drop_last(), sep);
        assert(all.last() == rest.last());
        let j = join(rest.drop_last(), sep);
        assert(join(rest, sep) == j + sep + rest.last());
        assert((x + sep + j) + sep + rest.last() =~= x + sep + (j + sep + rest.last()));
    }
}

/// A boundary of `b` at or after `from` is one of the bytes from `from` on too.
proof fn lemma_boundary_of_suffix(b: Seq<u8>, from: int, k: int)
    requires
        valid_utf8(b),
        is_char_boundary(b, from),
        is_char_boundary(b, k),
        0 <= from <= k <= b.len(),
    ensures
        valid_utf8(b.subrange(from, b.len() as int)),
        is_char_boundary(b.subrange(from, b.len() as int), k - from),
{
    valid_utf8_split(b, from);
    let t = b.subrange(from, b.len() as int);
    if k == b.len() {
        is_char_boundary_start_end_of_seq(t);
    } else {
        is_char_boundary_iff_not_is_continuation_byte(b, k);
        is_char_boundary_iff_not_is_continuation_byte(t, k - from);
    }
}

/// The bytes of a newline decode to a newline.
proof fn lemma_decode_newline()
    ensures
        decode_utf8(seq![NEWLINE]) == "\n"@,
{
    reveal_strlit("\n");
    let b = seq![NEWLINE];
    assert((10u8 & 0x7f) == 10u8) by (bit_vector);
    assert(decode_first_scalar(b) == 10);
    assert(length_of_first_scalar(b) == 1);
    assert(pop_first_scalar(b) =~= Seq::<u8>::empty());
    assert(valid_utf8(b)) by {
        reveal_with_fuel(valid_utf8, 2);
    }
    assert(decode_utf8(b) =~= seq![(10u32 as char)]) by {
        reveal_with_fuel(decode_utf8, 2);
    }
    assert(decode_utf8(b) =~= "\n"@);
}

proof fn lemma_lines_from_rejoin(b: Seq<u8>, from: int)
    requires
        valid_utf8(b),
        0 <= from <= b.len(),
        is_char_boundary(b, from),
    ensures
        lines_from(b, from).len() > 0,
        join(lines_from(b, from), "\n"@) == text_between(b, from, b.len() as int),
    decreases b.len() - from,
{
    let e = find_byte(b, from, NEWLINE);
    lemma_find_byte(b, from, NEWLINE);
    if e < b.len() {
        lemma_ascii_boundaries(b, e);
        lemma_lines_from_rejoin(b, e + 1);
        let first = text_between(b, from, e);
        let rest = lines_from(b, e + 1);
        assert(lines_from(b, from) == seq![first] + rest);
        lemma_join_cons(first, rest, "\n"@);
        // split the bytes from `from` at `e` and at `e + 1`
        let t = b.subrange(from, b.len() as int);
        lemma_boundary_of_suffix(b, from, e);
        decode_utf8_split(t, e - from);
        assert(t.subrange(0, e - from) =~= b.subrange(from, e));
        let u = t.subrange(e - from, t.len() as int);
        assert(u =~= b.subrange(e, b.len() as int));
        lemma_boundary_of_suffix(b, e, e + 1);
        decode_utf8_split(u, 1);
        assert(u.subrange(0, 1) =~= seq![NEWLINE]);
        assert(u.subrange(1, u.len() as int) =~= b.subrange(e + 1, b.len() as int));
        lemma_decode_newline();
    } else {
        assert(lines_from(b, from) == seq![text_between(b, from, b.len() as int)]);
    }
}

/// Splitting into lines loses nothing: the lines joined with newlines give the text back.
pub proof fn lemma_lines_rejoin(s: Seq<char>)
    ensures
        join(lines_from(encode_utf8(s), 0), "\n"@) == s,
{
    let b = encode_utf8(s);
    encode_utf8_valid_utf8(s);
    is_char_boundary_start_end_of_seq(b);
    lemma_lines_from_rejoin(b, 0);
    assert(b.subrange(0, b.len() as int) =~= b);
    encode_utf8_decode_utf8(s);
}

} // verus!
