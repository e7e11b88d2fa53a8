//! Character and UTF-8 utilities shared by the prompt parser and the agent
//! window: whitespace classification, byte offsets of characters, and
//! slicing a `str` by byte ranges.

use vstd::prelude::*;
use vstd::utf8::*;

verus! {

broadcast use vstd::string::group_string_axioms;

/// The Unicode `White_Space` property (PropList.txt), which is what
/// `char::is_whitespace` reports.
pub open spec fn is_white_space(c: char) -> bool {
    let v = c as u32;
    ||| 0x09 <= v <= 0x0D
    ||| v == 0x20
    ||| v == 0x85
    ||| v == 0xA0
    ||| v == 0x1680
    ||| 0x2000 <= v <= 0x200A
    ||| v == 0x2028
    ||| v == 0x2029
    ||| v == 0x202F
    ||| v == 0x205F
    ||| v == 0x3000
}

/// Whether `c` has the Unicode `White_Space` property (what
/// `char::is_whitespace` reports).
pub fn char_is_whitespace(c: char) -> (r: bool)
    ensures
        r == is_white_space(c),
{
    let v = c as u32;
    (0x09 <= v && v <= 0x0D) || v == 0x20 || v == 0x85 || v == 0xA0 || v == 0x1680 || (0x2000
        <= v && v <= 0x200A) || v == 0x2028 || v == 0x2029 || v == 0x202F || v == 0x205F || v
        == 0x3000
}

/// Number of bytes in the UTF-8 encoding of `c`.
pub open spec fn utf8_width(c: char) -> int {
    encode_scalar(c as u32).len() as int
}

/// Byte offset, in the UTF-8 encoding of `s`, of the character at index `i`.
pub open spec fn byte_offset(s: Seq<char>, i: int) -> int {
    encode_utf8(s.take(i)).len() as int
}

pub proof fn lemma_encode_concat(a: Seq<char>, b: Seq<char>)
    ensures
        encode_utf8(a + b) == encode_utf8(a) + encode_utf8(b),
    decreases a.len(),
{
    if a.len() == 0 {
        assert(a + b =~= b);
        assert(encode_utf8(a) =~= Seq::<u8>::empty());
        assert(encode_utf8(a) + encode_utf8(b) =~= encode_utf8(b));
    } else {
        lemma_encode_concat(a.drop_first(), b);
        assert((a + b).drop_first() =~= a.drop_first() + b);
        assert((a + b)[0] == a[0]);
        assert(encode_utf8(a + b) =~= encode_scalar(a[0] as u32) + encode_utf8(a.drop_first() + b));
        assert(encode_utf8(a) =~= encode_scalar(a[0] as u32) + encode_utf8(a.drop_first()));
    }
}

pub proof fn lemma_encode_single(c: char)
    ensures
        encode_utf8(seq![c]) == encode_scalar(c as u32),
        1 <= utf8_width(c) <= 4,
        utf8_width(c) == 1 <==> (c as u32) < 0x80,
        utf8_width(c) == 2 <==> 0x80 <= (c as u32) < 0x800,
        utf8_width(c) == 3 <==> 0x800 <= (c as u32) < 0x10000,
        utf8_width(c) == 4 <==> 0x10000 <= (c as u32),
{
    broadcast use char_is_scalar;
    let s = seq![c];
    assert(s.drop_first() =~= Seq::<char>::empty());
    assert(encode_utf8(s.drop_first()) =~= Seq::<u8>::empty());
    assert(encode_utf8(s) =~= encode_scalar(c as u32));
}

/// The byte offset of character `i + 1` is that of character `i` plus the
/// width of character `i`; offsets are bounded by the total length.
pub proof fn lemma_byte_offset_step(s: Seq<char>, i: int)
    requires
        0 <= i < s.len(),
    ensures
        byte_offset(s, i + 1) == byte_offset(s, i) + utf8_width(s[i]),
        byte_offset(s, i + 1) <= encode_utf8(s).len(),
{
    assert(s.take(i + 1) =~= s.take(i) + seq![s[i]]);
    lemma_encode_concat(s.take(i), seq![s[i]]);
    lemma_encode_single(s[i]);
    assert(s =~= s.take(i + 1) + s.skip(i + 1));
    lemma_encode_concat(s.take(i + 1), s.skip(i + 1));
}

pub proof fn lemma_byte_offset_bounds(s: Seq<char>, i: int)
    requires
        0 <= i <= s.len(),
    ensures
        0 <= byte_offset(s, i) <= encode_utf8(s).len(),
        byte_offset(s, 0) == 0,
        byte_offset(s, s.len() as int) == encode_utf8(s).len(),
{
    assert(s.take(0) =~= Seq::<char>::empty());
    assert(encode_utf8(s.take(0)) =~= Seq::<u8>::empty());
    assert(s.take(s.len() as int) =~= s);
    assert(s =~= s.take(i) + s.skip(i));
    lemma_encode_concat(s.take(i), s.skip(i));
}

/// The characters of `s`, in order.
pub fn chars_of(s: &str) -> (r: Vec<char>)
    ensures
        r@ == s@,
{
    let mut r: Vec<char> = Vec::new();
    for c in it: s.chars()
        invariant
            r@ == it.seq().take(it.index() as int),
    {
        r.push(c);
    }
    r
}

/// UTF-8 width of `c`, computed from its scalar value.
pub fn char_width(c: char) -> (w: usize)
    ensures
        w == utf8_width(c),
{
    proof {
        lemma_encode_single(c);
    }
    let v = c as u32;
    if v < 0x80 {
        1
    } else if v < 0x800 {
        2
    } else if v < 0x10000 {
        3
    } else {
        4
    }
}

/// The byte length of `s`, known to fit in `usize`.
pub fn byte_len(s: &str) -> (n: usize)
    ensures
        n == encode_utf8(s@).len(),
{
    let b = s.as_bytes();
    b.len()
}

/// The characters of `s` with the byte offset at which each one starts,
/// as `str::char_indices` yields them.
pub fn char_indices(s: &str) -> (r: Vec<(usize, char)>)
    ensures
        r@.len() == s@.len(),
        forall|i: int| 0 <= i < r@.len() ==> (#[trigger] r@[i]).1 == s@[i] && r@[i].0 == byte_offset(s@, i),
{
    let chars = chars_of(s);
    let total = byte_len(s);
    let mut r: Vec<(usize, char)> = Vec::new();
    let mut off: usize = 0;
    let mut i: usize = 0;
    proof {
        lemma_byte_offset_bounds(s@, 0);
    }
    while i < chars.len()
        invariant
            chars@ == s@,
            total == encode_utf8(s@).len(),
            0 <= i <= chars@.len(),
            r@.len() == i,
            off == byte_offset(s@, i as int),
            forall|j: int| 0 <= j < i ==> (#[trigger] r@[j]).1 == s@[j] && r@[j].0 == byte_offset(s@, j),
        decreases chars@.len() - i,
    {
        let c = chars[i];
        r.push((off, c));
        proof {
            lemma_byte_offset_step(s@, i as int);
        }
        let w = char_width(c);
        off = off + w;
        i = i + 1;
    }
    r
}

/// A UTF-8 byte sequence split at a character boundary keeps, in its tail,
/// every boundary of the whole that lies after the split.
pub proof fn lemma_boundary_in_tail(bytes: Seq<u8>, from: int, to: int)
    requires
        valid_utf8(bytes),
        0 <= from <= to <= bytes.len(),
        is_char_boundary(bytes, from),
        is_char_boundary(bytes, to),
    ensures
        valid_utf8(bytes.subrange(from, bytes.len() as int)),
        is_char_boundary(bytes.subrange(from, bytes.len() as int), to - from),
{
    let tail = bytes.subrange(from, bytes.len() as int);
    valid_utf8_split(bytes, from);
    if to == bytes.len() {
        is_char_boundary_start_end_of_seq(tail);
        assert(tail.len() == to - from);
    } else {
        is_char_boundary_iff_not_is_continuation_byte(bytes, to);
        is_char_boundary_iff_not_is_continuation_byte(tail, to - from);
        assert(tail[to - from] == bytes[to]);
    }
}

/// The part of `s` between the byte offsets `from` (inclusive) and `to`
/// (exclusive), as `&s[from..to]` gives it; both offsets must lie on
/// character boundaries.
pub fn substr_bytes(s: &str, from: usize, to: usize) -> (r: &str)
    requires
        from <= to <= encode_utf8(s@).len(),
        is_char_boundary(encode_utf8(s@), from as int),
        is_char_boundary(encode_utf8(s@), to as int),
    ensures
        encode_utf8(r@) == encode_utf8(s@).subrange(from as int, to as int),
        r@ == decode_utf8(encode_utf8(s@).subrange(from as int, to as int)),
{
    broadcast use encode_utf8_valid_utf8, encode_utf8_decode_utf8;

    let ghost bytes = encode_utf8(s@);
    proof {
        lemma_boundary_in_tail(bytes, from as int, to as int);
    }
    let (_head, tail) = s.split_at(from);
    assert(encode_utf8(tail@) =~= bytes.subrange(from as int, bytes.len() as int));
    let (piece, _rest) = tail.split_at(to - from);
    assert(encode_utf8(piece@) =~= bytes.subrange(from as int, to as int));
    proof {
        assert(decode_utf8(encode_utf8(piece@)) == piece@);
    }
    piece
}

/// The bytes between the offsets of characters `a` and `c` encode exactly
/// the characters in between.
pub proof fn lemma_encode_subrange(s: Seq<char>, a: int, c: int)
    requires
        0 <= a <= c <= s.len(),
    ensures
        encode_utf8(s).subrange(byte_offset(s, a), byte_offset(s, c)) == encode_utf8(s.subrange(a, c)),
{
    assert(s.take(c) =~= s.take(a) + s.subrange(a, c));
    lemma_encode_concat(s.take(a), s.subrange(a, c));
    assert(s =~= s.take(c) + s.skip(c));
    lemma_encode_concat(s.take(c), s.skip(c));
    assert(encode_utf8(s).subrange(byte_offset(s, a), byte_offset(s, c)) =~= encode_utf8(s.subrange(a, c)));
}

/// Every character starts on a character boundary of the encoding, and so
/// does the end of the encoding.
pub proof fn lemma_offset_is_boundary(s: Seq<char>, i: int)
    requires
        0 <= i <= s.len(),
    ensures
        is_char_boundary(encode_utf8(s), byte_offset(s, i)),
    decreases i,
{
    broadcast use encode_utf8_valid_utf8;

    lemma_byte_offset_bounds(s, i);
    if i > 0 {
        let bytes = encode_utf8(s);
        let rest = s.drop_first();
        encode_utf8_first_scalar(s);
        lemma_encode_single(s[0]);
        assert(bytes =~= encode_scalar(s[0] as u32) + encode_utf8(rest));
        assert(pop_first_scalar(bytes) =~= encode_utf8(rest));
        assert(s.take(i) =~= seq![s[0]] + rest.take(i - 1));
        lemma_encode_concat(seq![s[0]], rest.take(i - 1));
        assert(byte_offset(s, i) == utf8_width(s[0]) + byte_offset(rest, i - 1));
        lemma_offset_is_boundary(rest, i - 1);
        lemma_byte_offset_bounds(rest, i - 1);
    }
}

/// Byte offsets grow with the character index.
pub proof fn lemma_byte_offset_mono(s: Seq<char>, a: int, b: int)
    requires
        0 <= a <= b <= s.len(),
    ensures
        byte_offset(s, a) <= byte_offset(s, b),
{
    assert(s.take(b) =~= s.take(a) + s.subrange(a, b));
    lemma_encode_concat(s.take(a), s.subrange(a, b));
}

} // verus!
