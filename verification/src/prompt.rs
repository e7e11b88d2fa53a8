//! The prompt typed into the agent window, split into segments: plain text,
//! `@file` mentions and the `@selected` keyword.

use vstd::prelude::*;
use vstd::utf8::*;

use crate::text::{lemma_byte_offset_step, lemma_encode_subrange, lemma_offset_is_boundary, utf8_width, byte_len, byte_offset, char_indices, char_is_whitespace, chars_of, is_white_space, lemma_byte_offset_bounds, lemma_encode_concat, lemma_encode_single, substr_bytes};

verus! {

broadcast use vstd::string::group_string_axioms;

#[derive(Debug, Clone, Copy, PartialEq, Eq, Structural)]
pub enum SegmentKind {
    Text,
    File,
    Lsp,
    Selected,
}

/// A range representing a part of the prompt, the end is inclusive.
/// Both ends are byte offsets into the prompt's text; `end` is the offset
/// at which the segment's last character starts.
#[derive(Clone, Copy, Debug, PartialEq, Eq, Structural)]
pub struct Segment {
    pub start: usize,
    /// end is inclusive
    pub end: usize,
    pub kind: SegmentKind,
}

/// The prompt's raw text and its segments.
#[derive(Debug, Clone)]
pub struct Prompt {
    pub raw: String,
    pub segments: Vec<Segment>,
}

// ---------------------------------------------------------------------------
// The parser, stated over the characters of the prompt.
// ---------------------------------------------------------------------------

/// Which characters a run of a segment keeps consuming.
#[derive(Clone, Copy, Debug, PartialEq, Eq, Structural)]
pub enum Continue {
    /// everything up to the next whitespace (mentions and keywords)
    NonWhitespace,
    /// everything up to the next `@` or `#` (plain text)
    PlainText,
}

pub open spec fn continues(cont: Continue, c: char) -> bool {
    match cont {
        Continue::NonWhitespace => !is_white_space(c),
        Continue::PlainText => c != '@' && c != '#',
    }
}

/// The first index at or after `p` whose character stops the run (or the
/// length of `s` when none does).
pub open spec fn scan(s: Seq<char>, p: int, cont: Continue) -> int
    decreases s.len() - p,
{
    if p >= s.len() || !continues(cont, s[p]) {
        p
    } else {
        scan(s, p + 1, cont)
    }
}

/// `t` is a prefix of `s` (what `str::starts_with` tests).
pub open spec fn starts_with(s: Seq<char>, t: Seq<char>) -> bool {
    t.len() <= s.len() && forall|i: int| 0 <= i < t.len() ==> s[i] == #[trigger] t[i]
}

pub open spec fn kw_selected() -> Seq<char> {
    seq!['@', 's', 'e', 'l', 'e', 'c', 't', 'e', 'd']
}

pub open spec fn kw_symbol() -> Seq<char> {
    seq!['@', 's', 'y', 'm', 'b', 'o', 'l', ':']
}

pub open spec fn kw_symbol_short() -> Seq<char> {
    seq!['@', 's', ':']
}

/// `is_kw(buf, target)`: `buf` is exactly `target`, or `buf` is longer (in
/// bytes), starts with `target`, and the character whose index equals the
/// byte length of `target` is whitespace.
pub open spec fn kw_match(buf: Seq<char>, target: Seq<char>) -> bool {
    let k = encode_utf8(target).len() as int;
    ||| buf == target
    ||| {
        &&& encode_utf8(buf).len() > encode_utf8(target).len()
        &&& starts_with(buf, target)
        &&& k < buf.len()
        &&& is_white_space(buf[k])
    }
}

/// The segment that starts at character `p`: the index after its last
/// character and its kind. `None` where the parser produces none: symbol
/// lookups (`@symbol:`, `@s:`) are not implemented and stop the parser with
/// a panic, and a plain-text run that consumes nothing (it starts at `#`)
/// never advances, so the parser would not return.
pub open spec fn segment_at(s: Seq<char>, p: int) -> Option<(int, SegmentKind)> {
    let rest = s.skip(p);
    if starts_with(rest, kw_symbol()) || starts_with(rest, kw_symbol_short()) {
        None
    } else if kw_match(rest, kw_selected()) {
        Some((scan(s, p, Continue::NonWhitespace), SegmentKind::Selected))
    } else if s[p] == '@' {
        Some((scan(s, p, Continue::NonWhitespace), SegmentKind::File))
    } else {
        let q = scan(s, p, Continue::PlainText);
        if q == p {
            None
        } else {
            Some((q, SegmentKind::Text))
        }
    }
}

/// The segments of `s` from character `p` on, as (first character, last
/// character, kind), or `None` where the parser does not return a result.
pub open spec fn parse_from(s: Seq<char>, p: int) -> Option<Seq<(int, int, SegmentKind)>>
    decreases s.len() - p,
{
    if p >= s.len() {
        Some(Seq::empty())
    } else {
        match segment_at(s, p) {
            None => None,
            Some((q, kind)) => if q <= p || q > s.len() {
                None
            } else {
                match parse_from(s, q) {
                    None => None,
                    Some(rest) => Some(seq![(p, q - 1, kind)] + rest),
                }
            },
        }
    }
}

/// The segments of `s` by character positions.
pub open spec fn spec_parse(s: Seq<char>) -> Option<Seq<(int, int, SegmentKind)>> {
    parse_from(s, 0)
}

/// The parser returns a result on `s` (it neither panics nor hangs).
pub open spec fn parse_defined(s: Seq<char>) -> bool {
    spec_parse(s) is Some
}

/// A segment by character positions turned into byte offsets.
pub open spec fn to_segment(s: Seq<char>, cs: (int, int, SegmentKind)) -> Segment {
    Segment {
        start: byte_offset(s, cs.0) as usize,
        end: byte_offset(s, cs.1) as usize,
        kind: cs.2,
    }
}

pub open spec fn to_segments(s: Seq<char>, css: Seq<(int, int, SegmentKind)>) -> Seq<Segment> {
    css.map_values(|cs: (int, int, SegmentKind)| to_segment(s, cs))
}

/// What `parse` returns on `s`, by byte offsets.
pub open spec fn spec_parse_segments(s: Seq<char>) -> Seq<Segment> {
    to_segments(s, spec_parse(s)->0)
}

// ---------------------------------------------------------------------------
// Slicing segments out of the raw text.
// ---------------------------------------------------------------------------

/// Length in bytes of the sigil a segment of `kind` starts with.
pub open spec fn sigil_len(kind: SegmentKind) -> int {
    match kind {
        SegmentKind::Text => 0,
        SegmentKind::File => 1,
        SegmentKind::Lsp => 2,
        SegmentKind::Selected => 1,
    }
}

impl Segment {
    /// Byte offset of the first character.
    pub open spec fn first_byte(self) -> int {
        self.start as int
    }

    /// Byte offset of the last character.
    pub open spec fn last_byte(self) -> int {
        self.end as int
    }

    /// `&raw[start..=end]` does not panic on the UTF-8 bytes `bytes`.
    pub open spec fn fits(self, bytes: Seq<u8>) -> bool {
        &&& self.first_byte() <= self.last_byte() < bytes.len()
        &&& is_char_boundary(bytes, self.first_byte())
        &&& is_char_boundary(bytes, self.last_byte() + 1)
    }

    /// The characters `&raw[start..=end]` holds.
    pub open spec fn slice_of(self, raw: Seq<char>) -> Seq<char> {
        decode_utf8(encode_utf8(raw).subrange(self.first_byte(), self.last_byte() + 1))
    }

    /// What `expand` gives for this segment of `raw`.
    pub open spec fn spec_expand(self, raw: Seq<char>) -> Seq<char> {
        match self.kind {
            SegmentKind::Text => self.slice_of(raw),
            SegmentKind::File => "file"@,
            SegmentKind::Lsp => "lsp"@,
            SegmentKind::Selected => "selected"@,
        }
    }

    pub fn new(start: usize, end: usize, kind: SegmentKind) -> (r: Self)
        ensures
            r.first_byte() == start,
            r.last_byte() == end,
            r.kind == kind,
    {
        Self { start, end, kind }
    }

    /// The text the segment stands for: the slice of `buf` it covers for
    /// plain text, and a fixed word for the other kinds.
    pub fn expand<'a>(&self, buf: &'a str) -> (r: &'a str)
        requires
            self.kind == SegmentKind::Text ==> self.fits(encode_utf8(buf@)),
        ensures
            r@ == self.spec_expand(buf@),
    {
        match self.kind {
            SegmentKind::Text => {
                // the byte length of `buf` is a `usize` and exceeds `end`,
                // so `end + 1` does not overflow
                let total: usize = byte_len(buf);
                assert(self.end < total);
                substr_bytes(buf, self.start, self.end + 1)
            },
            SegmentKind::File => "file",
            SegmentKind::Lsp => "lsp",
            SegmentKind::Selected => "selected",
        }
    }

    /// Length of the sigil before the segment's name.
    pub fn prefix_len(&self) -> (r: usize)
        ensures
            r == sigil_len(self.kind),
    {
        match self.kind {
            SegmentKind::Text => 0,
            SegmentKind::File => 1,
            SegmentKind::Lsp => 2,
            SegmentKind::Selected => 1,
        }
    }

    /// Whether `&buf[start..=end]` can be taken (the check `expand` and
    /// `as_string` need).
    pub fn fits_in(&self, buf: &str) -> (r: bool)
        ensures
            r == self.fits(encode_utf8(buf@)),
    {
        let n = byte_len(buf);
        if self.start <= self.end && self.end < n {
            buf.is_char_boundary(self.start) && buf.is_char_boundary(self.end + 1)
        } else {
            false
        }
    }
}

/// `expand` of the prompt: each segment expanded, followed by a space.
pub open spec fn spec_expand_all(raw: Seq<char>, segs: Seq<Segment>) -> Seq<char>
    decreases segs.len(),
{
    if segs.len() == 0 {
        Seq::empty()
    } else {
        spec_expand_all(raw, segs.drop_last()) + segs.last().spec_expand(raw) + " "@
    }
}

/// `as_string` of the prompt: the slices of all segments, back to back.
pub open spec fn spec_join_slices(raw: Seq<char>, segs: Seq<Segment>) -> Seq<char>
    decreases segs.len(),
{
    if segs.len() == 0 {
        Seq::empty()
    } else {
        spec_join_slices(raw, segs.drop_last()) + segs.last().slice_of(raw)
    }
}

impl Prompt {
    /// Every plain-text segment can be sliced out of `raw`.
    pub open spec fn text_fits(self) -> bool {
        forall|i: int|
            0 <= i < self.segments@.len() && (#[trigger] self.segments@[i]).kind == SegmentKind::Text
                ==> self.segments@[i].fits(encode_utf8(self.raw@))
    }

    /// Every segment can be sliced out of `raw`.
    pub open spec fn all_fit(self) -> bool {
        forall|i: int|
            0 <= i < self.segments@.len() ==> (#[trigger] self.segments@[i]).fits(
                encode_utf8(self.raw@),
            )
    }

    /// The prompt with each segment expanded and followed by a space.
    pub fn expand(&self) -> (r: String)
        requires
            self.text_fits(),
        ensures
            r@ == spec_expand_all(self.raw@, self.segments@),
    {
        let mut buf = String::new();
        let mut i: usize = 0;
        while i < self.segments.len()
            invariant
                self.text_fits(),
                i <= self.segments@.len(),
                buf@ == spec_expand_all(self.raw@, self.segments@.take(i as int)),
            decreases self.segments@.len() - i,
        {
            let s = self.segments[i];
            buf.append(s.expand(self.raw.as_str()));
            buf.append(" ");
            proof {
                let t = self.segments@.take(i + 1);
                assert(t.drop_last() =~= self.segments@.take(i as int));
                assert(t.last() == s);
            }
            i = i + 1;
        }
        assert(self.segments@.take(i as int) =~= self.segments@);
        buf
    }

    /// The raw text of all segments, back to back.
    pub fn as_string(&self) -> (r: String)
        requires
            self.all_fit(),
        ensures
            r@ == spec_join_slices(self.raw@, self.segments@),
    {
        let mut buf = String::new();
        let mut i: usize = 0;
        while i < self.segments.len()
            invariant
                self.all_fit(),
                i <= self.segments@.len(),
                buf@ == spec_join_slices(self.raw@, self.segments@.take(i as int)),
            decreases self.segments@.len() - i,
        {
            let s = self.segments[i];
            assert(self.segments@[i as int].fits(encode_utf8(self.raw@)));
            let total: usize = byte_len(self.raw.as_str());
            assert(s.end < total);
            buf.append(substr_bytes(self.raw.as_str(), s.start, s.end + 1));
            proof {
                let t = self.segments@.take(i + 1);
                assert(t.drop_last() =~= self.segments@.take(i as int));
                assert(t.last() == s);
            }
            i = i + 1;
        }
        assert(self.segments@.take(i as int) =~= self.segments@);
        buf
    }

    /// Whether every plain-text segment can be sliced out of `raw`, the
    /// condition of `expand`.
    pub fn text_segments_fit(&self) -> (r: bool)
        ensures
            r == self.text_fits(),
    {
        let mut i: usize = 0;
        while i < self.segments.len()
            invariant
                i <= self.segments@.len(),
                forall|j: int|
                    0 <= j < i && (#[trigger] self.segments@[j]).kind == SegmentKind::Text
                        ==> self.segments@[j].fits(encode_utf8(self.raw@)),
            decreases self.segments@.len() - i,
        {
            let s = self.segments[i];
            if s.kind == SegmentKind::Text && !s.fits_in(self.raw.as_str()) {
                return false;
            }
            i = i + 1;
        }
        true
    }

    /// Parses `value` into a prompt. Symbol lookups (`@symbol:`, `@s:`) are
    /// not implemented and a plain-text run starting at `#` never advances;
    /// those inputs are excluded.
    pub fn from(value: String) -> (r: Prompt)
        requires
            parse_defined(value@),
        ensures
            r.raw@ == value@,
            r.segments@ == spec_parse_segments(value@),
    {
        let segments = parse(value.as_str());
        Prompt { raw: value, segments }
    }

    /// `from` where it is defined, `None` on the inputs that `from` excludes.
    pub fn checked_from(value: String) -> (r: Option<Prompt>)
        ensures
            r is Some <==> parse_defined(value@),
            r matches Some(p) ==> p.raw@ == value@ && p.segments@ == spec_parse_segments(value@),
    {
        match parse_checked(value.as_str()) {
            Some(segments) => Some(Prompt { raw: value, segments }),
            None => None,
        }
    }
}

// ---------------------------------------------------------------------------
// The executable parser.
// ---------------------------------------------------------------------------

/// `iter` holds the characters of `s` with their byte offsets.
pub open spec fn indexes(iter: Seq<(usize, char)>, s: Seq<char>) -> bool {
    &&& iter.len() == s.len()
    &&& forall|i: int|
        0 <= i < iter.len() ==> (#[trigger] iter[i]).1 == s[i] && iter[i].0 == byte_offset(s, i)
}

pub proof fn lemma_scan(s: Seq<char>, p: int, cont: Continue)
    requires
        0 <= p <= s.len(),
    ensures
        p <= scan(s, p, cont) <= s.len(),
        forall|j: int| p <= j < scan(s, p, cont) ==> continues(cont, #[trigger] s[j]),
        scan(s, p, cont) < s.len() ==> !continues(cont, s[scan(s, p, cont)]),
    decreases s.len() - p,
{
    if p < s.len() && continues(cont, s[p]) {
        lemma_scan(s, p + 1, cont);
    }
}

fn continues_exec(cont: Continue, c: char) -> (r: bool)
    ensures
        r == continues(cont, c),
{
    match cont {
        Continue::NonWhitespace => !char_is_whitespace(c),
        Continue::PlainText => c != '@' && c != '#',
    }
}

/// Consumes characters while they continue the run; returns the byte
/// offset of the last one consumed, or `start` when none was.
fn advance_while(
    iter: &Vec<(usize, char)>,
    pos: &mut usize,
    cont: Continue,
    start: usize,
    Ghost(s): Ghost<Seq<char>>,
) -> (end: usize)
    requires
        indexes(iter@, s),
        *old(pos) <= s.len(),
    ensures
        *final(pos) == scan(s, *old(pos) as int, cont),
        end == if *final(pos) > *old(pos) {
            byte_offset(s, *final(pos) - 1)
        } else {
            start as int
        },
{
    let ghost p0 = *pos as int;
    proof {
        lemma_scan(s, p0, cont);
    }
    let mut end = start;
    while *pos < iter.len() && continues_exec(cont, iter[*pos].1)
        invariant
            indexes(iter@, s),
            p0 <= *pos <= s.len(),
            scan(s, p0, cont) == scan(s, *pos as int, cont),
            end == if *pos > p0 {
                byte_offset(s, *pos - 1)
            } else {
                start as int
            },
        decreases s.len() - *pos,
    {
        end = iter[*pos].0;
        *pos = *pos + 1;
    }
    end
}

/// `t` occurs in `s` at character `p`.
fn matches_at(s: &Vec<char>, p: usize, t: &Vec<char>) -> (r: bool)
    requires
        p <= s@.len(),
    ensures
        r == starts_with(s@.skip(p as int), t@),
{
    if t.len() > s.len() - p {
        return false;
    }
    let mut i: usize = 0;
    while i < t.len()
        invariant
            p <= s@.len(),
            t@.len() <= s@.len() - p,
            i <= t@.len(),
            forall|j: int| 0 <= j < i ==> s@.skip(p as int)[j] == #[trigger] t@[j],
        decreases t@.len() - i,
    {
        let n = s.len();
        assert(p + i < n);
        if s[p + i] != t[i] {
            assert(s@.skip(p as int)[i as int] != t@[i as int]);
            return false;
        }
        i = i + 1;
    }
    true
}

/// `is_kw` on the text of `s` from character `p` on (`buf_bytes` bytes
/// long) and a target of `target_bytes` bytes.
fn is_kw_at(s: &Vec<char>, p: usize, buf_bytes: usize, target: &Vec<char>, target_bytes: usize) -> (r: bool)
    requires
        p <= s@.len(),
        buf_bytes == encode_utf8(s@.skip(p as int)).len(),
        target_bytes == encode_utf8(target@).len(),
    ensures
        r == kw_match(s@.skip(p as int), target@),
{
    let ghost buf = s@.skip(p as int);
    let prefix = matches_at(s, p, target);
    if prefix && target.len() == s.len() - p {
        assert(buf =~= target@);
        return true;
    }
    if buf_bytes > target_bytes && prefix && target_bytes < s.len() - p {
        assert(buf[target_bytes as int] == s@[p + target_bytes]);
        return char_is_whitespace(s[p + target_bytes]);
    }
    false
}

/// `is_kw(buf, target)`: `target` is the last word in `buf`, or `buf`
/// starts with it and the character after it (counted by the byte length of
/// `target`) is whitespace.
pub fn is_kw(buf: &str, target: &str) -> (r: bool)
    ensures
        r == kw_match(buf@, target@),
{
    let b = chars_of(buf);
    let t = chars_of(target);
    assert(b@.skip(0) =~= b@);
    is_kw_at(&b, 0, byte_len(buf), &t, byte_len(target))
}

/// Keywords that take arguments; none are recognised yet.
pub fn is_kw_with_args(_buf: &str, _target: &str) -> (r: bool)
    ensures
        !r,
{
    false
}

pub proof fn lemma_ascii_encode_len(s: Seq<char>)
    requires
        forall|i: int| 0 <= i < s.len() ==> (#[trigger] s[i] as u32) < 0x80,
    ensures
        encode_utf8(s).len() == s.len(),
    decreases s.len(),
{
    if s.len() > 0 {
        lemma_encode_single(s[0]);
        assert(s =~= seq![s[0]] + s.drop_first());
        lemma_encode_concat(seq![s[0]], s.drop_first());
        lemma_ascii_encode_len(s.drop_first());
    }
}

pub proof fn lemma_skip_bytes(s: Seq<char>, p: int)
    requires
        0 <= p <= s.len(),
    ensures
        encode_utf8(s.skip(p)).len() == encode_utf8(s).len() - byte_offset(s, p),
{
    assert(s =~= s.take(p) + s.skip(p));
    lemma_encode_concat(s.take(p), s.skip(p));
}

fn keyword(which: u8) -> (r: Vec<char>)
    ensures
        which == 0 ==> r@ == kw_selected(),
        which == 1 ==> r@ == kw_symbol(),
        which != 0 && which != 1 ==> r@ == kw_symbol_short(),
{
    let mut r: Vec<char> = Vec::new();
    if which == 0 {
        r.push('@'); r.push('s'); r.push('e'); r.push('l'); r.push('e');
        r.push('c'); r.push('t'); r.push('e'); r.push('d');
        assert(r@ =~= kw_selected());
    } else if which == 1 {
        r.push('@'); r.push('s'); r.push('y'); r.push('m'); r.push('b');
        r.push('o'); r.push('l'); r.push(':');
        assert(r@ =~= kw_symbol());
    } else {
        r.push('@'); r.push('s'); r.push(':');
        assert(r@ =~= kw_symbol_short());
    }
    r
}

/// The segments collected so far followed by those from character `p` on.
pub open spec fn joined(s: Seq<char>, done: Seq<Segment>, rest: Option<Seq<(int, int, SegmentKind)>>) -> Option<Seq<Segment>> {
    match rest {
        Some(r) => Some(done + to_segments(s, r)),
        None => None,
    }
}

/// The parser: `Some` with the segments of `input`, or `None` on the inputs
/// where parsing is undefined: symbol lookups (`@symbol:`, `@s:`) or a run
/// of plain text that starts at `#`.
fn parse_checked(input: &str) -> (r: Option<Vec<Segment>>)
    ensures
        r is Some <==> parse_defined(input@),
        r matches Some(v) ==> v@ == spec_parse_segments(input@),
{
    let ghost s = input@;
    let iter = char_indices(input);
    let chars = chars_of(input);
    let total = byte_len(input);
    let selected = keyword(0);
    let symbol = keyword(1);
    let symbol_short = keyword(2);
    proof {
        assert forall|i: int| 0 <= i < kw_selected().len() implies (#[trigger] kw_selected()[i] as u32) < 0x80 by {
        }
        lemma_ascii_encode_len(kw_selected());
    }
    let selected_bytes: usize = 9;
    let mut segments: Vec<Segment> = Vec::new();
    let mut pos: usize = 0;
    assert(to_segments(s, Seq::empty()) =~= Seq::<Segment>::empty());
    assert(Seq::<Segment>::empty() + to_segments(s, Seq::empty()) =~= Seq::<Segment>::empty());
    while pos < iter.len()
        invariant
            s == input@,
            indexes(iter@, s),
            chars@ == s,
            total == encode_utf8(s).len(),
            selected@ == kw_selected(),
            symbol@ == kw_symbol(),
            symbol_short@ == kw_symbol_short(),
            selected_bytes == encode_utf8(kw_selected()).len(),
            pos <= s.len(),
            joined(s, Seq::empty(), spec_parse(s)) == joined(s, segments@, parse_from(s, pos as int)),
        decreases s.len() - pos,
    {
        let ghost p = pos as int;
        let p0 = pos;
        let start = iter[pos].0;
        proof {
            lemma_byte_offset_bounds(s, p);
            lemma_skip_bytes(s, p);
            lemma_scan(s, p, Continue::NonWhitespace);
            lemma_scan(s, p, Continue::PlainText);
        }
        let m1 = matches_at(&chars, pos, &symbol);
        let m2 = matches_at(&chars, pos, &symbol_short);
        if m1 || m2 {
            assert(segment_at(s, p) is None);
            assert(parse_from(s, p) is None);
            assert(joined(s, segments@, parse_from(s, p)) is None);
            assert(spec_parse(s) is None);
            return None;
        }
        let kind;
        let end;
        if is_kw_at(&chars, pos, total - start, &selected, selected_bytes) {
            end = advance_while(&iter, &mut pos, Continue::NonWhitespace, start, Ghost(s));
            kind = SegmentKind::Selected;
        } else if chars[pos] == '@' {
            end = advance_while(&iter, &mut pos, Continue::NonWhitespace, start, Ghost(s));
            kind = SegmentKind::File;
        } else {
            end = advance_while(&iter, &mut pos, Continue::PlainText, start, Ghost(s));
            if pos == p0 {
                assert(segment_at(s, p) is None);
                assert(parse_from(s, p) is None);
                return None;
            }
            kind = SegmentKind::Text;
        }
        let segment = Segment { start, end, kind };
        proof {
            let q = pos as int;
            assert(segment_at(s, p) == Some((q, kind)));
            assert(segment == to_segment(s, (p, q - 1, kind)));
            let rest = parse_from(s, q);
            if let Some(r) = rest {
                assert(to_segments(s, seq![(p, q - 1, kind)] + r) =~= seq![segment] + to_segments(s, r));
                assert(segments@.push(segment) + to_segments(s, r) =~= segments@ + (seq![segment] + to_segments(s, r)));
            }
        }
        segments.push(segment);
    }
    assert(segments@ + to_segments(s, Seq::empty()) =~= segments@);
    Some(segments)
}

/// Splits the prompt into segments.
pub fn parse(input: &str) -> (r: Vec<Segment>)
    requires
        parse_defined(input@),
    ensures
        r@ == spec_parse_segments(input@),
{
    match parse_checked(input) {
        Some(v) => v,
        None => Vec::new(),
    }
}

// ---------------------------------------------------------------------------
// Laws of the parser.
// ---------------------------------------------------------------------------

/// A segment (first character, last character, kind) of `s` is classified
/// as the parser classifies: plain text holds no `@` or `#` and ends before
/// one (or at the end); a mention or `@selected` starts with `@`, holds no
/// whitespace and ends before whitespace (or at the end).
pub open spec fn classified(s: Seq<char>, cs: (int, int, SegmentKind)) -> bool {
    let (a, b, k) = cs;
    &&& 0 <= a <= b < s.len()
    &&& k != SegmentKind::Lsp
    &&& k == SegmentKind::Text ==> {
        &&& forall|j: int| a <= j <= b ==> continues(Continue::PlainText, #[trigger] s[j])
        &&& b + 1 < s.len() ==> !continues(Continue::PlainText, s[b + 1])
    }
    &&& k != SegmentKind::Text ==> {
        &&& s[a] == '@'
        &&& forall|j: int| a <= j <= b ==> continues(Continue::NonWhitespace, #[trigger] s[j])
        &&& b + 1 < s.len() ==> !continues(Continue::NonWhitespace, s[b + 1])
    }
}

/// The segments tile `s` from `p` on: they are consecutive, each starts
/// where the previous one ended, the first starts at `p` and the last ends
/// at the last character.
pub open spec fn tiles(s: Seq<char>, p: int, cs: Seq<(int, int, SegmentKind)>) -> bool {
    &&& (cs.len() == 0 <==> p == s.len())
    &&& cs.len() > 0 ==> cs[0].0 == p && cs.last().1 == s.len() - 1
    &&& forall|i: int| 0 <= i < cs.len() - 1 ==> (#[trigger] cs[i]).1 + 1 == cs[i + 1].0
    &&& forall|i: int| 0 <= i < cs.len() ==> classified(s, #[trigger] cs[i])
}

proof fn lemma_parse_from_tiles(s: Seq<char>, p: int)
    requires
        0 <= p <= s.len(),
        parse_from(s, p) is Some,
    ensures
        tiles(s, p, parse_from(s, p)->0),
    decreases s.len() - p,
{
    if p < s.len() {
        let (q, k) = segment_at(s, p)->0;
        let rest = parse_from(s, q)->0;
        lemma_parse_from_tiles(s, q);
        let cs = parse_from(s, p)->0;
        assert(cs == seq![(p, q - 1, k)] + rest);
        lemma_scan(s, p, Continue::NonWhitespace);
        lemma_scan(s, p, Continue::PlainText);
        assert(classified(s, cs[0]));
        assert forall|i: int| 0 <= i < cs.len() - 1 implies (#[trigger] cs[i]).1 + 1 == cs[i + 1].0 by {
            if i > 0 {
                assert(cs[i] == rest[i - 1]);
                assert(cs[i + 1] == rest[i]);
            }
        }
        assert forall|i: int| 0 <= i < cs.len() implies classified(s, #[trigger] cs[i]) by {
            if i > 0 {
                assert(cs[i] == rest[i - 1]);
            }
        }
    }
}

/// The parser splits a prompt into consecutive segments that cover it
/// exactly, in order: plain text runs up to the next `@` or `#`, mentions
/// and `@selected` run from `@` up to the next whitespace.
pub proof fn law_parse_tiles(s: Seq<char>)
    requires
        parse_defined(s),
    ensures
        tiles(s, 0, spec_parse(s)->0),
{
    lemma_parse_from_tiles(s, 0);
}

/// A parsed segment whose last character is one byte long slices out
/// exactly its characters.
proof fn lemma_segment_slice(s: Seq<char>, cs: (int, int, SegmentKind))
    requires
        encode_utf8(s).len() <= usize::MAX,
        0 <= cs.0 <= cs.1 < s.len(),
        utf8_width(s[cs.1]) == 1,
    ensures
        to_segment(s, cs).slice_of(s) == s.subrange(cs.0, cs.1 + 1),
{
    let (a, b, k) = cs;
    lemma_byte_offset_step(s, b);
    lemma_byte_offset_bounds(s, a);
    lemma_byte_offset_bounds(s, b);
    lemma_encode_subrange(s, a, b + 1);
    vstd::utf8::encode_utf8_decode_utf8(s.subrange(a, b + 1));
}

/// The slices of the first `n` segments spell the prompt up to the end of
/// the `n`-th one.
#[verifier::rlimit(30)]
proof fn lemma_join_prefix(s: Seq<char>, cs: Seq<(int, int, SegmentKind)>, n: int)
    requires
        encode_utf8(s).len() <= usize::MAX,
        0 < n <= cs.len(),
        cs[0].0 == 0,
        forall|i: int| 0 <= i < cs.len() - 1 ==> (#[trigger] cs[i]).1 + 1 == cs[i + 1].0,
        forall|i: int| 0 <= i < cs.len() ==> 0 <= (#[trigger] cs[i]).0 <= cs[i].1 < s.len(),
        forall|i: int| 0 <= i < cs.len() ==> utf8_width(s[(#[trigger] cs[i]).1]) == 1,
    ensures
        spec_join_slices(s, to_segments(s, cs).take(n)) == s.subrange(0, cs[n - 1].1 + 1),
    decreases n,
{
    let segs = to_segments(s, cs).take(n);
    let (a, b, k) = cs[n - 1];
    lemma_segment_slice(s, cs[n - 1]);
    assert(segs.last() == to_segment(s, cs[n - 1]));
    assert(segs.drop_last() =~= to_segments(s, cs).take(n - 1));
    assert(spec_join_slices(s, segs) == spec_join_slices(s, segs.drop_last()) + segs.last().slice_of(s));
    if n == 1 {
        assert(segs.drop_last() =~= Seq::<Segment>::empty());
        assert(spec_join_slices(s, segs.drop_last()) =~= Seq::<char>::empty());
        assert(s.subrange(0, b + 1) =~= Seq::<char>::empty() + s.subrange(a, b + 1));
    } else {
        lemma_join_prefix(s, cs, n - 1);
        assert(cs[n - 2].1 + 1 == a);
        assert(s.subrange(0, b + 1) =~= s.subrange(0, a) + s.subrange(a, b + 1));
    }
}

/// Joining the slices of the parsed segments gives the prompt back (what
/// `Prompt::from` followed by `as_string` returns), and every segment can be
/// sliced, wherever each segment ends with a one-byte character; where one
/// ends with a wider character, `as_string` panics on it.
pub proof fn law_parse_round_trip(s: Seq<char>)
    requires
        encode_utf8(s).len() <= usize::MAX,
        parse_defined(s),
        forall|i: int|
            0 <= i < spec_parse(s)->0.len() ==> utf8_width(s[(#[trigger] spec_parse(s)->0[i]).1]) == 1,
    ensures
        forall|i: int|
            0 <= i < spec_parse_segments(s).len() ==> (#[trigger] spec_parse_segments(s)[i]).fits(encode_utf8(s)),
        spec_join_slices(s, spec_parse_segments(s)) == s,
{
    let cs = spec_parse(s)->0;
    law_parse_tiles(s);
    assert forall|i: int| 0 <= i < spec_parse_segments(s).len() implies (#[trigger] spec_parse_segments(s)[i]).fits(encode_utf8(s)) by {
        let (a, b, k) = cs[i];
        assert(classified(s, cs[i]));
        lemma_byte_offset_step(s, a);
        lemma_byte_offset_step(s, b);
        lemma_byte_offset_bounds(s, b);
        if a < b {
            crate::text::lemma_byte_offset_mono(s, a, b);
        }
        lemma_offset_is_boundary(s, a);
        lemma_offset_is_boundary(s, b + 1);
    }
    if cs.len() == 0 {
        assert(s.len() == 0);
        assert(spec_parse_segments(s) =~= Seq::<Segment>::empty());
        assert(s =~= Seq::<char>::empty());
    } else {
        assert forall|i: int| 0 <= i < cs.len() implies 0 <= (#[trigger] cs[i]).0 <= cs[i].1 < s.len() by {
            assert(classified(s, cs[i]));
        }
        lemma_join_prefix(s, cs, cs.len() as int);
        assert(to_segments(s, cs).take(cs.len() as int) =~= spec_parse_segments(s));
        assert(s.subrange(0, s.len() as int) =~= s);
    }
}

/// Text without `@` or `#` is one plain-text segment: `Prompt::from`
/// followed by `expand` gives it back with one space added (nothing for the
/// empty text), wherever its last character is one byte long.
pub proof fn law_plain_text_expands_to_itself(s: Seq<char>)
    requires
        encode_utf8(s).len() <= usize::MAX,
        forall|i: int| 0 <= i < s.len() ==> #[trigger] s[i] != '@' && s[i] != '#',
        s.len() > 0 ==> utf8_width(s.last()) == 1,
    ensures
        parse_defined(s),
        forall|i: int|
            0 <= i < spec_parse_segments(s).len() ==> (#[trigger] spec_parse_segments(s)[i]).fits(encode_utf8(s)),
        spec_expand_all(s, spec_parse_segments(s)) == (if s.len() == 0 {
            Seq::<char>::empty()
        } else {
            s + " "@
        }),
{
    let n = s.len() as int;
    if n == 0 {
        assert(spec_parse_segments(s) =~= Seq::<Segment>::empty());
    } else {
        lemma_scan(s, 0, Continue::PlainText);
        assert(scan(s, 0, Continue::PlainText) == n);
        assert(!starts_with(s.skip(0), kw_symbol())) by {
            assert(kw_symbol()[0] == '@');
        }
        assert(!starts_with(s.skip(0), kw_symbol_short())) by {
            assert(kw_symbol_short()[0] == '@');
        }
        assert(!kw_match(s.skip(0), kw_selected())) by {
            assert(kw_selected()[0] == '@');
            assert(s.skip(0)[0] == s[0]);
        }
        assert(segment_at(s, 0) == Some((n, SegmentKind::Text)));
        assert(parse_from(s, n) == Some(Seq::<(int, int, SegmentKind)>::empty()));
        let cs = seq![(0int, n - 1, SegmentKind::Text)];
        assert(spec_parse(s) == Some(cs)) by {
            assert(seq![(0int, n - 1, SegmentKind::Text)] + Seq::<(int, int, SegmentKind)>::empty() =~= cs);
        }
        law_parse_round_trip(s);
        let segs = spec_parse_segments(s);
        assert(segs.len() == 1);
        assert(segs.drop_last() =~= Seq::<Segment>::empty());
        assert(segs.last().kind == SegmentKind::Text);
        assert(spec_join_slices(s, segs) == spec_join_slices(s, segs.drop_last()) + segs.last().slice_of(s));
        assert(spec_join_slices(s, segs.drop_last()) =~= Seq::<char>::empty());
        assert(segs.last().slice_of(s) =~= s);
        assert(spec_expand_all(s, segs.drop_last()) =~= Seq::<char>::empty());
        assert(spec_expand_all(s, segs) =~= s + " "@);
    }
}

/// Every parsed segment starts with its sigil: `prefix_len` of it fits in
/// the segment, and the bytes it counts from the segment's start are `@`.
pub proof fn law_prefix_is_sigil(s: Seq<char>)
    requires
        encode_utf8(s).len() <= usize::MAX,
        parse_defined(s),
    ensures
        forall|i: int| 0 <= i < spec_parse_segments(s).len() ==> {
            let seg = #[trigger] spec_parse_segments(s)[i];
            &&& seg.first_byte() + sigil_len(seg.kind) <= seg.last_byte() + 1
            &&& forall|j: int|
                seg.first_byte() <= j < seg.first_byte() + sigil_len(seg.kind) ==> encode_utf8(s)[j] == 64u8
        },
{
    let cs = spec_parse(s)->0;
    law_parse_tiles(s);
    assert forall|i: int| 0 <= i < spec_parse_segments(s).len() implies {
        let seg = #[trigger] spec_parse_segments(s)[i];
        &&& seg.first_byte() + sigil_len(seg.kind) <= seg.last_byte() + 1
        &&& forall|j: int|
            seg.first_byte() <= j < seg.first_byte() + sigil_len(seg.kind) ==> encode_utf8(s)[j] == 64u8
    } by {
        let (a, b, k) = cs[i];
        assert(classified(s, cs[i]));
        let seg = spec_parse_segments(s)[i];
        assert(seg == to_segment(s, cs[i]));
        lemma_byte_offset_bounds(s, a);
        lemma_byte_offset_bounds(s, b);
        lemma_byte_offset_step(s, b);
        crate::text::lemma_byte_offset_mono(s, a, b);
        lemma_byte_offset_step(s, a);
        if k != SegmentKind::Text {
            lemma_encode_subrange(s, a, a + 1);
            assert(s.subrange(a, a + 1) =~= seq![s[a]]);
            lemma_encode_single(s[a]);
            assert(s[a] as u32 == 64u32);
            assert((64u32 & 0x7Fu32) as u8 == 64u8) by (bit_vector);
            assert(encode_scalar(s[a] as u32) =~= seq![64u8]);
            assert(encode_utf8(s).subrange(byte_offset(s, a), byte_offset(s, a + 1))[0] == encode_utf8(s)[byte_offset(s, a)]);
        }
    }
}

/// Where each parsed segment ends: a mention or `@selected` starts with
/// `@`, holds no whitespace character (`char::is_whitespace`) and ends right
/// before one, or at the end of the prompt; a plain-text run holds no `@` or
/// `#` and ends right before one, or at the end.
pub proof fn law_segment_boundaries(s: Seq<char>)
    requires
        parse_defined(s),
    ensures
        forall|i: int| 0 <= i < spec_parse(s)->0.len() ==> {
            let (a, b, k) = #[trigger] spec_parse(s)->0[i];
            &&& 0 <= a <= b < s.len()
            &&& k != SegmentKind::Text ==> {
                &&& s[a] == '@'
                &&& forall|j: int| a <= j <= b ==> !is_white_space(#[trigger] s[j])
                &&& b + 1 < s.len() ==> is_white_space(s[b + 1])
            }
            &&& k == SegmentKind::Text ==> {
                &&& forall|j: int| a <= j <= b ==> #[trigger] s[j] != '@' && s[j] != '#'
                &&& b + 1 < s.len() ==> (s[b + 1] == '@' || s[b + 1] == '#')
            }
        },
{
    let cs = spec_parse(s)->0;
    law_parse_tiles(s);
    assert forall|i: int| 0 <= i < cs.len() implies {
        let (a, b, k) = #[trigger] cs[i];
        &&& 0 <= a <= b < s.len()
        &&& k != SegmentKind::Text ==> {
            &&& s[a] == '@'
            &&& forall|j: int| a <= j <= b ==> !is_white_space(#[trigger] s[j])
            &&& b + 1 < s.len() ==> is_white_space(s[b + 1])
        }
        &&& k == SegmentKind::Text ==> {
            &&& forall|j: int| a <= j <= b ==> #[trigger] s[j] != '@' && s[j] != '#'
            &&& b + 1 < s.len() ==> (s[b + 1] == '@' || s[b + 1] == '#')
        }
    } by {
        let (a, b, k) = cs[i];
        assert(classified(s, cs[i]));
        if k != SegmentKind::Text {
            assert forall|j: int| a <= j <= b implies !is_white_space(#[trigger] s[j]) by {
                assert(continues(Continue::NonWhitespace, s[j]));
            }
        } else {
            assert forall|j: int| a <= j <= b implies #[trigger] s[j] != '@' && s[j] != '#' by {
                assert(continues(Continue::PlainText, s[j]));
            }
        }
    }
}

} // verus!
