//! Byte-offset text handling on UTF-8 strings.
//!
//! Strings are viewed through their UTF-8 bytes (`spec_bytes`), the way Rust's
//! `str` offsets work. The lemmas here relate character boundaries, decoding
//! and slicing so that the parsers can move a byte cursor over a `&str`.
use vstd::prelude::*;
use vstd::utf8::*;
use vstd::string::*;

verus! {

broadcast use vstd::seq::group_seq_axioms, encode_utf8_valid_utf8, encode_utf8_decode_utf8;

/// Number of bytes of the UTF-8 encoding of `c`.
pub open spec fn width(c: char) -> nat {
    encode_scalar(c as u32).len()
}

/// The bytes of `b` from `p` to the end.
pub open spec fn tail(b: Seq<u8>, p: int) -> Seq<u8> {
    b.subrange(p, b.len() as int)
}

/// `p` is a byte position of `b` that starts a character (or is the end).
pub open spec fn at_boundary(b: Seq<u8>, p: int) -> bool {
    &&& valid_utf8(b)
    &&& 0 <= p <= b.len()
    &&& is_char_boundary(b, p)
}

/// The characters of `b` from byte `p` on.
pub open spec fn chars_from(b: Seq<u8>, p: int) -> Seq<char> {
    decode_utf8(tail(b, p))
}

/// The characters of `b` between the byte positions `p` and `q`.
pub open spec fn chars_between(b: Seq<u8>, p: int, q: int) -> Seq<char> {
    decode_utf8(b.subrange(p, q))
}

/// Whether `needle` occurs in `hay` at byte position `i`.
pub open spec fn occurs_at(hay: Seq<u8>, needle: Seq<u8>, i: int) -> bool {
    0 <= i && i + needle.len() <= hay.len() && hay.subrange(i, i + needle.len()) == needle
}

/// The byte position of the first occurrence of `needle` in `hay`, as `str::find` gives it.
pub open spec fn first_occurrence(hay: Seq<u8>, needle: Seq<u8>) -> Option<int> {
    if exists|i: int| occurs_at(hay, needle, i) {
        Some(choose|i: int| occurs_at(hay, needle, i) && forall|j: int| 0 <= j < i ==> !occurs_at(hay, needle, j))
    } else {
        None
    }
}

proof fn lemma_take_first_scalar_valid(b: Seq<u8>)
    requires
        valid_utf8(b),
        b.len() > 0,
    ensures
        valid_utf8(take_first_scalar(b)),
{
    reveal_with_fuel(valid_utf8, 2);
    let t = take_first_scalar(b);
    assert(t.subrange(0, length_of_first_scalar(t)) =~= t);
    assert(pop_first_scalar(t).len() == 0);
}

/// A position whose prefix is valid UTF-8 is a character boundary.
pub proof fn lemma_valid_prefix_boundary(b: Seq<u8>, i: int)
    requires
        valid_utf8(b),
        0 <= i <= b.len(),
        valid_utf8(b.subrange(0, i)),
    ensures
        is_char_boundary(b, i),
    decreases b.len(),
{
    if i == 0 {
    } else {
        let x = b.subrange(0, i);
        let k = length_of_first_scalar(x);
        assert(x[0] == b[0]);
        assert(valid_first_scalar(x));
        assert(length_of_first_scalar(b) == k);
        assert(k <= i);
        assert(forall|j: int| 0 <= j < k ==> x[j] == b[j]);
        assert(valid_first_scalar(b));
        let pb = pop_first_scalar(b);
        let px = pop_first_scalar(x);
        assert(px =~= pb.subrange(0, i - k));
        lemma_valid_prefix_boundary(pb, i - k);
    }
}

/// Facts about two boundaries `p <= q` of valid UTF-8 bytes.
pub proof fn lemma_between(b: Seq<u8>, p: int, q: int)
    requires
        at_boundary(b, p),
        at_boundary(b, q),
        p <= q,
    ensures
        valid_utf8(b.subrange(p, q)),
        valid_utf8(tail(b, p)),
        valid_utf8(b.subrange(0, p)),
        is_char_boundary(tail(b, p), q - p),
        chars_from(b, p) == chars_between(b, p, q) + chars_from(b, q),
        decode_utf8(b) == chars_between(b, 0, p) + chars_from(b, p),
{
    valid_utf8_split(b, p);
    valid_utf8_split(b, q);
    let bq = b.subrange(0, q);
    assert(bq.subrange(0, p) =~= b.subrange(0, p));
    lemma_valid_prefix_boundary(bq, p);
    valid_utf8_split(bq, p);
    assert(bq.subrange(p, bq.len() as int) =~= b.subrange(p, q));
    let t = tail(b, p);
    assert(t.subrange(0, q - p) =~= b.subrange(p, q));
    valid_utf8_split(b, p);
    lemma_valid_prefix_boundary(t, q - p);
    decode_utf8_split(t, q - p);
    assert(t.subrange(q - p, t.len() as int) =~= tail(b, q));
    decode_utf8_split(b, p);
}

/// Stepping over the first character after a boundary lands on a boundary.
pub proof fn lemma_step(b: Seq<u8>, p: int)
    requires
        at_boundary(b, p),
        p < b.len(),
    ensures
        chars_from(b, p).len() > 0,
        width(chars_from(b, p)[0]) == length_of_first_scalar(tail(b, p)),
        1 <= width(chars_from(b, p)[0]) <= 4,
        p + width(chars_from(b, p)[0]) <= b.len(),
        at_boundary(b, p + width(chars_from(b, p)[0])),
        chars_between(b, p, p + width(chars_from(b, p)[0])) == seq![chars_from(b, p)[0]],
        chars_from(b, p + width(chars_from(b, p)[0])) == chars_from(b, p).drop_first(),
{
    valid_utf8_split(b, p);
    let t = tail(b, p);
    decode_utf8_first_scalar(t);
    let k = length_of_first_scalar(t);
    let c = chars_from(b, p)[0];
    assert(c == decode_first_scalar(t) as char);
    assert(encode_scalar(c as u32) == take_first_scalar(t));
    lemma_take_first_scalar_valid(t);
    let pre = b.subrange(0, p);
    let first = take_first_scalar(t);
    valid_utf8_concat(pre, first);
    assert(b.subrange(0, p + k) =~= pre + first);
    lemma_valid_prefix_boundary(b, p + k);
    assert(chars_from(b, p + k) == decode_utf8(pop_first_scalar(t))) by {
        assert(tail(b, p + k) =~= pop_first_scalar(t));
    }
    lemma_between(b, p, p + k);
    assert(b.subrange(p, p + k) =~= first);
    assert(decode_utf8(first) == seq![c]) by {
        assert(encode_utf8(seq![c]) =~= encode_scalar(c as u32) + encode_utf8(seq![c].drop_first()));
        assert(encode_utf8(seq![c].drop_first()) =~= Seq::<u8>::empty());
        assert(encode_utf8(seq![c]) =~= first);
    }
}

/// A match of a non-empty valid needle in valid bytes starts and ends on character boundaries.
pub proof fn lemma_occurrence_boundaries(hay: Seq<u8>, needle: Seq<u8>, i: int)
    requires
        valid_utf8(hay),
        valid_utf8(needle),
        needle.len() > 0,
        occurs_at(hay, needle, i),
    ensures
        at_boundary(hay, i),
        at_boundary(hay, i + needle.len()),
{
    assert(hay[i] == needle[0]);
    is_char_boundary_iff_not_is_continuation_byte(hay, i);
    assert(!is_continuation_byte(needle[0]));
    valid_utf8_split(hay, i);
    valid_utf8_concat(hay.subrange(0, i), needle);
    assert(hay.subrange(0, i + needle.len()) =~= hay.subrange(0, i) + needle);
    lemma_valid_prefix_boundary(hay, i + needle.len());
}

/// Shifting a boundary of a tail back to the whole sequence.
pub proof fn lemma_tail_boundary(b: Seq<u8>, p: int, j: int)
    requires
        at_boundary(b, p),
        0 <= j <= b.len() - p,
        is_char_boundary(tail(b, p), j),
    ensures
        at_boundary(b, p + j),
{
    valid_utf8_split(b, p);
    let t = tail(b, p);
    valid_utf8_split(t, j);
    assert(t.subrange(0, j) =~= b.subrange(p, p + j));
    valid_utf8_concat(b.subrange(0, p), b.subrange(p, p + j));
    assert(b.subrange(0, p + j) =~= b.subrange(0, p) + b.subrange(p, p + j));
    lemma_valid_prefix_boundary(b, p + j);
}

/// The characters between two boundaries, read as bytes, are those bytes.
pub proof fn lemma_between_bytes(b: Seq<u8>, p: int, q: int)
    requires
        at_boundary(b, p),
        at_boundary(b, q),
        p <= q,
    ensures
        encode_utf8(chars_between(b, p, q)) == b.subrange(p, q),
{
    lemma_between(b, p, q);
    decode_utf8_encode_utf8(b.subrange(p, q));
}

/// Non-empty text has non-empty bytes.
pub proof fn lemma_encode_nonempty(cs: Seq<char>)
    requires
        cs.len() > 0,
    ensures
        encode_utf8(cs).len() > 0,
{
    assert(encode_utf8(cs) =~= encode_scalar(cs[0] as u32) + encode_utf8(cs.drop_first()));
}

/// Text of ASCII characters is encoded one byte per character, each its code.
pub proof fn lemma_ascii_encoding(cs: Seq<char>)
    requires
        forall|i: int| 0 <= i < cs.len() ==> (#[trigger] cs[i] as u32) < 0x80,
    ensures
        encode_utf8(cs).len() == cs.len(),
        forall|i: int| 0 <= i < cs.len() ==> #[trigger] encode_utf8(cs)[i] == (cs[i] as u32) as u8,
    decreases cs.len(),
{
    if cs.len() > 0 {
        let v = cs[0] as u32;
        assert((v & 0x7F) == v) by (bit_vector)
            requires
                v < 0x80,
        ;
        let rest = cs.drop_first();
        assert forall|i: int| 0 <= i < rest.len() implies (#[trigger] rest[i] as u32) < 0x80 by {
            assert(rest[i] == cs[i + 1]);
        }
        lemma_ascii_encoding(rest);
        assert(encode_utf8(cs) =~= seq![v as u8] + encode_utf8(rest));
        assert forall|i: int| 0 <= i < cs.len() implies #[trigger] encode_utf8(cs)[i] == (cs[i] as u32) as u8 by {
            if i > 0 {
                assert(cs[i] == rest[i - 1]);
            }
        }
    }
}

/// The encoding of one character holds an ASCII byte exactly when the
/// character is that byte's character: the bytes of a longer encoding all
/// have the high bit set.
proof fn lemma_scalar_ascii_byte(v: u32, b: u8)
    requires
        b < 0x80,
        is_scalar(v),
    ensures
        encode_scalar(v).contains(b) == (v == b as u32),
{
    let e = encode_scalar(v);
    if has_width_1_encoding(v) {
        assert(((v & 0x7F) as u8 == b) == (v == b as u32)) by (bit_vector)
            requires
                v <= 0x7F,
                b < 0x80,
        ;
        assert(e.len() == 1 && e[0] == (v & 0x7F) as u8);
        if e.contains(b) {
            let i = choose|i: int| 0 <= i < e.len() && e[i] == b;
        } else {
            assert(e[0] != b);
        }
    } else {
        assert(forall|x: u8| #![auto] (0x80u8 | x) >= 0x80u8) by (bit_vector);
        assert(forall|x: u8| #![auto] (0xC0u8 | x) >= 0x80u8) by (bit_vector);
        assert(forall|x: u8| #![auto] (0xE0u8 | x) >= 0x80u8) by (bit_vector);
        assert(forall|x: u8| #![auto] (0xF0u8 | x) >= 0x80u8) by (bit_vector);
        assert forall|i: int| 0 <= i < e.len() implies #[trigger] e[i] >= 0x80u8 by {}
        if e.contains(b) {
            let i = choose|i: int| 0 <= i < e.len() && e[i] == b;
            assert(e[i] >= 0x80u8);
        }
    }
}

/// The encoding of text holds an ASCII byte exactly when the text holds that
/// byte's character.
pub proof fn lemma_encode_ascii_byte(cs: Seq<char>, b: u8)
    requires
        b < 0x80,
    ensures
        encode_utf8(cs).contains(b) == (exists|j: int| 0 <= j < cs.len() && #[trigger] cs[j] as u32 == b as u32),
    decreases cs.len(),
{
    if cs.len() == 0 {
        assert(encode_utf8(cs) =~= Seq::<u8>::empty());
        if encode_utf8(cs).contains(b) {
            let i = choose|i: int| 0 <= i < encode_utf8(cs).len() && encode_utf8(cs)[i] == b;
        }
    } else {
        let v = cs[0] as u32;
        let rest = cs.drop_first();
        let sc = encode_scalar(v);
        let t = encode_utf8(rest);
        assert(encode_utf8(cs) =~= sc + t);
        assert(is_scalar(v)) by {
            vstd::utf8::char_is_scalar(cs[0]);
        }
        lemma_scalar_ascii_byte(v, b);
        lemma_encode_ascii_byte(rest, b);
        let e = sc + t;
        if e.contains(b) {
            let i = choose|i: int| 0 <= i < e.len() && e[i] == b;
            if i < sc.len() {
                assert(sc[i] == b);
                assert(cs[0] as u32 == b as u32);
            } else {
                assert(t[i - sc.len()] == b);
                let j = choose|j: int| 0 <= j < rest.len() && #[trigger] rest[j] as u32 == b as u32;
                assert(cs[j + 1] == rest[j]);
            }
        }
        if exists|j: int| 0 <= j < cs.len() && #[trigger] cs[j] as u32 == b as u32 {
            let j = choose|j: int| 0 <= j < cs.len() && #[trigger] cs[j] as u32 == b as u32;
            if j == 0 {
                let i = choose|i: int| 0 <= i < sc.len() && sc[i] == b;
                assert(e[i] == b);
            } else {
                assert(rest[j - 1] == cs[j]);
                let i = choose|i: int| 0 <= i < t.len() && t[i] == b;
                assert(e[i + sc.len()] == b);
            }
        }
    }
}

/// Encoding distributes over concatenation.
pub proof fn lemma_encode_concat(a: Seq<char>, b: Seq<char>)
    ensures
        encode_utf8(a + b) == encode_utf8(a) + encode_utf8(b),
    decreases a.len(),
{
    if a.len() == 0 {
        assert(a + b =~= b);
        assert(encode_utf8(a) =~= Seq::<u8>::empty());
        assert(encode_utf8(a) + encode_utf8(b) =~= encode_utf8(b));
    } else {
        assert((a + b)[0] == a[0]);
        assert((a + b).drop_first() =~= a.drop_first() + b);
        lemma_encode_concat(a.drop_first(), b);
        assert(encode_utf8(a + b) =~= encode_scalar(a[0] as u32) + encode_utf8(a.drop_first() + b));
        assert(encode_utf8(a) =~= encode_scalar(a[0] as u32) + encode_utf8(a.drop_first()));
        assert(encode_utf8(a + b) =~= encode_utf8(a) + encode_utf8(b));
    }
}

/// The byte length of the UTF-8 encoding of `c` (`char::len_utf8`).
pub fn char_width(c: char) -> (w: usize)
    ensures
        w == width(c),
        1 <= w <= 4,
{
    proof {
        char_is_scalar(c);
    }
    let u = c as u32;
    if u < 0x80 {
        1
    } else if u < 0x800 {
        2
    } else if u < 0x10000 {
        3
    } else {
        4
    }
}

/// Whether the byte `x` occurs in `b`.
pub fn bytes_contain(b: &[u8], x: u8) -> (r: bool)
    ensures
        r == b@.contains(x),
{
    let mut i: usize = 0;
    while i < b.len()
        invariant
            i <= b.len(),
            forall|j: int| 0 <= j < i ==> b@[j] != x,
        decreases b.len() - i,
    {
        if b[i] == x {
            return true;
        }
        i += 1;
    }
    false
}

/// Whether two strings hold the same text (`==` on `str`).
pub fn str_eq(a: &str, b: &str) -> (r: bool)
    ensures
        r == (a@ == b@),
{
    let x = a.as_bytes();
    let y = b.as_bytes();
    if x.len() != y.len() {
        proof {
            if a@ == b@ {
                assert(a.spec_bytes() == b.spec_bytes());
            }
        }
        return false;
    }
    let m = bytes_match_at(x, y, 0);
    proof {
        if m {
            assert(x@ =~= x@.subrange(0, y@.len() as int));
            assert(decode_utf8(encode_utf8(a@)) == decode_utf8(encode_utf8(b@)));
        } else if a@ == b@ {
            assert(x@.subrange(0, y@.len() as int) =~= y@);
        }
    }
    m
}

/// The part of `s` between the byte positions `from` and `to`.
pub fn substr<'a>(s: &'a str, from: usize, to: usize) -> (r: &'a str)
    requires
        from <= to,
        at_boundary(s.spec_bytes(), from as int),
        at_boundary(s.spec_bytes(), to as int),
    ensures
        r.spec_bytes() == s.spec_bytes().subrange(from as int, to as int),
        r@ == chars_between(s.spec_bytes(), from as int, to as int),
{
    proof {
        lemma_between(s.spec_bytes(), from as int, to as int);
    }
    let (_, rest) = s.split_at(from);
    assert(rest.spec_bytes() =~= tail(s.spec_bytes(), from as int));
    let (mid, _) = rest.split_at(to - from);
    assert(mid.spec_bytes() =~= s.spec_bytes().subrange(from as int, to as int));
    mid
}

/// The part of `s` from the byte position `from` to the end.
pub fn suffix<'a>(s: &'a str, from: usize) -> (r: &'a str)
    requires
        at_boundary(s.spec_bytes(), from as int),
    ensures
        r.spec_bytes() == tail(s.spec_bytes(), from as int),
        r@ == chars_from(s.spec_bytes(), from as int),
{
    let (_, rest) = s.split_at(from);
    assert(rest.spec_bytes() =~= tail(s.spec_bytes(), from as int));
    rest
}

/// The first character of `s`, if any.
pub fn first_char(s: &str) -> (r: Option<char>)
    ensures
        r == (if s@.len() > 0 { Some(s@[0]) } else { None::<char> }),
{
    broadcast use vstd::string::group_string_axioms;
    let mut it = s.chars();
    it.next()
}

/// Whether `needle` occurs in `hay` at byte position `i`.
pub fn bytes_match_at(hay: &[u8], needle: &[u8], i: usize) -> (r: bool)
    ensures
        r == occurs_at(hay@, needle@, i as int),
{
    if i > hay.len() || needle.len() > hay.len() - i {
        return false;
    }
    let mut j: usize = 0;
    while j < needle.len()
        invariant
            i + needle.len() <= hay.len(),
            j <= needle.len(),
            forall|k: int| 0 <= k < j ==> hay@[i + k] == needle@[k],
        decreases needle.len() - j,
    {
        if hay[i + j] != needle[j] {
            assert(hay@.subrange(i as int, i + needle.len())[j as int] != needle@[j as int]);
            return false;
        }
        j += 1;
    }
    assert(hay@.subrange(i as int, i + needle.len()) =~= needle@);
    true
}

pub proof fn lemma_first_occurrence_is(h: Seq<u8>, n: Seq<u8>, i: int)
    requires
        occurs_at(h, n, i),
        forall|j: int| 0 <= j < i ==> !occurs_at(h, n, j),
    ensures
        first_occurrence(h, n) == Some(i),
{
    let w = choose|w: int| occurs_at(h, n, w) && forall|j: int| 0 <= j < w ==> !occurs_at(h, n, j);
    assert(occurs_at(h, n, w) && forall|j: int| 0 <= j < w ==> !occurs_at(h, n, j));
    if w < i {
    } else if w > i {
        assert(!occurs_at(h, n, i));
    }
}

/// The byte position of the first occurrence of `needle` in `hay` (`str::find` with a string pattern).
pub fn find_str(hay: &str, needle: &str) -> (r: Option<usize>)
    ensures
        match first_occurrence(hay.spec_bytes(), needle.spec_bytes()) {
            Some(i) => r == Some(i as usize),
            None => r is None,
        },
        r matches Some(i) ==> occurs_at(hay.spec_bytes(), needle.spec_bytes(), i as int)
            && forall|j: int| 0 <= j < i ==> !occurs_at(hay.spec_bytes(), needle.spec_bytes(), j),
{
    let h = hay.as_bytes();
    let n = needle.as_bytes();
    let mut i: usize = 0;
    while i < h.len()
        invariant
            h@ == hay.spec_bytes(),
            n@ == needle.spec_bytes(),
            i <= h.len(),
            forall|j: int| 0 <= j < i ==> !occurs_at(h@, n@, j),
        decreases h.len() - i,
    {
        if bytes_match_at(h, n, i) {
            proof {
                lemma_first_occurrence_is(h@, n@, i as int);
            }
            return Some(i);
        }
        i += 1;
    }
    if bytes_match_at(h, n, i) {
        proof {
            lemma_first_occurrence_is(h@, n@, i as int);
        }
        return Some(i);
    }
    proof {
        assert forall|j: int| !occurs_at(h@, n@, j) by {
            if 0 <= j && j < i {
            }
        }
    }
    None
}

/// Whether `s` begins with `prefix` (`str::starts_with` with a string pattern).
pub fn str_starts_with(s: &str, prefix: &str) -> (r: bool)
    ensures
        r == (prefix@.len() <= s@.len() && s@.subrange(0, prefix@.len() as int) == prefix@),
{
    let h = s.as_bytes();
    let n = prefix.as_bytes();
    let m = bytes_match_at(h, n, 0);
    proof {
        let sb = s.spec_bytes();
        let pb = prefix.spec_bytes();
        if m {
            assert(sb.subrange(0, pb.len() as int) == pb);
            lemma_valid_prefix_boundary(sb, pb.len() as int);
            decode_utf8_split(sb, pb.len() as int);
            assert(s@ == prefix@ + decode_utf8(sb.subrange(pb.len() as int, sb.len() as int)));
            assert(s@.subrange(0, prefix@.len() as int) =~= prefix@);
        } else if prefix@.len() <= s@.len() && s@.subrange(0, prefix@.len() as int) == prefix@ {
            let rest = s@.subrange(prefix@.len() as int, s@.len() as int);
            assert(s@ =~= prefix@ + rest);
            lemma_encode_concat(prefix@, rest);
            assert(sb.subrange(0, pb.len() as int) =~= pb);
        }
    }
    m
}

} // verus!
