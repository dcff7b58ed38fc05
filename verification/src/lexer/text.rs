//! Walking a `str` by byte offset, one character at a time.
use vstd::prelude::*;
use vstd::string::*;
use vstd::utf8::*;

verus! {

/// The character whose encoding starts at byte `i` of `b`.
pub open spec fn char_at(b: Seq<u8>, i: int) -> char {
    decode_first_scalar(b.subrange(i, b.len() as int)) as char
}

/// The number of bytes that the character starting at byte `i` of `b` takes.
pub open spec fn width_at(b: Seq<u8>, i: int) -> int {
    if b[i] < 0x80 {
        1
    } else if b[i] < 0xe0 {
        2
    } else if b[i] < 0xf0 {
        3
    } else {
        4
    }
}

/// A character that starts on a boundary ends on one, inside the text.
pub proof fn lemma_char_step(b: Seq<u8>, i: int)
    requires
        valid_utf8(b),
        is_char_boundary(b, i),
        0 <= i < b.len(),
    ensures
        width_at(b, i) == length_of_first_scalar(b.subrange(i, b.len() as int)),
        i + width_at(b, i) <= b.len(),
        is_char_boundary(b, i + width_at(b, i)),
        b[i] < 0x80 ==> char_at(b, i) as u32 == b[i] as u32,
{
    let n = b.len() as int;
    let s = b.subrange(i, n);
    valid_utf8_split(b, i);
    assert(valid_utf8(s));
    assert(valid_first_scalar(s));
    assert(s[0] == b[i]);
    let w = length_of_first_scalar(s);
    assert(w == width_at(b, i));
    assert(w <= s.len());
    if i + w < n {
        let t = pop_first_scalar(s);
        assert(valid_utf8(t));
        assert(t.len() > 0);
        assert(valid_first_scalar(t));
        assert(t[0] == b[i + w]);
        is_char_boundary_iff_not_is_continuation_byte(b, i + w);
    } else {
        is_char_boundary_start_end_of_seq(b);
    }
    if b[i] < 0x80 {
        let x = b[i];
        assert(x & 0x7f == x) by (bit_vector)
            requires
                x < 0x80,
        ;
    }
}

/// On valid UTF-8, a position inside the text is a boundary exactly when its
/// byte is not a continuation byte.
pub proof fn lemma_boundary_by_byte(b: Seq<u8>, i: int)
    requires
        valid_utf8(b),
        0 <= i <= b.len(),
    ensures
        is_char_boundary(b, i) <==> (i == b.len() || !(0x80 <= b[i] <= 0xbf)),
{
    if i == b.len() {
        is_char_boundary_start_end_of_seq(b);
    } else {
        is_char_boundary_iff_not_is_continuation_byte(b, i);
    }
}

/// The character that starts at byte `i`, and the offset just behind it.
pub fn next_char(text: &str, i: usize) -> (r: (char, usize))
    requires
        i < text.spec_bytes().len(),
        is_char_boundary(text.spec_bytes(), i as int),
    ensures
        r.0 == char_at(text.spec_bytes(), i as int),
        r.1 == i + width_at(text.spec_bytes(), i as int),
        r.1 <= text.spec_bytes().len(),
        is_char_boundary(text.spec_bytes(), r.1 as int),
{
    broadcast use {group_string_axioms, encode_utf8_valid_utf8, encode_utf8_decode_utf8};

    let ghost b = text.spec_bytes();
    proof {
        lemma_char_step(b, i as int);
    }
    let b0 = text.as_bytes()[i];
    let w: usize = if b0 < 0x80 {
        1
    } else if b0 < 0xe0 {
        2
    } else if b0 < 0xf0 {
        3
    } else {
        4
    };
    let (_, rest) = text.split_at(i);
    proof {
        assert(rest.spec_bytes() == b.subrange(i as int, b.len() as int));
        assert(rest.spec_bytes().len() > 0);
        assert(rest@.len() > 0) by {
            if rest@.len() == 0 {
                assert(encode_utf8(rest@).len() == 0);
            }
        }
        assert(decode_utf8(rest.spec_bytes()) == rest@);
        assert(rest@[0] == decode_first_scalar(rest.spec_bytes()) as char);
    }
    let mut it = rest.chars();
    match it.next() {
        Some(c) => (c, i + w),
        None => vstd::pervasive::unreached(),
    }
}

/// The part of `text` between two boundaries.
pub fn slice<'a>(text: &'a str, lo: usize, hi: usize) -> (r: &'a str)
    requires
        lo <= hi <= text.spec_bytes().len(),
        is_char_boundary(text.spec_bytes(), lo as int),
        is_char_boundary(text.spec_bytes(), hi as int),
    ensures
        r.spec_bytes() == text.spec_bytes().subrange(lo as int, hi as int),
{
    broadcast use encode_utf8_valid_utf8;

    let ghost b = text.spec_bytes();
    let (_, rest) = text.split_at(lo);
    proof {
        let s = rest.spec_bytes();
        assert(s == b.subrange(lo as int, b.len() as int));
        lemma_boundary_by_byte(b, hi as int);
        lemma_boundary_by_byte(s, hi - lo);
    }
    let (r, _) = rest.split_at(hi - lo);
    proof {
        assert(r.spec_bytes() =~= b.subrange(lo as int, hi as int));
    }
    r
}

} // verus!
