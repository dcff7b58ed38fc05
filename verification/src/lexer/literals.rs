//! The text that a string or regex literal stands for.
use vstd::prelude::*;
use vstd::string::*;
use vstd::utf8::*;
use super::text::{char_at, lemma_char_step, next_char, width_at};

verus! {

/// What a backslash and the character `c` behind it stand for in a string
/// literal. An escape that is not known stands for itself, backslash
/// included.
pub open spec fn escape_code(c: char) -> Seq<char> {
    if c == 'a' {
        seq!['\u{07}']
    } else if c == 'b' {
        seq!['\u{08}']
    } else if c == 'f' {
        seq!['\u{0c}']
    } else if c == 'v' {
        seq!['\u{0b}']
    } else if c == '\\' {
        seq!['\\']
    } else if c == 'n' {
        seq!['\n']
    } else if c == 'r' {
        seq!['\r']
    } else if c == 't' {
        seq!['\t']
    } else if c == '"' {
        seq!['"']
    } else {
        seq!['\\', c]
    }
}

/// The text of the string literal `s`; `escaped` tells whether a backslash
/// stands just before `s`. A backslash at the very end is dropped.
pub open spec fn unescape_string(s: Seq<char>, escaped: bool) -> Seq<char>
    decreases s.len(),
{
    if s.len() == 0 {
        Seq::empty()
    } else if escaped {
        escape_code(s[0]) + unescape_string(s.drop_first(), false)
    } else if s[0] == '\\' {
        unescape_string(s.drop_first(), true)
    } else {
        seq![s[0]] + unescape_string(s.drop_first(), false)
    }
}

/// The pattern of the regex literal `s`, which ends at the first slash
/// that no backslash escapes. Only `\/` is unescaped; every other
/// backslash stays.
pub open spec fn unescape_regex(s: Seq<char>, escaped: bool) -> Seq<char>
    decreases s.len(),
{
    if s.len() == 0 {
        Seq::empty()
    } else if escaped {
        if s[0] == '/' {
            seq!['/'] + unescape_regex(s.drop_first(), false)
        } else {
            seq!['\\', s[0]] + unescape_regex(s.drop_first(), false)
        }
    } else if s[0] == '\\' {
        unescape_regex(s.drop_first(), true)
    } else if s[0] == '/' {
        Seq::empty()
    } else {
        seq![s[0]] + unescape_regex(s.drop_first(), false)
    }
}

/// Encoding goes through concatenation.
pub proof fn lemma_encode_concat(a: Seq<char>, b: Seq<char>)
    ensures
        encode_utf8(a + b) == encode_utf8(a) + encode_utf8(b),
    decreases a.len(),
{
    if a.len() == 0 {
        assert(a + b =~= b);
        assert(encode_utf8(a) + encode_utf8(b) =~= encode_utf8(b));
    } else {
        lemma_encode_concat(a.drop_first(), b);
        assert((a + b).drop_first() =~= a.drop_first() + b);
        assert((a + b)[0] == a[0]);
        assert(encode_utf8(a + b) =~= encode_utf8(a) + encode_utf8(b));
    }
}

/// The characters from a boundary on: the one that starts there, then the
/// characters behind it.
pub proof fn lemma_decode_step(b: Seq<u8>, i: int)
    requires
        valid_utf8(b),
        is_char_boundary(b, i),
        0 <= i < b.len(),
    ensures
        decode_utf8(b.subrange(i, b.len() as int)) == seq![char_at(b, i)] + decode_utf8(
            b.subrange(i + width_at(b, i), b.len() as int),
        ),
{
    let n = b.len() as int;
    let r = b.subrange(i, n);
    lemma_char_step(b, i);
    valid_utf8_split(b, i);
    assert(pop_first_scalar(r) =~= b.subrange(i + width_at(b, i), n));
}

/// `String::from_utf8` turns bytes that are valid UTF-8 into the string
/// that they encode, and refuses all others.
#[verifier::external_body]
pub(crate) fn string_from_utf8(bytes: Vec<u8>) -> (r: Option<String>)
    ensures
        r is Some <==> valid_utf8(bytes@),
        r matches Some(s) ==> s@ == decode_utf8(bytes@),
{
    String::from_utf8(bytes).ok()
}

/// Appends the UTF-8 encoding of `c` to `buf`.
pub fn push_char(buf: &mut Vec<u8>, c: char)
    ensures
        final(buf)@ == old(buf)@ + encode_scalar(c as u32),
{
    broadcast use char_is_scalar;

    let u = c as u32;
    assert(is_scalar(u));
    if u <= 0x7f {
        assert(u & 0x7f <= 0x7f) by (bit_vector);
        buf.push((u & 0x7f) as u8);
    } else if u <= 0x7ff {
        assert((u >> 6) & 0x1f <= 0x1f) by (bit_vector);
        assert(u & 0x3f <= 0x3f) by (bit_vector);
        buf.push(0xc0 | ((u >> 6) & 0x1f) as u8);
        buf.push(0x80 | (u & 0x3f) as u8);
    } else if u <= 0xffff {
        assert((u >> 12) & 0x0f <= 0x0f) by (bit_vector);
        assert((u >> 6) & 0x3f <= 0x3f) by (bit_vector);
        assert(u & 0x3f <= 0x3f) by (bit_vector);
        buf.push(0xe0 | ((u >> 12) & 0x0f) as u8);
        buf.push(0x80 | ((u >> 6) & 0x3f) as u8);
        buf.push(0x80 | (u & 0x3f) as u8);
    } else {
        assert((u >> 18) & 0x7 <= 0x7) by (bit_vector);
        assert((u >> 12) & 0x3f <= 0x3f) by (bit_vector);
        assert((u >> 6) & 0x3f <= 0x3f) by (bit_vector);
        assert(u & 0x3f <= 0x3f) by (bit_vector);
        buf.push(0xf0 | ((u >> 18) & 0x7) as u8);
        buf.push(0x80 | ((u >> 12) & 0x3f) as u8);
        buf.push(0x80 | ((u >> 6) & 0x3f) as u8);
        buf.push(0x80 | (u & 0x3f) as u8);
    }
    assert(buf@ =~= old(buf)@ + encode_scalar(u));
}

/// Appends `c` to `buf`, whose bytes encode `out`.
fn emit(buf: &mut Vec<u8>, c: char, Ghost(out): Ghost<Seq<char>>)
    requires
        old(buf)@ == encode_utf8(out),
    ensures
        final(buf)@ == encode_utf8(out.push(c)),
{
    push_char(buf, c);
    proof {
        lemma_encode_concat(out, seq![c]);
        assert(out.push(c) =~= out + seq![c]);
        assert(encode_utf8(seq![c]) =~= encode_scalar(c as u32)) by {
            assert(seq![c].drop_first() =~= Seq::<char>::empty());
            assert(encode_utf8(seq![c]) == encode_scalar(c as u32) + encode_utf8(
                seq![c].drop_first(),
            ));
        }
    }
}

/// The text of the string literal `lit`, which is what stands between the
/// quotes. It is built in `buf`, which holds its UTF-8 bytes afterwards.
pub fn parse_string_literal(lit: &str, buf: &mut Vec<u8>) -> (r: String)
    ensures
        r@ == unescape_string(lit@, false),
        final(buf)@ == encode_utf8(unescape_string(lit@, false)),
{
    broadcast use {encode_utf8_valid_utf8, encode_utf8_decode_utf8};

    buf.clear();
    let ghost b = lit.spec_bytes();
    let ghost mut out: Seq<char> = Seq::empty();
    let n = lit.as_bytes().len();
    let mut i: usize = 0;
    let mut is_escape = false;
    proof {
        is_char_boundary_start_end_of_seq(b);
        assert(b.subrange(0, b.len() as int) =~= b);
        assert(unescape_string(lit@, false) =~= out + unescape_string(lit@, false));
    }
    while i < n
        invariant
            b == lit.spec_bytes(),
            valid_utf8(b),
            n == b.len(),
            i <= n,
            is_char_boundary(b, i as int),
            buf@ == encode_utf8(out),
            unescape_string(lit@, false) == out + unescape_string(
                decode_utf8(b.subrange(i as int, n as int)),
                is_escape,
            ),
        decreases n - i,
    {
        let ghost rest = decode_utf8(b.subrange(i as int, n as int));
        let (c, next) = next_char(lit, i);
        proof {
            lemma_decode_step(b, i as int);
            assert(rest[0] == c);
            assert(rest.drop_first() =~= decode_utf8(b.subrange(next as int, n as int)));
        }
        let ghost before = out;
        if is_escape {
            if c == 'a' {
                emit(buf, '\u{07}', Ghost(out));
                proof { out = out.push('\u{07}'); }
            } else if c == 'b' {
                emit(buf, '\u{08}', Ghost(out));
                proof { out = out.push('\u{08}'); }
            } else if c == 'f' {
                emit(buf, '\u{0c}', Ghost(out));
                proof { out = out.push('\u{0c}'); }
            } else if c == 'v' {
                emit(buf, '\u{0b}', Ghost(out));
                proof { out = out.push('\u{0b}'); }
            } else if c == '\\' || c == 'n' || c == 'r' || c == 't' || c == '"' {
                let d = if c == 'n' {
                    '\n'
                } else if c == 'r' {
                    '\r'
                } else if c == 't' {
                    '\t'
                } else {
                    c
                };
                emit(buf, d, Ghost(out));
                proof { out = out.push(d); }
            } else {
                emit(buf, '\\', Ghost(out));
                proof { out = out.push('\\'); }
                emit(buf, c, Ghost(out));
                proof { out = out.push(c); }
            }
            is_escape = false;
            proof {
                assert(out =~= before + escape_code(c));
            }
        } else if c == '\\' {
            is_escape = true;
        } else {
            emit(buf, c, Ghost(out));
            proof {
                out = out.push(c);
                assert(out =~= before + seq![c]);
            }
        }
        proof {
            let tail = unescape_string(rest.drop_first(), is_escape);
            assert(unescape_string(lit@, false) =~= out + tail);
        }
        i = next;
    }
    proof {
        assert(unescape_string(lit@, false) =~= out);
    }
    match string_from_utf8(buf.clone()) {
        Some(s) => s,
        None => vstd::pervasive::unreached(),
    }
}

/// The pattern of the regex literal `lit`, up to the first slash that is
/// not escaped. It is built in `buf`, which holds its UTF-8 bytes
/// afterwards.
pub fn parse_regex_literal(lit: &str, buf: &mut Vec<u8>) -> (r: String)
    ensures
        r@ == unescape_regex(lit@, false),
        final(buf)@ == encode_utf8(unescape_regex(lit@, false)),
{
    broadcast use {encode_utf8_valid_utf8, encode_utf8_decode_utf8};

    buf.clear();
    let ghost b = lit.spec_bytes();
    let ghost mut out: Seq<char> = Seq::empty();
    let n = lit.as_bytes().len();
    let mut i: usize = 0;
    let mut is_escape = false;
    proof {
        is_char_boundary_start_end_of_seq(b);
        assert(b.subrange(0, b.len() as int) =~= b);
        assert(unescape_regex(lit@, false) =~= out + unescape_regex(lit@, false));
    }
    while i < n
        invariant
            b == lit.spec_bytes(),
            valid_utf8(b),
            n == b.len(),
            i <= n,
            is_char_boundary(b, i as int),
            buf@ == encode_utf8(out),
            unescape_regex(lit@, false) == out + unescape_regex(
                decode_utf8(b.subrange(i as int, n as int)),
                is_escape,
            ),
        ensures
            buf@ == encode_utf8(out),
            unescape_regex(lit@, false) == out,
        decreases n - i,
    {
        let ghost rest = decode_utf8(b.subrange(i as int, n as int));
        let (c, next) = next_char(lit, i);
        proof {
            lemma_decode_step(b, i as int);
            assert(rest[0] == c);
            assert(rest.drop_first() =~= decode_utf8(b.subrange(next as int, n as int)));
        }
        let ghost before = out;
        if is_escape {
            if c == '/' {
                emit(buf, '/', Ghost(out));
                proof {
                    out = out.push('/');
                    assert(out =~= before + seq!['/']);
                }
            } else {
                emit(buf, '\\', Ghost(out));
                proof { out = out.push('\\'); }
                emit(buf, c, Ghost(out));
                proof {
                    out = out.push(c);
                    assert(out =~= before + seq!['\\', c]);
                }
            }
            is_escape = false;
        } else if c == '\\' {
            is_escape = true;
        } else if c == '/' {
            proof {
                assert(unescape_regex(lit@, false) =~= out);
            }
            break ;
        } else {
            emit(buf, c, Ghost(out));
            proof {
                out = out.push(c);
                assert(out =~= before + seq![c]);
            }
        }
        proof {
            let tail = unescape_regex(rest.drop_first(), is_escape);
            assert(unescape_regex(lit@, false) =~= out + tail);
        }
        i = next;
    }
    match string_from_utf8(buf.clone()) {
        Some(s) => s,
        None => vstd::pervasive::unreached(),
    }
}

} // verus!
