//! The token grammar, as functions on the UTF-8 bytes of a program.
use vstd::prelude::*;
use vstd::utf8::*;
use super::classes::{first_match, white_space, xid_continue, xid_start};
use super::text::{char_at, width_at};
use super::Tok;

verus! {

/// The number of spellings in the keyword table.
pub const KEYWORDS: usize = 62;

/// Hexadecimal literals.
pub const HEX_PATTERN: &'static str = "^[+-]?0[xX][0-9A-Fa-f]+";

/// Floating-point literals.
pub const FLOAT_PATTERN: &'static str = "^[-+]?\\d*\\.\\d+([eE][-+]?\\d+)?";

/// Decimal integer literals.
pub const INT_PATTERN: &'static str = "^[+-]?\\d+";

/// What is reported for a string literal without its closing quote.
pub const INCOMPLETE_STRING: &'static str = "incomplete string literal";

/// What is reported for a regex literal without its closing slash.
pub const INCOMPLETE_REGEX: &'static str = "incomplete regex literal";

/// The keyword table: each spelling with its token, longer spellings first,
/// so that the first spelling found at a position is the longest one.
pub open spec fn keyword_table(k: int) -> (Seq<char>, Tok<'static>) {
    if k == 0 {
        ("continue"@, Tok::Continue)
    } else if k == 1 {
        ("nextfile"@, Tok::NextFile)
    } else if k == 2 {
        ("function"@, Tok::Function)
    } else if k == 3 {
        ("PREPARE"@, Tok::Prepare)
    } else if k == 4 {
        ("printf("@, Tok::PrintfLP)
    } else if k == 5 {
        ("getline"@, Tok::Getline)
    } else if k == 6 {
        ("printf"@, Tok::Printf)
    } else if k == 7 {
        ("print("@, Tok::PrintLP)
    } else if k == 8 {
        ("delete"@, Tok::Delete)
    } else if k == 9 {
        ("return"@, Tok::Return)
    } else if k == 10 {
        ("BEGIN"@, Tok::Begin)
    } else if k == 11 {
        ("break"@, Tok::Break)
    } else if k == 12 {
        ("print"@, Tok::Print)
    } else if k == 13 {
        ("while"@, Tok::While)
    } else if k == 14 {
        ("next"@, Tok::Next)
    } else if k == 15 {
        ("else"@, Tok::Else)
    } else if k == 16 {
        ("END"@, Tok::End)
    } else if k == 17 {
        ("for"@, Tok::For)
    } else if k == 18 {
        ("in "@, Tok::In)
    } else if k == 19 {
        ("in\t"@, Tok::In)
    } else if k == 20 {
        ("if"@, Tok::If)
    } else if k == 21 {
        ("do"@, Tok::Do)
    } else if k == 22 {
        ("+="@, Tok::AddAssign)
    } else if k == 23 {
        ("-="@, Tok::SubAssign)
    } else if k == 24 {
        ("*="@, Tok::MulAssign)
    } else if k == 25 {
        ("/="@, Tok::DivAssign)
    } else if k == 26 {
        ("^="@, Tok::PowAssign)
    } else if k == 27 {
        ("%="@, Tok::ModAssign)
    } else if k == 28 {
        ("!~"@, Tok::NotMatch)
    } else if k == 29 {
        ("=="@, Tok::EQ)
    } else if k == 30 {
        ("!="@, Tok::NEQ)
    } else if k == 31 {
        ("<="@, Tok::LTE)
    } else if k == 32 {
        (">="@, Tok::GTE)
    } else if k == 33 {
        ("--"@, Tok::Decr)
    } else if k == 34 {
        ("++"@, Tok::Incr)
    } else if k == 35 {
        (">>"@, Tok::Append)
    } else if k == 36 {
        ("\r\n"@, Tok::Newline)
    } else if k == 37 {
        ("&&"@, Tok::AND)
    } else if k == 38 {
        ("||"@, Tok::OR)
    } else if k == 39 {
        ("{"@, Tok::LBrace)
    } else if k == 40 {
        ("}"@, Tok::RBrace)
    } else if k == 41 {
        ("["@, Tok::LBrack)
    } else if k == 42 {
        ("]"@, Tok::RBrack)
    } else if k == 43 {
        ("("@, Tok::LParen)
    } else if k == 44 {
        (")"@, Tok::RParen)
    } else if k == 45 {
        ("="@, Tok::Assign)
    } else if k == 46 {
        ("+"@, Tok::Add)
    } else if k == 47 {
        ("-"@, Tok::Sub)
    } else if k == 48 {
        ("*"@, Tok::Mul)
    } else if k == 49 {
        ("/"@, Tok::Div)
    } else if k == 50 {
        ("^"@, Tok::Pow)
    } else if k == 51 {
        ("%"@, Tok::Mod)
    } else if k == 52 {
        ("~"@, Tok::Match)
    } else if k == 53 {
        ("<"@, Tok::LT)
    } else if k == 54 {
        (">"@, Tok::GT)
    } else if k == 55 {
        (";"@, Tok::Semi)
    } else if k == 56 {
        ("\n"@, Tok::Newline)
    } else if k == 57 {
        (","@, Tok::Comma)
    } else if k == 58 {
        ("!"@, Tok::Not)
    } else if k == 59 {
        ("?"@, Tok::QUESTION)
    } else if k == 60 {
        (":"@, Tok::COLON)
    } else {
        ("$"@, Tok::Dollar)
    }
}

/// Whether the bytes of `b` from `i` on start with the encoding of `w`.
pub open spec fn word_at(b: Seq<u8>, i: int, w: Seq<char>) -> bool {
    let e = encode_utf8(w);
    i + e.len() <= b.len() && b.subrange(i, i + e.len()) == e
}

/// The first entry of the keyword table, from entry `k` on, that is spelled
/// at `i`: its token and the number of bytes it takes.
pub open spec fn keyword_from(b: Seq<u8>, i: int, k: int) -> Option<(Tok<'static>, int)>
    decreases KEYWORDS - k,
{
    if k < 0 || k >= KEYWORDS {
        None
    } else if word_at(b, i, keyword_table(k).0) {
        Some((keyword_table(k).1, encode_utf8(keyword_table(k).0).len() as int))
    } else {
        keyword_from(b, i, k + 1)
    }
}

/// The longest keyword spelled at `i`.
pub open spec fn keyword_at(b: Seq<u8>, i: int) -> Option<(Tok<'static>, int)> {
    keyword_from(b, i, 0)
}

/// Characters that may begin an identifier.
pub open spec fn id_start(c: char) -> bool {
    c == '_' || xid_start(c)
}

/// Characters that may continue an identifier.
pub open spec fn id_body(c: char) -> bool {
    c == '_' || c == '\'' || xid_continue(c)
}

/// Where skipping blanks from `i` stops: at the first character that is a
/// newline or no white space. Where nothing but blanks is left, it stops
/// at the last of them.
pub open spec fn skip_blank(b: Seq<u8>, i: int) -> int
    decreases b.len() - i,
{
    if i < 0 || i >= b.len() {
        i
    } else {
        let c = char_at(b, i);
        let next = i + width_at(b, i);
        if c == '\n' || !white_space(c) || next >= b.len() {
            i
        } else {
            skip_blank(b, next)
        }
    }
}

/// The offset of the first newline at or behind `i`, or the length of `b`.
pub open spec fn line_end(b: Seq<u8>, i: int) -> int
    decreases b.len() - i,
{
    if i < 0 || i >= b.len() {
        b.len() as int
    } else if b[i] == 0x0a {
        i
    } else {
        line_end(b, i + 1)
    }
}

/// Where skipping a comment from `i` stops: at the newline that ends it, if
/// `i` holds a `#`.
pub open spec fn skip_comment(b: Seq<u8>, i: int) -> int {
    if 0 <= i < b.len() && b[i] == 0x23 {
        line_end(b, i + 1)
    } else {
        i
    }
}

/// Where the next token can start: blanks and comments are skipped in turn
/// until neither moves the position.
pub open spec fn skip_filler(b: Seq<u8>, i: int) -> int
    decreases b.len() - i,
{
    let j = skip_comment(b, skip_blank(b, i));
    if i < j <= b.len() {
        skip_filler(b, j)
    } else {
        i
    }
}

/// The offset of the first `delim` at or behind `i` that no backslash
/// escapes; `escaped` tells whether the byte at `i` is escaped.
pub open spec fn literal_end(b: Seq<u8>, i: int, delim: u8, escaped: bool) -> Option<int>
    decreases b.len() - i,
{
    if i < 0 || i >= b.len() {
        None
    } else if escaped {
        literal_end(b, i + 1, delim, false)
    } else if b[i] == delim {
        Some(i)
    } else {
        literal_end(b, i + 1, delim, b[i] == 0x5c)
    }
}

/// Where the run of identifier characters that starts at `i` ends.
pub open spec fn ident_end(b: Seq<u8>, i: int) -> int
    decreases b.len() - i,
{
    if 0 <= i < b.len() && id_body(char_at(b, i)) && i + width_at(b, i) <= b.len() {
        ident_end(b, i + width_at(b, i))
    } else {
        i
    }
}

/// The kinds of token that carry a piece of the text.
#[derive(Clone, Copy, PartialEq, Eq, Debug)]
pub enum Lexeme {
    Str,
    Pat,
    Ident,
    Call,
    Hex,
    Float,
    Int,
}

/// The match `m`, if it is not empty and lies within `n` bytes: a number
/// takes at least one byte.
pub open spec fn within(m: Option<(usize, usize)>, n: int) -> Option<(usize, usize)> {
    match m {
        Some(m) if m.0 < m.1 <= n => Some(m),
        _ => None,
    }
}

/// The numeric literal among the matches of the three patterns: the
/// hexadecimal one if there is one, else the float, else the integer.
pub open spec fn pick_number(
    hex: Option<(usize, usize)>,
    float: Option<(usize, usize)>,
    whole: Option<(usize, usize)>,
) -> Option<(Lexeme, usize, usize)> {
    if let Some(m) = hex {
        Some((Lexeme::Hex, m.0, m.1))
    } else if let Some(m) = float {
        Some((Lexeme::Float, m.0, m.1))
    } else if let Some(m) = whole {
        Some((Lexeme::Int, m.0, m.1))
    } else {
        None
    }
}

/// The numeric literal at `i`: its kind and the range of the match inside
/// the rest of the text.
pub open spec fn number_at(b: Seq<u8>, i: int) -> Option<(Lexeme, usize, usize)> {
    let rest = decode_utf8(b.subrange(i, b.len() as int));
    let n = b.len() - i;
    pick_number(
        within(first_match(HEX_PATTERN@, rest), n),
        within(first_match(FLOAT_PATTERN@, rest), n),
        within(first_match(INT_PATTERN@, rest), n),
    )
}

/// One step of the lexer.
pub enum Step {
    /// No token starts at `at`; the stream ends there.
    Done { at: int },
    /// A string (`is_str`) or regex literal opened just before `at` is never
    /// closed.
    Unclosed { at: int, is_str: bool },
    /// The keyword `tok` spans `start..end`.
    Word { start: int, end: int, tok: Tok<'static> },
    /// A token of kind `kind` starts at `start`; it carries the bytes in
    /// `lo..hi`, and the next token is looked for at `end`.
    Piece { start: int, end: int, kind: Lexeme, lo: int, hi: int },
}

/// What the lexer does at position `cur`, where `regex_ok` tells whether a
/// `/` opens a regex literal.
pub open spec fn step(b: Seq<u8>, cur: int, regex_ok: bool) -> Step {
    let p = skip_filler(b, cur);
    if p >= b.len() {
        Step::Done { at: p }
    } else if b[p] == 0x22 {
        match literal_end(b, p + 1, 0x22, false) {
            Some(e) => Step::Piece { start: p, end: e + 1, kind: Lexeme::Str, lo: p + 1, hi: e },
            None => Step::Unclosed { at: p + 1, is_str: true },
        }
    } else if b[p] == 0x2f && regex_ok {
        match literal_end(b, p + 1, 0x2f, false) {
            Some(e) => Step::Piece { start: p, end: e + 1, kind: Lexeme::Pat, lo: p + 1, hi: e },
            None => Step::Unclosed { at: p + 1, is_str: false },
        }
    } else if let Some(w) = keyword_at(b, p) {
        Step::Word { start: p, end: p + w.1, tok: w.0 }
    } else if let Some(m) = number_at(b, p) {
        Step::Piece { start: p, end: p + m.2, kind: m.0, lo: p + m.1, hi: p + m.2 }
    } else if id_start(char_at(b, p)) {
        let e = ident_end(b, p + width_at(b, p));
        if e < b.len() && b[e] == 0x28 {
            Step::Piece { start: p, end: e + 1, kind: Lexeme::Call, lo: p, hi: e }
        } else {
            Step::Piece { start: p, end: e, kind: Lexeme::Ident, lo: p, hi: e }
        }
    } else {
        Step::Done { at: p }
    }
}

/// Whether a `/` that follows `prev` opens a regex literal: it divides
/// after an operand, and opens a regex anywhere else.
pub open spec fn regex_follows(prev: Option<Tok>) -> bool {
    match prev {
        Some(Tok::Ident(_)) | Some(Tok::StrLit(_)) | Some(Tok::PatLit(_)) | Some(Tok::ILit(_))
        | Some(Tok::FLit(_)) | Some(Tok::RParen) => false,
        _ => true,
    }
}

/// Whether `tok` is the token of kind `kind` that carries `bytes`.
pub open spec fn carries(tok: Tok, kind: Lexeme, bytes: Seq<u8>) -> bool {
    match kind {
        Lexeme::Str => tok matches Tok::StrLit(s) && encode_utf8(s@) == bytes,
        Lexeme::Pat => tok matches Tok::PatLit(s) && encode_utf8(s@) == bytes,
        Lexeme::Ident => tok matches Tok::Ident(s) && encode_utf8(s@) == bytes,
        Lexeme::Call => tok matches Tok::CallStart(s) && encode_utf8(s@) == bytes,
        Lexeme::Hex => tok matches Tok::HexLit(s) && encode_utf8(s@) == bytes,
        Lexeme::Float => tok matches Tok::FLit(s) && encode_utf8(s@) == bytes,
        Lexeme::Int => tok matches Tok::ILit(s) && encode_utf8(s@) == bytes,
    }
}

} // verus!
