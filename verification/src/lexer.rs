//! A lexer for AWK programs.
//!
//! The token stream is defined over the UTF-8 bytes of the program text; every
//! position handed out is a byte offset that falls on a character boundary.
use vstd::prelude::*;
use vstd::string::*;
use vstd::utf8::*;
use classes::{find_first, first_match, is_xid_continue, is_xid_start};
use grammar::{
    carries, id_body, id_start, ident_end, keyword_at, keyword_from, keyword_table, line_end,
    literal_end, number_at, pick_number, regex_follows, skip_blank, skip_comment, skip_filler,
    step, within, word_at, Lexeme, Step, FLOAT_PATTERN, HEX_PATTERN, INCOMPLETE_REGEX, INCOMPLETE_STRING, INT_PATTERN, KEYWORDS,
};
pub use literals::{parse_regex_literal, parse_string_literal};
use text::{lemma_boundary_by_byte, lemma_char_step, next_char, slice};

pub mod classes;
pub mod grammar;
pub mod laws;
pub mod literals;
pub mod text;

verus! {

/// A position in the source text.
#[derive(PartialEq, Eq, Clone, Copy, Debug, Default, Structural)]
pub struct Loc {
    pub line: usize,
    pub col: usize,
    pub offset: usize,
}

/// A token of the AWK grammar. Tokens that carry text borrow it from the
/// program.
#[derive(Debug, PartialEq, Clone, Copy)]
pub enum Tok<'a> {
    Begin,
    Prepare,
    End,
    Break,
    Continue,
    Next,
    NextFile,
    For,
    If,
    Else,
    Print,
    Printf,
    /// `print(`, with the parenthesis adjacent.
    PrintLP,
    /// `printf(`, with the parenthesis adjacent.
    PrintfLP,
    While,
    Do,
    LBrace,
    RBrace,
    LBrack,
    RBrack,
    LParen,
    RParen,
    Getline,
    Assign,
    Add,
    AddAssign,
    Sub,
    SubAssign,
    Mul,
    MulAssign,
    Div,
    DivAssign,
    Pow,
    PowAssign,
    Mod,
    ModAssign,
    Match,
    NotMatch,
    EQ,
    NEQ,
    LT,
    GT,
    LTE,
    GTE,
    Incr,
    Decr,
    Not,
    AND,
    OR,
    QUESTION,
    COLON,
    /// `>>`
    Append,
    Dollar,
    Semi,
    Newline,
    Comma,
    In,
    Delete,
    Function,
    Return,
    Ident(&'a str),
    StrLit(&'a str),
    PatLit(&'a str),
    /// An identifier with `(` directly behind it.
    CallStart(&'a str),
    ILit(&'a str),
    HexLit(&'a str),
    FLit(&'a str),
}

/// A value with the positions where it starts and ends.
pub type Spanned<T> = (Loc, T, Loc);

/// A literal that the text does not close.
#[derive(Debug)]
pub struct Error {
    pub location: Loc,
    pub desc: &'static str,
}

/// The offsets of the newlines among the first `n` bytes of `b`, in order.
pub open spec fn newlines(b: Seq<u8>, n: int) -> Seq<usize>
    decreases n,
{
    if n <= 0 {
        Seq::empty()
    } else if b[n - 1] == 0x0a {
        newlines(b, n - 1).push((n - 1) as usize)
    } else {
        newlines(b, n - 1)
    }
}

/// How many of `lines` lie before `ix`.
pub open spec fn lines_before(lines: Seq<usize>, ix: usize) -> int
    decreases lines.len(),
{
    if lines.len() == 0 {
        0
    } else {
        lines_before(lines.drop_last(), ix) + if lines.last() < ix {
            1int
        } else {
            0int
        }
    }
}

/// The position of byte `ix` in a text whose newlines are at `lines`: its
/// line is the number of newlines before it, its column the number of
/// bytes between it and the last of them. A newline is on the line that it
/// ends.
pub open spec fn locate(lines: Seq<usize>, ix: usize) -> Loc {
    let k = lines_before(lines, ix);
    if k == 0 {
        Loc { line: 0, col: ix, offset: ix }
    } else {
        Loc { line: k as usize, col: (ix - lines[k - 1] - 1) as usize, offset: ix }
    }
}

/// Offsets in strictly rising order.
pub open spec fn rising(lines: Seq<usize>) -> bool {
    forall|i: int, j: int| 0 <= i < j < lines.len() ==> lines[i] < lines[j]
}

proof fn lemma_newlines(b: Seq<u8>, n: int)
    requires
        0 <= n <= b.len(),
        n <= usize::MAX,
    ensures
        rising(newlines(b, n)),
        forall|i: int| 0 <= i < newlines(b, n).len() ==> (#[trigger] newlines(b, n)[i]) < n,
        newlines(b, n).len() <= n,
    decreases n,
{
    if n > 0 {
        lemma_newlines(b, n - 1);
        let prev = newlines(b, n - 1);
        let all = newlines(b, n);
        assert forall|i: int, j: int| 0 <= i < j < all.len() implies all[i] < all[j] by {
            if b[n - 1] == 0x0a {
                assert(all == prev.push((n - 1) as usize));
                assert(all[i] == prev[i]);
                assert(newlines(b, n - 1)[i] < n - 1);
                if j < prev.len() {
                    assert(all[j] == prev[j]);
                    assert(prev[i] < prev[j]);
                } else {
                    assert(all[j] == (n - 1) as usize);
                }
            } else {
                assert(all == prev);
                assert(prev[i] < prev[j]);
            }
        }
    }
}

proof fn lemma_lines_before(lines: Seq<usize>, ix: usize, k: int)
    requires
        rising(lines),
        0 <= k <= lines.len(),
        forall|j: int| 0 <= j < k ==> lines[j] < ix,
        forall|j: int| k <= j < lines.len() ==> lines[j] >= ix,
    ensures
        lines_before(lines, ix) == k,
    decreases lines.len(),
{
    if lines.len() > 0 {
        let front = lines.drop_last();
        if k == lines.len() {
            lemma_lines_before(front, ix, k - 1);
        } else {
            lemma_lines_before(front, ix, k);
        }
    }
}

/// How many of the offsets `lines`, which rise, lie before `x`.
fn count_before(lines: &Vec<usize>, x: usize) -> (r: usize)
    requires
        rising(lines@),
    ensures
        r == lines_before(lines@, x),
        r <= lines.len(),
        forall|j: int| 0 <= j < r ==> lines[j] < x,
{
    let mut lo: usize = 0;
    let mut hi: usize = lines.len();
    while lo < hi
        invariant
            rising(lines@),
            lo <= hi <= lines.len(),
            forall|j: int| 0 <= j < lo ==> lines[j] < x,
            forall|j: int| hi <= j < lines.len() ==> lines[j] >= x,
        decreases hi - lo,
    {
        let mid = lo + (hi - lo) / 2;
        if lines[mid] < x {
            lo = mid + 1;
        } else {
            hi = mid;
        }
    }
    proof {
        lemma_lines_before(lines@, x, lo as int);
    }
    lo
}

/// The match `m` of a numeric pattern in a text of `n` bytes, unless it
/// is empty or does not lie within the text.
pub fn within_text(m: Option<(usize, usize)>, n: usize) -> (r: Option<(usize, usize)>)
    ensures
        r == within(m, n as int),
{
    match m {
        Some((lo, hi)) if lo < hi && hi <= n => Some((lo, hi)),
        _ => None,
    }
}

/// The numeric literal among the matches of the three patterns, with its
/// kind: the hexadecimal one if there is one, else the float, else the
/// integer.
pub fn number_kind(
    hex: Option<(usize, usize)>,
    float: Option<(usize, usize)>,
    whole: Option<(usize, usize)>,
) -> (r: Option<(Lexeme, usize, usize)>)
    ensures
        r == pick_number(hex, float, whole),
{
    if let Some((lo, hi)) = hex {
        Some((Lexeme::Hex, lo, hi))
    } else if let Some((lo, hi)) = float {
        Some((Lexeme::Float, lo, hi))
    } else if let Some((lo, hi)) = whole {
        Some((Lexeme::Int, lo, hi))
    } else {
        None
    }
}

/// The first match of `pattern` in `text`, unless it is empty.
fn matched(pattern: &str, text: &str) -> (r: Option<(usize, usize)>)
    ensures
        r == within(first_match(pattern@, text@), text.spec_bytes().len() as int),
        r matches Some(m) ==> is_char_boundary(text.spec_bytes(), m.0 as int) && is_char_boundary(
            text.spec_bytes(),
            m.1 as int,
        ),
{
    within_text(find_first(pattern, text), text.as_bytes().len())
}

fn is_id_start(c: char) -> (r: bool)
    ensures
        r == id_start(c),
{
    c == '_' || is_xid_start(c)
}

fn is_id_body(c: char) -> (r: bool)
    ensures
        r == id_body(c),
{
    c == '_' || c == '\'' || is_xid_continue(c)
}

/// Whether `word` is spelled in `bs` from `i` on.
fn has_word(bs: &[u8], i: usize, word: &str) -> (r: bool)
    requires
        i <= bs@.len(),
    ensures
        r == word_at(bs@, i as int, word@),
{
    let w = word.as_bytes();
    if w.len() > bs.len() - i {
        return false;
    }
    let mut k: usize = 0;
    while k < w.len()
        invariant
            k <= w@.len(),
            i + w@.len() <= bs@.len() <= usize::MAX,
            w@ == encode_utf8(word@),
            forall|j: int| 0 <= j < k ==> bs@[i + j] == w@[j],
        decreases w.len() - k,
    {
        if bs[i + k] != w[k] {
            assert(bs@.subrange(i as int, i + w@.len())[k as int] == bs@[i + k]);
            return false;
        }
        k += 1;
    }
    assert(bs@.subrange(i as int, i + w@.len()) =~= w@);
    true
}

/// The entry of the keyword table at `k`.
fn keyword_entry(k: usize) -> (r: (&'static str, Tok<'static>))
    requires
        k < KEYWORDS,
    ensures
        r.0@ == keyword_table(k as int).0,
        r.1 == keyword_table(k as int).1,
{
    match k {
        0 => ("continue", Tok::Continue),
        1 => ("nextfile", Tok::NextFile),
        2 => ("function", Tok::Function),
        3 => ("PREPARE", Tok::Prepare),
        4 => ("printf(", Tok::PrintfLP),
        5 => ("getline", Tok::Getline),
        6 => ("printf", Tok::Printf),
        7 => ("print(", Tok::PrintLP),
        8 => ("delete", Tok::Delete),
        9 => ("return", Tok::Return),
        10 => ("BEGIN", Tok::Begin),
        11 => ("break", Tok::Break),
        12 => ("print", Tok::Print),
        13 => ("while", Tok::While),
        14 => ("next", Tok::Next),
        15 => ("else", Tok::Else),
        16 => ("END", Tok::End),
        17 => ("for", Tok::For),
        18 => ("in ", Tok::In),
        19 => ("in\t", Tok::In),
        20 => ("if", Tok::If),
        21 => ("do", Tok::Do),
        22 => ("+=", Tok::AddAssign),
        23 => ("-=", Tok::SubAssign),
        24 => ("*=", Tok::MulAssign),
        25 => ("/=", Tok::DivAssign),
        26 => ("^=", Tok::PowAssign),
        27 => ("%=", Tok::ModAssign),
        28 => ("!~", Tok::NotMatch),
        29 => ("==", Tok::EQ),
        30 => ("!=", Tok::NEQ),
        31 => ("<=", Tok::LTE),
        32 => (">=", Tok::GTE),
        33 => ("--", Tok::Decr),
        34 => ("++", Tok::Incr),
        35 => (">>", Tok::Append),
        36 => ("\r\n", Tok::Newline),
        37 => ("&&", Tok::AND),
        38 => ("||", Tok::OR),
        39 => ("{", Tok::LBrace),
        40 => ("}", Tok::RBrace),
        41 => ("[", Tok::LBrack),
        42 => ("]", Tok::RBrack),
        43 => ("(", Tok::LParen),
        44 => (")", Tok::RParen),
        45 => ("=", Tok::Assign),
        46 => ("+", Tok::Add),
        47 => ("-", Tok::Sub),
        48 => ("*", Tok::Mul),
        49 => ("/", Tok::Div),
        50 => ("^", Tok::Pow),
        51 => ("%", Tok::Mod),
        52 => ("~", Tok::Match),
        53 => ("<", Tok::LT),
        54 => (">", Tok::GT),
        55 => (";", Tok::Semi),
        56 => ("\n", Tok::Newline),
        57 => (",", Tok::Comma),
        58 => ("!", Tok::Not),
        59 => ("?", Tok::QUESTION),
        60 => (":", Tok::COLON),
        _ => ("$", Tok::Dollar),
    }
}

/// A lexer over one program text. `next` hands out its tokens in order.
pub struct Tokenizer<'a> {
    text: &'a str,
    cur: usize,
    prev_tok: Option<Tok<'a>>,
    lines: Vec<usize>,
}

impl<'a> Tokenizer<'a> {
    /// The UTF-8 bytes of the program.
    pub closed spec fn bytes(&self) -> Seq<u8> {
        self.text.spec_bytes()
    }

    /// The offset from which the next token is looked for.
    pub closed spec fn cursor(&self) -> int {
        self.cur as int
    }

    /// The token handed out last.
    pub closed spec fn prev(&self) -> Option<Tok<'a>> {
        self.prev_tok
    }

    /// The offsets of the newlines of the program.
    pub closed spec fn line_breaks(&self) -> Seq<usize> {
        self.lines@
    }

    /// The cursor is on a character boundary inside the text, and the line
    /// breaks are those of the text.
    pub open spec fn wf(&self) -> bool {
        &&& 0 <= self.cursor() <= self.bytes().len() <= usize::MAX
        &&& valid_utf8(self.bytes())
        &&& is_char_boundary(self.bytes(), self.cursor())
        &&& self.line_breaks() == newlines(self.bytes(), self.bytes().len() as int)
    }

    /// The longest keyword at the cursor, with its length in bytes.
    fn keyword(&self) -> (r: Option<(Tok<'static>, usize)>)
        requires
            self.wf(),
        ensures
            match keyword_at(self.bytes(), self.cursor()) {
                Some(w) => r == Some((w.0, w.1 as usize)) && self.cursor() + w.1
                    <= self.bytes().len() && is_char_boundary(
                    self.bytes(),
                    self.cursor() + w.1,
                ),
                None => r is None,
            },
    {
        let bs = self.text.as_bytes();
        let mut k: usize = 0;
        while k < KEYWORDS
            invariant
                k <= KEYWORDS,
                bs@ == self.bytes(),
                self.wf(),
                keyword_at(self.bytes(), self.cursor()) == keyword_from(
                    self.bytes(),
                    self.cursor(),
                    k as int,
                ),
            decreases KEYWORDS - k,
        {
            let (word, tok) = keyword_entry(k);
            if has_word(bs, self.cur, word) {
                proof {
                    let b = self.bytes();
                    let rest = b.subrange(self.cur as int, b.len() as int);
                    let w = encode_utf8(word@);
                    valid_utf8_split(b, self.cur as int);
                    encode_utf8_valid_utf8(word@);
                    assert(rest.subrange(0, w.len() as int) =~= w);
                    lemma_prefix_boundary(rest, w.len() as int);
                    lemma_boundary_by_byte(rest, w.len() as int);
                    lemma_boundary_by_byte(b, self.cur + w.len());
                }
                return Some((tok, word.len()));
            }
            k += 1;
        }
        None
    }

    /// The numeric literal at the cursor, with the number of bytes up to its
    /// end.
    fn num(&self) -> (r: Option<(Tok<'a>, usize)>)
        requires
            self.wf(),
        ensures
            match number_at(self.bytes(), self.cursor()) {
                Some(m) => r matches Some(t) && t.1 == m.2 && self.cursor() + m.2
                    <= self.bytes().len() && m.1 <= m.2 && is_char_boundary(
                    self.bytes(),
                    self.cursor() + t.1,
                ) && carries(
                    t.0,
                    m.0,
                    self.bytes().subrange(self.cursor() + m.1, self.cursor() + m.2),
                ),
                None => r is None,
            },
    {
        broadcast use {encode_utf8_valid_utf8, encode_utf8_decode_utf8};

        let ghost b = self.bytes();
        proof {
            lemma_boundary_by_byte(b, b.len() as int);
        }
        let rest = slice(self.text, self.cur, self.text.len());
        assert(rest@ == decode_utf8(b.subrange(self.cur as int, b.len() as int)));
        let hex = matched(HEX_PATTERN, rest);
        let float = matched(FLOAT_PATTERN, rest);
        let whole = matched(INT_PATTERN, rest);
        match number_kind(hex, float, whole) {
            Some((kind, lo, hi)) => {
                let lit = slice(rest, lo, hi);
                proof {
                    lemma_offset_range(b, self.cur as int, lo as int, hi as int);
                }
                match kind {
                    Lexeme::Hex => Some((Tok::HexLit(lit), hi)),
                    Lexeme::Float => Some((Tok::FLit(lit), hi)),
                    _ => Some((Tok::ILit(lit), hi)),
                }
            },
            None => None,
        }
    }

    /// The identifier that starts at `id_start` and whose first character
    /// ends at the cursor, with the offset behind it.
    fn ident(&self, id_start: usize) -> (r: (&'a str, usize))
        requires
            self.wf(),
            id_start <= self.cursor(),
            is_char_boundary(self.bytes(), id_start as int),
        ensures
            r.1 == ident_end(self.bytes(), self.cursor()),
            self.cursor() <= r.1 <= self.bytes().len(),
            is_char_boundary(self.bytes(), r.1 as int),
            r.0.spec_bytes() == self.bytes().subrange(id_start as int, r.1 as int),
    {
        broadcast use encode_utf8_valid_utf8;

        let n = self.text.len();
        let mut i = self.cur;
        while i < n
            invariant
                self.wf(),
                n == self.bytes().len(),
                self.cur <= i <= n,
                is_char_boundary(self.bytes(), i as int),
                ident_end(self.bytes(), self.cursor()) == ident_end(self.bytes(), i as int),
            ensures
                self.cur <= i <= n,
                is_char_boundary(self.bytes(), i as int),
                i == ident_end(self.bytes(), self.cursor()),
            decreases n - i,
        {
            let (c, next) = next_char(self.text, i);
            if !is_id_body(c) {
                break ;
            }
            i = next;
        }
        (slice(self.text, id_start, i), i)
    }

    /// The literal that `delim` closes, from the cursor on, with the offset
    /// behind the closing `delim`.
    fn literal(&self, delim: u8, error_msg: &'static str) -> (r: Result<(&'a str, usize), Error>)
        requires
            self.wf(),
            delim < 0x80,
        ensures
            match literal_end(self.bytes(), self.cursor(), delim, false) {
                Some(e) => r matches Ok(t) && t.1 == e + 1 && self.cursor() <= e
                    < self.bytes().len() && is_char_boundary(self.bytes(), e + 1)
                    && t.0.spec_bytes() == self.bytes().subrange(self.cursor(), e),
                None => r matches Err(err) && err.location == locate(
                    self.line_breaks(),
                    self.cursor() as usize,
                ) && err.desc@ == error_msg@,
            },
    {
        broadcast use encode_utf8_valid_utf8;

        let bs = self.text.as_bytes();
        let n = bs.len();
        let mut i = self.cur;
        let mut is_escape = false;
        while i < n
            invariant
                self.wf(),
                bs@ == self.bytes(),
                n == bs@.len(),
                delim < 0x80,
                self.cur <= i <= n,
                literal_end(self.bytes(), self.cursor(), delim, false) == literal_end(
                    self.bytes(),
                    i as int,
                    delim,
                    is_escape,
                ),
            decreases n - i,
        {
            let b = bs[i];
            if is_escape {
                is_escape = false;
            } else if b == delim {
                proof {
                    lemma_boundary_by_byte(self.bytes(), i as int);
                    lemma_char_step(self.bytes(), i as int);
                }
                return Ok((slice(self.text, self.cur, i), i + 1));
            } else if b == 0x5c {
                is_escape = true;
            }
            i += 1;
        }
        Err(Error { location: self.index_to_loc(self.cur), desc: error_msg })
    }

    fn regex_lit(&self) -> (r: Result<(&'a str, usize), Error>)
        requires
            self.wf(),
        ensures
            match literal_end(self.bytes(), self.cursor(), 0x2f, false) {
                Some(e) => r matches Ok(t) && t.1 == e + 1 && self.cursor() <= e
                    < self.bytes().len() && is_char_boundary(self.bytes(), e + 1)
                    && t.0.spec_bytes() == self.bytes().subrange(self.cursor(), e),
                None => r matches Err(err) && err.location == locate(
                    self.line_breaks(),
                    self.cursor() as usize,
                ) && err.desc@ == INCOMPLETE_REGEX@,
            },
    {
        self.literal(0x2f, INCOMPLETE_REGEX)
    }

    fn string_lit(&self) -> (r: Result<(&'a str, usize), Error>)
        requires
            self.wf(),
        ensures
            match literal_end(self.bytes(), self.cursor(), 0x22, false) {
                Some(e) => r matches Ok(t) && t.1 == e + 1 && self.cursor() <= e
                    < self.bytes().len() && is_char_boundary(self.bytes(), e + 1)
                    && t.0.spec_bytes() == self.bytes().subrange(self.cursor(), e),
                None => r matches Err(err) && err.location == locate(
                    self.line_breaks(),
                    self.cursor() as usize,
                ) && err.desc@ == INCOMPLETE_STRING@,
            },
    {
        self.literal(0x22, INCOMPLETE_STRING)
    }

    /// Moves the cursor to the end of the line if it is at a `#`.
    fn consume_comment(&mut self)
        requires
            old(self).wf(),
        ensures
            final(self).wf(),
            final(self).same_text(old(self)),
            final(self).prev() == old(self).prev(),
            final(self).cursor() == skip_comment(old(self).bytes(), old(self).cursor()),
            old(self).cursor() <= final(self).cursor(),
    {
        broadcast use encode_utf8_valid_utf8;

        let bs = self.text.as_bytes();
        let n = bs.len();
        if self.cur < n && bs[self.cur] == 0x23 {
            let mut j = self.cur + 1;
            while j < n && bs[j] != 0x0a
                invariant
                    bs@ == self.bytes(),
                    n == bs@.len(),
                    self.cur < j <= n,
                    line_end(self.bytes(), self.cur + 1) == line_end(self.bytes(), j as int),
                decreases n - j,
            {
                j += 1;
            }
            proof {
                lemma_boundary_by_byte(self.bytes(), j as int);
            }
            self.cur = j;
        }
    }

    /// Moves the cursor over blanks, up to a newline.
    fn consume_ws(&mut self)
        requires
            old(self).wf(),
        ensures
            final(self).wf(),
            final(self).same_text(old(self)),
            final(self).prev() == old(self).prev(),
            final(self).cursor() == skip_blank(old(self).bytes(), old(self).cursor()),
            old(self).cursor() <= final(self).cursor(),
    {
        let n = self.text.len();
        let mut i = self.cur;
        while i < n
            invariant
                self.wf(),
                n == self.bytes().len(),
                self.cur <= i <= n,
                is_char_boundary(self.bytes(), i as int),
                skip_blank(self.bytes(), self.cursor()) == skip_blank(self.bytes(), i as int),
            ensures
                self.cur <= i <= n,
                is_char_boundary(self.bytes(), i as int),
                i == skip_blank(self.bytes(), self.cursor()),
            decreases n - i,
        {
            let (c, next) = next_char(self.text, i);
            if c == '\n' || !c.is_whitespace() || next >= n {
                break ;
            }
            i = next;
        }
        self.cur = i;
    }

    /// Moves the cursor to where the next token can start.
    fn advance(&mut self)
        requires
            old(self).wf(),
        ensures
            final(self).wf(),
            final(self).same_text(old(self)),
            final(self).prev() == old(self).prev(),
            final(self).cursor() == skip_filler(old(self).bytes(), old(self).cursor()),
            old(self).cursor() <= final(self).cursor(),
    {
        let mut prev = self.cur;
        loop
            invariant
                self.wf(),
                self.same_text(old(self)),
                self.prev() == old(self).prev(),
                prev == self.cur,
                old(self).cursor() <= self.cursor(),
                skip_filler(old(self).bytes(), old(self).cursor()) == skip_filler(
                    self.bytes(),
                    self.cursor(),
                ),
            ensures
                self.wf(),
                self.same_text(old(self)),
                self.prev() == old(self).prev(),
                old(self).cursor() <= self.cursor(),
                self.cursor() == skip_filler(old(self).bytes(), old(self).cursor()),
            decreases self.bytes().len() - prev,
        {
            self.consume_ws();
            self.consume_comment();
            if self.cur == prev {
                break ;
            }
            prev = self.cur;
        }
    }

    /// Whether a `/` at the cursor opens a regex literal: it divides after
    /// an identifier, after a string, regex, integer or float literal and
    /// after a closing parenthesis, and opens a regex literal at the start
    /// of the text and after every other token.
    pub fn potential_re(&self) -> (r: bool)
        ensures
            r == regex_follows(self.prev()),
    {
        match &self.prev_tok {
            Some(Tok::Ident(_)) | Some(Tok::StrLit(_)) | Some(Tok::PatLit(_)) | Some(
                Tok::ILit(_),
            ) | Some(Tok::FLit(_)) | Some(Tok::RParen) => false,
            _ => true,
        }
    }

    /// Both lexers read the same text, with the same line breaks.
    pub open spec fn same_text(&self, other: &Self) -> bool {
        self.bytes() == other.bytes() && self.line_breaks() == other.line_breaks()
    }

    /// A lexer at the start of `text`.
    pub fn new(text: &'a str) -> (r: Tokenizer<'a>)
        ensures
            r.wf(),
            r.bytes() == text.spec_bytes(),
            r.cursor() == 0,
            r.prev() is None,
    {
        broadcast use encode_utf8_valid_utf8;

        let bs = text.as_bytes();
        let n = bs.len();
        let mut lines: Vec<usize> = Vec::new();
        let mut i: usize = 0;
        while i < n
            invariant
                i <= n,
                n == bs@.len(),
                lines@ == newlines(bs@, i as int),
            decreases n - i,
        {
            if bs[i] == 0x0a {
                lines.push(i);
            }
            i += 1;
        }
        proof {
            is_char_boundary_start_end_of_seq(text.spec_bytes());
        }
        Tokenizer { text, cur: 0, prev_tok: None, lines }
    }

    /// The line and column of the byte at `ix`.
    pub fn index_to_loc(&self, ix: usize) -> (r: Loc)
        requires
            self.wf(),
        ensures
            r == locate(self.line_breaks(), ix),
    {
        proof {
            lemma_newlines(self.bytes(), self.bytes().len() as int);
        }
        let line = count_before(&self.lines, ix);
        if line == 0 {
            Loc { line: 0, col: ix, offset: ix }
        } else {
            Loc { line, col: ix - self.lines[line - 1] - 1, offset: ix }
        }
    }

    /// The next token with the positions where it starts and ends, an error
    /// where a literal is not closed, or `None` where no token starts.
    ///
    /// The token takes at least one byte and lies between the cursor before
    /// the call and the cursor after it, so that the tokens of successive
    /// calls do not overlap.
    pub fn next(&mut self) -> (r: Option<Result<Spanned<Tok<'a>>, Error>>)
        requires
            old(self).wf(),
        ensures
            final(self).wf(),
            final(self).same_text(old(self)),
            yields(
                step(old(self).bytes(), old(self).cursor(), regex_follows(old(self).prev())),
                old(self).bytes(),
                old(self).line_breaks(),
                r,
            ),
            final(self).cursor() == resume(
                step(old(self).bytes(), old(self).cursor(), regex_follows(old(self).prev())),
            ),
            final(self).prev() == match r {
                Some(Ok(sp)) => Some(sp.1),
                _ => old(self).prev(),
            },
            old(self).cursor() <= final(self).cursor(),
            r matches Some(Ok(sp)) ==> old(self).cursor() <= sp.0.offset && sp.0.offset
                + carried(sp.1).len() <= sp.2.offset && sp.2.offset == final(self).cursor(),
            r matches Some(Ok(sp)) ==> sp.0.offset < sp.2.offset <= old(self).bytes().len(),
    {
        proof {
            laws::lemma_step_in_order(
                self.bytes(),
                self.cursor() as int,
                regex_follows(self.prev()),
            );
        }
        self.advance();
        let text: &'a str = self.text;
        let bs = text.as_bytes();
        let n = bs.len();
        let ix = self.cur;
        if ix >= n {
            return None;
        }
        let b0 = bs[ix];
        let span = if b0 == 0x22 {
            proof {
                lemma_char_step(self.bytes(), ix as int);
            }
            self.cur = ix + 1;
            match self.string_lit() {
                Ok((s, new_start)) => {
                    self.cur = new_start;
                    self.spanned(ix, new_start, Tok::StrLit(s))
                },
                Err(e) => {
                    return Some(Err(e));
                },
            }
        } else if b0 == 0x2f && self.potential_re() {
            proof {
                lemma_char_step(self.bytes(), ix as int);
            }
            self.cur = ix + 1;
            match self.regex_lit() {
                Ok((re, new_start)) => {
                    self.cur = new_start;
                    self.spanned(ix, new_start, Tok::PatLit(re))
                },
                Err(e) => {
                    return Some(Err(e));
                },
            }
        } else if let Some((tok, len)) = self.keyword() {
            proof {
                lemma_keyword_plain(self.bytes(), self.cursor(), 0);
                laws::lemma_keyword_within(self.bytes(), self.cursor(), 0);
            }
            self.cur = ix + len;
            self.spanned(ix, ix + len, tok)
        } else if let Some((tok, len)) = self.num() {
            self.cur = ix + len;
            self.spanned(ix, ix + len, tok)
        } else {
            let (c, next) = next_char(text, ix);
            if is_id_start(c) {
                self.cur = next;
                let (s, new_start) = self.ident(ix);
                if new_start < n && bs[new_start] == 0x28 {
                    proof {
                        lemma_char_step(self.bytes(), new_start as int);
                    }
                    self.cur = new_start + 1;
                    self.spanned(ix, new_start + 1, Tok::CallStart(s))
                } else {
                    self.cur = new_start;
                    self.spanned(ix, new_start, Tok::Ident(s))
                }
            } else {
                return None;
            }
        };
        self.prev_tok = Some(span.1);
        Some(Ok(span))
    }

    /// `t` with the positions of the bytes at `l` and `r`.
    fn spanned<T>(&self, l: usize, r: usize, t: T) -> (s: Spanned<T>)
        requires
            self.wf(),
        ensures
            s.0 == locate(self.line_breaks(), l),
            s.1 == t,
            s.2 == locate(self.line_breaks(), r),
    {
        (self.index_to_loc(l), t, self.index_to_loc(r))
    }
}

/// What a call of `next` returns where the lexer takes the step `s`.
pub open spec fn yields(
    s: Step,
    bytes: Seq<u8>,
    lines: Seq<usize>,
    r: Option<Result<Spanned<Tok>, Error>>,
) -> bool {
    match s {
        Step::Done { at } => r is None,
        Step::Unclosed { at, is_str } => r matches Some(Err(e)) && e.location == locate(
            lines,
            at as usize,
        ) && e.desc@ == (if is_str {
            INCOMPLETE_STRING@
        } else {
            INCOMPLETE_REGEX@
        }),
        Step::Word { start, end, tok } => r matches Some(Ok(sp)) && sp.0 == locate(
            lines,
            start as usize,
        ) && sp.1 == tok && sp.2 == locate(lines, end as usize),
        Step::Piece { start, end, kind, lo, hi } => r matches Some(Ok(sp)) && sp.0 == locate(
            lines,
            start as usize,
        ) && carries(sp.1, kind, bytes.subrange(lo, hi)) && sp.2 == locate(lines, end as usize),
    }
}

/// Where the lexer goes on after the step `s`.
pub open spec fn resume(s: Step) -> int {
    match s {
        Step::Done { at } => at,
        Step::Unclosed { at, .. } => at,
        Step::Word { end, .. } => end,
        Step::Piece { end, .. } => end,
    }
}

/// The bytes of the text that a token carries; none for a keyword.
pub open spec fn carried(tok: Tok) -> Seq<u8> {
    match tok {
        Tok::Ident(s) | Tok::StrLit(s) | Tok::PatLit(s) | Tok::CallStart(s) | Tok::ILit(s)
        | Tok::HexLit(s) | Tok::FLit(s) => s.spec_bytes(),
        _ => Seq::empty(),
    }
}

/// A keyword carries no text.
proof fn lemma_keyword_plain(b: Seq<u8>, i: int, k: int)
    requires
        0 <= k,
    ensures
        keyword_from(b, i, k) matches Some(w) ==> carried(w.0).len() == 0,
    decreases KEYWORDS - k,
{
    if k < KEYWORDS && !word_at(b, i, keyword_table(k).0) {
        lemma_keyword_plain(b, i, k + 1);
    }
}

/// A prefix that is valid UTF-8 ends on a character boundary.
proof fn lemma_prefix_boundary(s: Seq<u8>, len: int)
    requires
        valid_utf8(s),
        0 <= len <= s.len(),
        valid_utf8(s.subrange(0, len)),
    ensures
        is_char_boundary(s, len),
    decreases len,
{
    if len > 0 {
        let t = s.subrange(0, len);
        assert(valid_first_scalar(t));
        assert(t[0] == s[0]);
        let w = length_of_first_scalar(t);
        assert(w == length_of_first_scalar(s));
        assert(pop_first_scalar(t) =~= pop_first_scalar(s).subrange(0, len - w));
        lemma_prefix_boundary(pop_first_scalar(s), len - w);
    }
}

/// A range inside the rest of a text, seen from the whole text.
proof fn lemma_offset_range(b: Seq<u8>, cur: int, lo: int, hi: int)
    requires
        valid_utf8(b),
        0 <= cur <= b.len(),
        is_char_boundary(b, cur),
        0 <= lo <= hi <= b.len() - cur,
        is_char_boundary(b.subrange(cur, b.len() as int), hi),
    ensures
        b.subrange(cur, b.len() as int).subrange(lo, hi) == b.subrange(cur + lo, cur + hi),
        is_char_boundary(b, cur + hi),
{
    let rest = b.subrange(cur, b.len() as int);
    assert(rest.subrange(lo, hi) =~= b.subrange(cur + lo, cur + hi));
    valid_utf8_split(b, cur);
    lemma_boundary_by_byte(rest, hi);
    lemma_boundary_by_byte(b, cur + hi);
}

} // verus!
