//! What holds of the token stream of every program.
use vstd::prelude::*;
use vstd::utf8::*;
use super::grammar::{
    ident_end, keyword_at, keyword_from, keyword_table, line_end, literal_end, regex_follows,
    skip_blank, skip_comment, skip_filler, step, word_at, Lexeme, Step, KEYWORDS,
};
use super::text::width_at;
use super::Tok;

verus! {

/// The bytes of the spellings of the keyword table, as far as a slash is
/// concerned: only `/=` and `/` begin with one.
proof fn lemma_slash_words(k: int)
    requires
        0 <= k < KEYWORDS,
    ensures
        encode_utf8(keyword_table(k).0).len() >= 1,
        k != 25 && k != 49 ==> encode_utf8(keyword_table(k).0)[0] != 0x2f,
        k == 25 ==> encode_utf8(keyword_table(k).0) == seq![0x2fu8, 0x3du8] && keyword_table(k).1
            == Tok::DivAssign,
        k == 49 ==> encode_utf8(keyword_table(k).0) == seq![0x2fu8] && keyword_table(k).1
            == Tok::Div,
{
    reveal_strlit("continue");
    reveal_strlit("nextfile");
    reveal_strlit("function");
    reveal_strlit("PREPARE");
    reveal_strlit("printf(");
    reveal_strlit("getline");
    reveal_strlit("printf");
    reveal_strlit("print(");
    reveal_strlit("delete");
    reveal_strlit("return");
    reveal_strlit("BEGIN");
    reveal_strlit("break");
    reveal_strlit("print");
    reveal_strlit("while");
    reveal_strlit("next");
    reveal_strlit("else");
    reveal_strlit("END");
    reveal_strlit("for");
    reveal_strlit("in ");
    reveal_strlit("in\t");
    reveal_strlit("if");
    reveal_strlit("do");
    reveal_strlit("+=");
    reveal_strlit("-=");
    reveal_strlit("*=");
    reveal_strlit("/=");
    reveal_strlit("^=");
    reveal_strlit("%=");
    reveal_strlit("!~");
    reveal_strlit("==");
    reveal_strlit("!=");
    reveal_strlit("<=");
    reveal_strlit(">=");
    reveal_strlit("--");
    reveal_strlit("++");
    reveal_strlit(">>");
    reveal_strlit("\r\n");
    reveal_strlit("&&");
    reveal_strlit("||");
    reveal_strlit("{");
    reveal_strlit("}");
    reveal_strlit("[");
    reveal_strlit("]");
    reveal_strlit("(");
    reveal_strlit(")");
    reveal_strlit("=");
    reveal_strlit("+");
    reveal_strlit("-");
    reveal_strlit("*");
    reveal_strlit("/");
    reveal_strlit("^");
    reveal_strlit("%");
    reveal_strlit("~");
    reveal_strlit("<");
    reveal_strlit(">");
    reveal_strlit(";");
    reveal_strlit("\n");
    reveal_strlit(",");
    reveal_strlit("!");
    reveal_strlit("?");
    reveal_strlit(":");
    reveal_strlit("$");
    let w = keyword_table(k).0;
    assert(is_ascii_chars(w));
    is_ascii_chars_encode_utf8(w);
    assert(encode_utf8(w)[0] == w[0] as u8);
    if k == 25 {
        assert(encode_utf8(w)[1] == w[1] as u8);
        assert(encode_utf8(w) =~= seq![0x2fu8, 0x3du8]);
    }
    if k == 49 {
        assert(encode_utf8(w) =~= seq![0x2fu8]);
    }
}

/// Where no entry of the keyword table from `k` up to `upto` is spelled at
/// `i`, the search goes on at `upto`.
proof fn lemma_keyword_skip(b: Seq<u8>, i: int, k: int, upto: int)
    requires
        0 <= k <= upto <= KEYWORDS,
        forall|j: int| k <= j < upto ==> !word_at(b, i, #[trigger] keyword_table(j).0),
    ensures
        keyword_from(b, i, k) == keyword_from(b, i, upto),
    decreases upto - k,
{
    if k < upto {
        assert(!word_at(b, i, keyword_table(k).0));
        lemma_keyword_skip(b, i, k + 1, upto);
    }
}

/// The keyword at a slash: `/=` where an equals sign follows, and `/`
/// everywhere else.
pub proof fn lemma_keyword_at_slash(b: Seq<u8>, p: int)
    requires
        0 <= p < b.len(),
        b[p] == 0x2f,
    ensures
        keyword_at(b, p) == (if p + 1 < b.len() && b[p + 1] == 0x3d {
            Some((Tok::DivAssign, 2int))
        } else {
            Some((Tok::Div, 1int))
        }),
{
    assert forall|j: int| 0 <= j < KEYWORDS && j != 25 && j != 49 implies !word_at(
        b,
        p,
        #[trigger] keyword_table(j).0,
    ) by {
        lemma_slash_words(j);
        let e = encode_utf8(keyword_table(j).0);
        if word_at(b, p, keyword_table(j).0) {
            assert(b.subrange(p, p + e.len())[0] == b[p]);
        }
    }
    lemma_slash_words(25);
    lemma_slash_words(49);
    lemma_keyword_skip(b, p, 0, 25);
    let assign = seq![0x2fu8, 0x3du8];
    if p + 1 < b.len() && b[p + 1] == 0x3d {
        assert(b.subrange(p, p + 2) =~= assign);
    } else {
        if word_at(b, p, keyword_table(25).0) {
            assert(b.subrange(p, p + 2)[1] == b[p + 1]);
        }
        lemma_keyword_skip(b, p, 26, 49);
        assert(b.subrange(p, p + 1) =~= seq![0x2fu8]);
    }
}

/// A slash divides after an identifier, a literal or a closing
/// parenthesis: there it is the token `/`, or the start of the token `/=`
/// where an equals sign follows. After any other token, and at the start
/// of the program, it opens a regex literal, which ends at the next slash
/// that is not escaped, and is an error where there is none.
pub proof fn lemma_slash(b: Seq<u8>, cur: int, prev: Option<Tok>)
    requires
        0 <= skip_filler(b, cur) < b.len(),
        b[skip_filler(b, cur)] == 0x2f,
    ensures
        ({
            let p = skip_filler(b, cur);
            step(b, cur, regex_follows(prev)) == (if regex_follows(prev) {
                match literal_end(b, p + 1, 0x2f, false) {
                    Some(e) => Step::Piece {
                        start: p,
                        end: e + 1,
                        kind: Lexeme::Pat,
                        lo: p + 1,
                        hi: e,
                    },
                    None => Step::Unclosed { at: p + 1, is_str: false },
                }
            } else if p + 1 < b.len() && b[p + 1] == 0x3d {
                Step::Word { start: p, end: p + 2, tok: Tok::DivAssign }
            } else {
                Step::Word { start: p, end: p + 1, tok: Tok::Div }
            })
        }),
{
    lemma_keyword_at_slash(b, skip_filler(b, cur));
}

/// Skipping blanks never goes back.
pub proof fn lemma_skip_blank(b: Seq<u8>, i: int)
    requires
        0 <= i,
    ensures
        i <= skip_blank(b, i),
    decreases b.len() - i,
{
    if i < b.len() {
        let next = i + width_at(b, i);
        if next < b.len() {
            lemma_skip_blank(b, next);
        }
    }
}

/// A line ends at or behind where it is looked for.
pub proof fn lemma_line_end(b: Seq<u8>, i: int)
    requires
        0 <= i <= b.len(),
    ensures
        i <= line_end(b, i) <= b.len(),
    decreases b.len() - i,
{
    if i < b.len() && b[i] != 0x0a {
        lemma_line_end(b, i + 1);
    }
}

/// Skipping blanks and comments never goes back.
pub proof fn lemma_skip_filler(b: Seq<u8>, i: int)
    requires
        0 <= i,
    ensures
        i <= skip_filler(b, i),
    decreases b.len() - i,
{
    lemma_skip_blank(b, i);
    let j = skip_blank(b, i);
    if j < b.len() && b[j] == 0x23 {
        lemma_line_end(b, j + 1);
    }
    let k = skip_comment(b, j);
    if i < k <= b.len() {
        lemma_skip_filler(b, k);
    }
}

/// A literal is closed at or behind where it is looked for, within the
/// text.
pub proof fn lemma_literal_end(b: Seq<u8>, i: int, delim: u8, escaped: bool)
    requires
        0 <= i,
    ensures
        literal_end(b, i, delim, escaped) matches Some(e) ==> i <= e < b.len(),
    decreases b.len() - i,
{
    if i < b.len() {
        lemma_literal_end(b, i + 1, delim, false);
        lemma_literal_end(b, i + 1, delim, b[i] == 0x5c);
    }
}

/// An identifier ends at or behind where it is looked for.
pub proof fn lemma_ident_end(b: Seq<u8>, i: int)
    requires
        0 <= i,
    ensures
        i <= ident_end(b, i),
    decreases b.len() - i,
{
    if i < b.len() && i + width_at(b, i) <= b.len() {
        lemma_ident_end(b, i + width_at(b, i));
    }
}

/// A keyword takes at least one byte, within the text.
pub proof fn lemma_keyword_within(b: Seq<u8>, i: int, k: int)
    requires
        0 <= k,
    ensures
        keyword_from(b, i, k) matches Some(w) ==> 1 <= w.1 && i + w.1 <= b.len(),
    decreases KEYWORDS - k,
{
    if k < KEYWORDS {
        if word_at(b, i, keyword_table(k).0) {
            lemma_slash_words(k);
        } else {
            lemma_keyword_within(b, i, k + 1);
        }
    }
}

/// Whether a step lies at or behind `cur`, with its pieces in order: the
/// token does not start before `cur`, and the text that it carries lies
/// within it.
pub open spec fn in_order(s: Step, cur: int) -> bool {
    match s {
        Step::Done { at } => cur <= at,
        Step::Unclosed { at, .. } => cur < at,
        Step::Word { start, end, .. } => cur <= start < end,
        Step::Piece { start, end, lo, hi, .. } => cur <= start <= lo <= hi <= end && start < end,
    }
}

/// A token starts at or behind the position from which it was looked for
/// and takes at least one byte, and the text that it carries lies within
/// it.
pub proof fn lemma_step_in_order(b: Seq<u8>, cur: int, regex_ok: bool)
    requires
        0 <= cur,
    ensures
        in_order(step(b, cur, regex_ok), cur),
{
    lemma_skip_filler(b, cur);
    let p = skip_filler(b, cur);
    if p < b.len() {
        lemma_literal_end(b, p + 1, 0x22, false);
        lemma_literal_end(b, p + 1, 0x2f, false);
        lemma_keyword_within(b, p, 0);
        lemma_ident_end(b, p + width_at(b, p));
    }
}

/// Where a token ends.
pub open spec fn token_end(s: Step) -> int {
    match s {
        Step::Word { end, .. } => end,
        Step::Piece { end, .. } => end,
        _ => 0,
    }
}

/// Tokens are not empty and do not overlap: a token, with the text that it
/// carries, ends before the token behind it starts, whatever the two
/// tokens are.
pub proof fn lemma_tokens_in_order(b: Seq<u8>, cur: int, regex_ok: bool, regex_next: bool)
    requires
        0 <= cur,
        step(b, cur, regex_ok) is Word || step(b, cur, regex_ok) is Piece,
    ensures
        in_order(step(b, cur, regex_ok), cur),
        in_order(
            step(b, token_end(step(b, cur, regex_ok)), regex_next),
            token_end(step(b, cur, regex_ok)),
        ),
{
    lemma_step_in_order(b, cur, regex_ok);
    lemma_step_in_order(b, token_end(step(b, cur, regex_ok)), regex_next);
}

/// A `/` divides exactly after an identifier, after a string, regex,
/// integer or float literal and after a closing parenthesis; at the start
/// of the text and after every other token it opens a regex literal.
pub proof fn lemma_regex_follows(prev: Option<Tok>)
    ensures
        !regex_follows(prev) <==> (prev matches Some(t) && (t is Ident || t is StrLit || t is PatLit
            || t is ILit || t is FLit || t is RParen)),
        regex_follows(None),
{
}

} // verus!
