use frawk::lexer::Tok::{
    Add, Append, Assign, Begin, CallStart, Comma, Div, DivAssign, End, FLit, HexLit, ILit, Ident,
    If, In, Incr, LBrace, LParen, LT, LTE, Match, Newline, Next, NextFile, Not, NotMatch, PatLit,
    Prepare, Print, PrintLP, Printf, PrintfLP, RBrace, RParen, Semi, StrLit, Sub, EQ, GT, NEQ,
};
use frawk::lexer::grammar::Lexeme;
use frawk::lexer::{
    number_kind, parse_regex_literal, parse_string_literal, within_text, Loc, Spanned, Tok,
    Tokenizer,
};

fn lex_str<'b>(s: &'b str) -> Vec<Spanned<Tok<'b>>> {
    let mut tokenizer = Tokenizer::new(s);
    let mut res = Vec::new();
    while let Some(x) = tokenizer.next() {
        res.push(x.ok().unwrap());
    }
    res
}

fn toks<'b>(s: &'b str) -> Vec<Tok<'b>> {
    lex_str(s).into_iter().map(|x| x.1).collect()
}

#[test]
fn locations() {
    const TEXT: &'static str = r#"This is the first line
and the second
and the third"#;
    let tok = Tokenizer::new(TEXT);
    assert_eq!(
        tok.index_to_loc(4),
        Loc {
            line: 0,
            col: 4,
            offset: 4,
        }
    );
    assert_eq!(
        tok.index_to_loc(22),
        Loc {
            line: 0,
            col: 22,
            offset: 22,
        }
    );
    assert_eq!(
        tok.index_to_loc(23),
        Loc {
            line: 1,
            col: 0,
            offset: 23,
        }
    );
    let tok2 = Tokenizer::new("\nhello");
    assert_eq!(
        tok2.index_to_loc(0),
        Loc {
            line: 0,
            col: 0,
            offset: 0
        },
    );
    assert_eq!(
        tok2.index_to_loc(1),
        Loc {
            line: 1,
            col: 0,
            offset: 1
        },
    );
    assert_eq!(
        tok2.index_to_loc(2),
        Loc {
            line: 1,
            col: 1,
            offset: 2
        },
    );
}

#[test]
fn basic() {
    let toks = lex_str(
        r#" if (x == yzk){
            print x<y, y<=z, z;
        }"#,
    );
    assert_eq!(
        toks.into_iter().map(|x| x.1).collect::<Vec<_>>(),
        vec![
            If,
            LParen,
            Ident("x"),
            EQ,
            Ident("yzk"),
            RParen,
            LBrace,
            Newline,
            Print,
            Ident("x"),
            LT,
            Ident("y"),
            Comma,
            Ident("y"),
            LTE,
            Ident("z"),
            Comma,
            Ident("z"),
            Semi,
            Newline,
            RBrace
        ]
    );
}

#[test]
fn literals() {
    let toks =
        lex_str(r#" x="\"hi\tthere\n"; b   =/hows it \/going/; x="重庆辣子鸡"; c= 1 / 3.5 "#);
    let s1 = "\\\"hi\\tthere\\n";
    let s2 = "hows it \\/going";
    assert_eq!(
        toks.into_iter().map(|x| x.1).collect::<Vec<_>>(),
        vec![
            Ident("x"),
            Assign,
            StrLit(s1),
            Semi,
            Ident("b"),
            Assign,
            PatLit(s2),
            Semi,
            Ident("x"),
            Assign,
            StrLit("重庆辣子鸡"),
            Semi,
            Ident("c"),
            Assign,
            ILit("1"),
            Div,
            FLit("3.5"),
        ],
    );
    let mut buf = Vec::new();
    assert_eq!(parse_string_literal(s1, &mut buf), "\"hi\tthere\n");
    assert_eq!(parse_regex_literal(s2, &mut buf), "hows it /going");
}

#[test]
fn literals_without_spaces() {
    assert_eq!(
        toks(r#"x="\"hi\tthere\n"; b=/hows it \/going/; c=1/3.5"#),
        vec![
            Ident("x"),
            Assign,
            StrLit("\\\"hi\\tthere\\n"),
            Semi,
            Ident("b"),
            Assign,
            PatLit("hows it \\/going"),
            Semi,
            Ident("c"),
            Assign,
            ILit("1"),
            Div,
            FLit("3.5"),
        ]
    );
}

#[test]
fn utf8_is_preserved() {
    let text = "x=\"重庆辣子鸡\"";
    let spans = lex_str(text);
    assert_eq!(spans.len(), 3);
    match spans[2].1 {
        Tok::StrLit(s) => assert_eq!(s.as_bytes(), "重庆辣子鸡".as_bytes()),
        _ => panic!("expected a string literal"),
    }
    assert_eq!(spans[2].0.offset, 2);
    assert_eq!(spans[2].2.offset, text.len());
    let mut buf = Vec::new();
    assert_eq!(parse_string_literal("重庆辣子鸡", &mut buf), "重庆辣子鸡");
    assert_eq!(&buf[..], "重庆辣子鸡".as_bytes());
}

#[test]
fn slash_divides_after_an_operand() {
    assert_eq!(toks("x / 2"), vec![Ident("x"), Div, ILit("2")]);
    assert_eq!(toks("\"a\" / 2"), vec![StrLit("a"), Div, ILit("2")]);
    assert_eq!(toks("1.5 / 2"), vec![FLit("1.5"), Div, ILit("2")]);
    assert_eq!(toks("(x) / 2"), vec![LParen, Ident("x"), RParen, Div, ILit("2")]);
    assert_eq!(
        toks("x ~ /a/ / 2"),
        vec![Ident("x"), Match, PatLit("a"), Div, ILit("2")]
    );
    assert_eq!(toks("x /= 2"), vec![Ident("x"), DivAssign, ILit("2")]);
}

#[test]
fn slash_opens_a_regex_elsewhere() {
    assert_eq!(toks("/ab c/"), vec![PatLit("ab c")]);
    assert_eq!(toks("x = /y/"), vec![Ident("x"), Assign, PatLit("y")]);
    assert_eq!(toks("{ /y/ }"), vec![LBrace, PatLit("y"), RBrace]);
    assert_eq!(toks("0x1f /y/"), vec![HexLit("0x1f"), PatLit("y")]);
    assert_eq!(toks("f(/y/)"), vec![CallStart("f"), PatLit("y"), RParen]);
    assert_eq!(toks("a, /=/"), vec![Ident("a"), Comma, PatLit("=")]);
}

#[test]
fn tokens_do_not_overlap() {
    let text = "BEGIN { x = \"a\\\"b\"; y = /re/; z = f(x) + 0x10 - 2.5e3 } # done\n";
    let spans = lex_str(text);
    let mut prev_end = 0;
    for (start, tok, end) in spans.iter() {
        assert!(prev_end <= start.offset);
        assert!(start.offset <= end.offset);
        let carried = match tok {
            Tok::Ident(s)
            | Tok::StrLit(s)
            | Tok::PatLit(s)
            | Tok::CallStart(s)
            | Tok::ILit(s)
            | Tok::HexLit(s)
            | Tok::FLit(s) => s.len(),
            _ => 0,
        };
        assert!(start.offset + carried <= end.offset);
        prev_end = end.offset;
    }
    assert_eq!(prev_end, text.len());
}

#[test]
fn longest_keyword_wins() {
    assert_eq!(toks("a >> b > c"), vec![Ident("a"), Append, Ident("b"), GT, Ident("c")]);
    assert_eq!(toks("x++ + y"), vec![Ident("x"), Incr, Add, Ident("y")]);
    assert_eq!(toks("printf(x)"), vec![PrintfLP, Ident("x"), RParen]);
    assert_eq!(toks("printf (x)"), vec![Printf, LParen, Ident("x"), RParen]);
    assert_eq!(toks("print(x)"), vec![PrintLP, Ident("x"), RParen]);
    assert_eq!(toks("print x"), vec![Print, Ident("x")]);
    assert_eq!(toks("nextfile next"), vec![NextFile, Next]);
    assert_eq!(toks("a !~ b != c ! d"), vec![Ident("a"), NotMatch, Ident("b"), NEQ, Ident("c"), Not, Ident("d")]);
    assert_eq!(toks("PREPARE BEGIN END"), vec![Prepare, Begin, End]);
    assert_eq!(toks("a\r\nb"), vec![Ident("a"), Newline, Ident("b")]);
}

#[test]
fn keyword_in_needs_a_blank() {
    assert_eq!(toks("k in m"), vec![Ident("k"), In, Ident("m")]);
    assert_eq!(toks("k in\tm"), vec![Ident("k"), In, Ident("m")]);
    assert_eq!(toks("input"), vec![Ident("input")]);
    assert_eq!(toks("k in"), vec![Ident("k"), Ident("in")]);
}

#[test]
fn identifiers_and_calls() {
    assert_eq!(toks("_a1 b' c2("), vec![Ident("_a1"), Ident("b'"), CallStart("c2")]);
    assert_eq!(toks("f (x)"), vec![Ident("f"), LParen, Ident("x"), RParen]);
    assert_eq!(toks("été"), vec![Ident("été")]);
    assert_eq!(toks("aé(1)"), vec![CallStart("aé"), ILit("1"), RParen]);
    let spans = lex_str("aé(1)");
    assert_eq!(spans[0].0.offset, 0);
    assert_eq!(spans[0].2.offset, 4);
}

#[test]
fn numbers() {
    assert_eq!(toks("0x1F"), vec![HexLit("0x1F")]);
    assert_eq!(toks("-0Xab"), vec![Sub, HexLit("0Xab")]);
    assert_eq!(toks("= -0Xab"), vec![Assign, Sub, HexLit("0Xab")]);
    assert_eq!(toks("12"), vec![ILit("12")]);
    assert_eq!(toks(".5"), vec![FLit(".5")]);
    assert_eq!(toks("1.5e-3"), vec![FLit("1.5e-3")]);
    assert_eq!(toks("1."), vec![ILit("1")]);
    assert_eq!(toks("1 e"), vec![ILit("1"), Ident("e")]);
}

#[test]
fn comments_and_newlines() {
    assert_eq!(
        toks("a # the rest ; is skipped\nb"),
        vec![Ident("a"), Newline, Ident("b")]
    );
    assert_eq!(toks("a # no newline"), vec![Ident("a")]);
    assert_eq!(toks("  \t a  \n\n  b  "), vec![Ident("a"), Newline, Newline, Ident("b")]);
    assert_eq!(toks(""), vec![]);
    assert_eq!(toks("   "), vec![]);
    assert_eq!(toks("#\n"), vec![Newline]);
}

#[test]
fn stream_ends_where_no_token_starts() {
    assert_eq!(toks("a @ b"), vec![Ident("a")]);
    let mut t = Tokenizer::new("a @ b");
    assert!(t.next().is_some());
    assert!(t.next().is_none());
    assert!(t.next().is_none());
}

#[test]
fn unclosed_string_is_an_error() {
    let mut t = Tokenizer::new("x = \"abc\\\"");
    assert!(matches!(t.next(), Some(Ok((_, Tok::Ident("x"), _)))));
    assert!(matches!(t.next(), Some(Ok((_, Tok::Assign, _)))));
    match t.next() {
        Some(Err(e)) => {
            assert_eq!(e.desc, "incomplete string literal");
            assert_eq!(
                e.location,
                Loc {
                    line: 0,
                    col: 5,
                    offset: 5
                }
            );
        }
        _ => panic!("expected an error"),
    }
}

#[test]
fn unclosed_regex_is_an_error() {
    let mut t = Tokenizer::new("\n\n /abc\\/");
    assert!(matches!(t.next(), Some(Ok((_, Tok::Newline, _)))));
    assert!(matches!(t.next(), Some(Ok((_, Tok::Newline, _)))));
    match t.next() {
        Some(Err(e)) => {
            assert_eq!(e.desc, "incomplete regex literal");
            assert_eq!(
                e.location,
                Loc {
                    line: 2,
                    col: 2,
                    offset: 4
                }
            );
        }
        _ => panic!("expected an error"),
    }
}

#[test]
fn location_of_a_newline() {
    let tok = Tokenizer::new("ab\ncd\nef");
    assert_eq!(tok.index_to_loc(2), Loc { line: 0, col: 2, offset: 2 });
    assert_eq!(tok.index_to_loc(3), Loc { line: 1, col: 0, offset: 3 });
    assert_eq!(tok.index_to_loc(4), Loc { line: 1, col: 1, offset: 4 });
    assert_eq!(tok.index_to_loc(5), Loc { line: 1, col: 2, offset: 5 });
    assert_eq!(tok.index_to_loc(6), Loc { line: 2, col: 0, offset: 6 });
    assert_eq!(tok.index_to_loc(7), Loc { line: 2, col: 1, offset: 7 });
    let tok = Tokenizer::new("a\nb\nc");
    assert_eq!(tok.index_to_loc(1), Loc { line: 0, col: 1, offset: 1 });
    assert_eq!(tok.index_to_loc(3), Loc { line: 1, col: 1, offset: 3 });
}

#[test]
fn spans_carry_lines_and_columns() {
    let spans = lex_str("a\n  bc");
    assert_eq!(spans.len(), 3);
    assert_eq!(spans[0].0, Loc { line: 0, col: 0, offset: 0 });
    assert_eq!(spans[0].2, Loc { line: 0, col: 1, offset: 1 });
    assert_eq!(spans[2].0, Loc { line: 1, col: 2, offset: 4 });
    assert_eq!(spans[2].2, Loc { line: 1, col: 4, offset: 6 });
}

#[test]
fn string_escapes() {
    let mut buf = Vec::new();
    assert_eq!(
        parse_string_literal("\\a\\b\\f\\v\\\\\\n\\r\\t\\\"", &mut buf),
        "\u{07}\u{08}\u{0c}\u{0b}\\\n\r\t\""
    );
    assert_eq!(&buf[..], &[0x07, 0x08, 0x0c, 0x0b, b'\\', b'\n', b'\r', b'\t', b'"']);
    assert_eq!(parse_string_literal("\\x41\\q", &mut buf), "\\x41\\q");
    assert_eq!(parse_string_literal("\\é", &mut buf), "\\é");
    assert_eq!(parse_string_literal("abc\\", &mut buf), "abc");
    assert_eq!(parse_string_literal("", &mut buf), "");
    assert!(buf.is_empty());
}

#[test]
fn regex_escapes() {
    let mut buf = Vec::new();
    assert_eq!(parse_regex_literal("a\\/b\\.c\\\\d", &mut buf), "a/b\\.c\\\\d");
    assert_eq!(parse_regex_literal("ab/cd", &mut buf), "ab");
    assert_eq!(&buf[..], b"ab");
    assert_eq!(parse_regex_literal("\\é/", &mut buf), "\\é");
    assert_eq!(parse_regex_literal("x\\", &mut buf), "x");
}

#[test]
fn tokens_of_a_small_program() {
    assert_eq!(
        toks(" if (x == yzk){\n print x<y, y<=z, z;\n}"),
        vec![
            If,
            LParen,
            Ident("x"),
            EQ,
            Ident("yzk"),
            RParen,
            LBrace,
            Newline,
            Print,
            Ident("x"),
            LT,
            Ident("y"),
            Comma,
            Ident("y"),
            LTE,
            Ident("z"),
            Comma,
            Ident("z"),
            Semi,
            Newline,
            RBrace
        ]
    );
}

#[test]
fn every_token_takes_a_byte() {
    let text = "x = 0x1F + .5e3 - 12; /re/ ~ \"s\" y(1) in\n";
    let spans = lex_str(text);
    assert!(spans.len() > 10);
    for sp in &spans {
        assert!(sp.0.offset < sp.2.offset);
        assert!(sp.2.offset <= text.len());
    }
    for pair in spans.windows(2) {
        assert!(pair[0].2.offset <= pair[1].0.offset);
    }
}

#[test]
fn a_slash_after_the_start_opens_a_regex() {
    let mut tok = Tokenizer::new("/a/ / 2");
    assert!(tok.potential_re());
    assert!(matches!(tok.next(), Some(Ok((_, PatLit("a"), _)))));
    // After a regex literal a slash divides.
    assert!(!tok.potential_re());
    assert!(matches!(tok.next(), Some(Ok((_, Div, _)))));
    // After an operator it opens a regex literal again.
    assert!(tok.potential_re());
    assert!(matches!(tok.next(), Some(Ok((_, ILit("2"), _)))));
    assert!(!tok.potential_re());
}

#[test]
fn ascii_blanks_and_letters() {
    // The tab, the vertical tab, the form feed and the carriage return are
    // blanks; the newline is a token.
    assert_eq!(toks("a\t\u{b}\u{c}\r b"), vec![Ident("a"), Ident("b")]);
    assert_eq!(toks("a \n b"), vec![Ident("a"), Newline, Ident("b")]);
    // Letters, digits, the underscore and the apostrophe go on an
    // identifier; only a letter or the underscore starts one.
    assert_eq!(toks("_a1'z Z9"), vec![Ident("_a1'z"), Ident("Z9")]);
}

#[test]
fn a_number_is_the_first_match_that_is_not_empty() {
    // An empty match, and one that ends behind the text, is none.
    assert_eq!(within_text(Some((0, 0)), 5), None);
    assert_eq!(within_text(Some((2, 2)), 5), None);
    assert_eq!(within_text(Some((0, 6)), 5), None);
    assert_eq!(within_text(Some((0, 5)), 5), Some((0, 5)));
    assert_eq!(within_text(Some((1, 3)), 5), Some((1, 3)));
    assert_eq!(within_text(None, 5), None);
    // The hexadecimal pattern goes before the float, the float before the
    // integer.
    assert_eq!(
        number_kind(Some((0, 4)), Some((0, 2)), Some((0, 1))),
        Some((Lexeme::Hex, 0, 4))
    );
    assert_eq!(number_kind(None, Some((0, 3)), Some((0, 1))), Some((Lexeme::Float, 0, 3)));
    assert_eq!(number_kind(None, None, Some((0, 2))), Some((Lexeme::Int, 0, 2)));
    assert_eq!(number_kind(None, None, None), None);
    // In a text: `0x1` is hexadecimal though `0` is an integer, and `1.5`
    // is a float though `1` is an integer.
    assert_eq!(
        toks("0x1 1.5 7 +3 -.5"),
        vec![HexLit("0x1"), FLit("1.5"), ILit("7"), Add, ILit("3"), Sub, FLit(".5")]
    );
}
