use frontend::report::Report;
use frontend::scan::Glyph;
use frontend::token::{addressable, classify, scan, tokenize, Token, TokenStream, TT};

fn kinds(stream: &TokenStream) -> Vec<TT> {
    stream.tokens.iter().map(|v| v.kind).collect()
}

fn slices<'a>(stream: &'a TokenStream<'a>) -> Vec<&'a str> {
    stream.tokens.iter().map(|v| stream.str_from(v)).collect()
}

fn spans(stream: &TokenStream) -> Vec<(u32, u32)> {
    stream.tokens.iter().map(|v| v.src).collect()
}

fn errors(report: &Report) -> Vec<String> {
    report.errors().clone()
}

#[test]
fn symbols() {
    let src = "+ - * / = ==";
    let tokens = tokenize(src).unwrap();
    assert_eq!(
        tokens.tokens.iter().map(|v| v.kind).collect::<Vec<_>>(),
        vec![
            TT::Plus,
            TT::Minus,
            TT::Star,
            TT::Slash,
            TT::Equal,
            TT::EqualEqual,
            TT::Eof,
        ],
    );
}

#[test]
fn numbers() {
    let src = "1 10 100 1. 1.0 100.000";
    let tokens = tokenize(src).unwrap();
    assert_eq!(
        tokens.tokens.iter().map(|v| v.kind).collect::<Vec<_>>(),
        vec![
            TT::Integer,
            TT::Integer,
            TT::Integer,
            TT::Float,
            TT::Float,
            TT::Float,
            TT::Eof
        ],
    );
}

#[test]
fn get() {
    let src = "+ - * / 100 1 1.0 1. 10.00";
    let tokens = tokenize(src).unwrap();
    assert_eq!(
        tokens.tokens.iter().map(|v| tokens.str_from(v)).collect::<Vec<_>>(),
        vec!["+", "-", "*", "/", "100", "1", "1.0", "1.", "10.00", ""],
    );
}

#[test]
fn empty_source_is_one_end_token() {
    let tokens = tokenize("").unwrap();
    assert_eq!(kinds(&tokens), vec![TT::Eof]);
    assert_eq!(spans(&tokens), vec![(0, 0)]);
}

#[test]
fn whitespace_only_is_one_end_token() {
    for src in [" ", "   ", "\t\n\r ", "\u{a0}\u{2003}\u{3000}", "\n\n\n\n"] {
        let tokens = tokenize(src).unwrap();
        assert_eq!(kinds(&tokens), vec![TT::Eof]);
        assert_eq!(spans(&tokens), vec![(0, 0)]);
    }
}

#[test]
fn every_single_character_symbol() {
    let tokens = tokenize("+-*/()[]{}.,:;").unwrap();
    assert_eq!(
        kinds(&tokens),
        vec![
            TT::Plus,
            TT::Minus,
            TT::Star,
            TT::Slash,
            TT::LParen,
            TT::RParen,
            TT::LBracket,
            TT::RBracket,
            TT::LBrace,
            TT::RBrace,
            TT::Dot,
            TT::Comma,
            TT::Colon,
            TT::SemiColon,
            TT::Eof,
        ],
    );
    let expected: Vec<(u32, u32)> = (0..14).map(|i| (i, i + 1)).chain([(0, 0)]).collect();
    assert_eq!(spans(&tokens), expected);
}

#[test]
fn equal_looks_one_character_ahead() {
    let tokens = tokenize("= == => === =>= =").unwrap();
    assert_eq!(
        kinds(&tokens),
        vec![
            TT::Equal,
            TT::EqualEqual,
            TT::EqualGreater,
            TT::EqualEqual,
            TT::Equal,
            TT::EqualGreater,
            TT::Equal,
            TT::Equal,
            TT::Eof,
        ],
    );
    assert_eq!(
        spans(&tokens),
        vec![(0, 1), (2, 4), (5, 7), (8, 10), (10, 11), (12, 14), (14, 15), (16, 17), (0, 0)],
    );
}

#[test]
fn greater_is_read_only_after_equal() {
    let report = tokenize("==>").unwrap_err();
    assert_eq!(errors(&report), vec!["unknown character '>' at 2".to_string()]);
    let tokens = tokenize("=>").unwrap();
    assert_eq!(kinds(&tokens), vec![TT::EqualGreater, TT::Eof]);
}

#[test]
fn keywords_and_identifiers() {
    let tokens = tokenize("true false if else let mut fn truth iff lets x1 fn2").unwrap();
    assert_eq!(
        kinds(&tokens),
        vec![
            TT::True,
            TT::False,
            TT::If,
            TT::Else,
            TT::Let,
            TT::Mut,
            TT::Fn,
            TT::Identifier,
            TT::Identifier,
            TT::Identifier,
            TT::Identifier,
            TT::Identifier,
            TT::Eof,
        ],
    );
    assert_eq!(
        slices(&tokens),
        vec![
            "true", "false", "if", "else", "let", "mut", "fn", "truth", "iff", "lets", "x1", "fn2",
            ""
        ],
    );
}

#[test]
fn words_that_are_no_keywords_of_the_scanner() {
    let tokens = tokenize("for while loop export struct module").unwrap();
    assert_eq!(
        kinds(&tokens),
        vec![
            TT::Identifier,
            TT::Identifier,
            TT::Identifier,
            TT::Identifier,
            TT::Identifier,
            TT::Identifier,
            TT::Eof,
        ],
    );
}

#[test]
fn number_then_word_without_space() {
    let tokens = tokenize("1a a1 1.a 1.5.2").unwrap();
    assert_eq!(
        kinds(&tokens),
        vec![
            TT::Integer,
            TT::Identifier,
            TT::Identifier,
            TT::Float,
            TT::Identifier,
            TT::Float,
            TT::Dot,
            TT::Integer,
            TT::Eof,
        ],
    );
    assert_eq!(slices(&tokens), vec!["1", "a", "a1", "1.", "a", "1.5", ".", "2", ""]);
}

#[test]
fn float_with_a_trailing_dot() {
    let tokens = tokenize("7.").unwrap();
    assert_eq!(kinds(&tokens), vec![TT::Float, TT::Eof]);
    assert_eq!(spans(&tokens), vec![(0, 2), (0, 0)]);
}

#[test]
fn leading_dot_is_a_dot() {
    let tokens = tokenize(".5").unwrap();
    assert_eq!(kinds(&tokens), vec![TT::Dot, TT::Integer, TT::Eof]);
}

#[test]
fn spans_are_byte_offsets() {
    let src = "é = 1";
    let tokens = tokenize(src).unwrap();
    assert_eq!(kinds(&tokens), vec![TT::Identifier, TT::Equal, TT::Integer, TT::Eof]);
    assert_eq!(spans(&tokens), vec![(0, 2), (3, 4), (5, 6), (0, 0)]);
    assert_eq!(slices(&tokens), vec!["é", "=", "1", ""]);
}

#[test]
fn spans_after_wide_characters() {
    let src = "\u{3000}京都 + 𝒳";
    let tokens = tokenize(src).unwrap();
    assert_eq!(kinds(&tokens), vec![TT::Identifier, TT::Plus, TT::Identifier, TT::Eof]);
    assert_eq!(spans(&tokens), vec![(3, 9), (10, 11), (12, 16), (0, 0)]);
    assert_eq!(slices(&tokens), vec!["京都", "+", "𝒳", ""]);
}

#[test]
fn digits_of_other_scripts_are_numeric() {
    let src = "٣٤ ①";
    let tokens = tokenize(src).unwrap();
    assert_eq!(kinds(&tokens), vec![TT::Integer, TT::Integer, TT::Eof]);
    assert_eq!(slices(&tokens), vec!["٣٤", "①", ""]);
}

#[test]
fn a_letter_number_starts_a_number() {
    let tokens = tokenize("Ⅷ xⅧ").unwrap();
    assert_eq!(kinds(&tokens), vec![TT::Integer, TT::Identifier, TT::Eof]);
    assert_eq!(slices(&tokens), vec!["Ⅷ", "xⅧ", ""]);
}

#[test]
fn unknown_character_is_reported() {
    let report = tokenize("#").unwrap_err();
    assert!(!report.ok());
    assert_eq!(errors(&report), vec!["unknown character '#' at 0".to_string()]);
    assert!(report.warnings().is_empty());
}

#[test]
fn every_unknown_character_is_reported() {
    let report = tokenize("1 # 2 $\n@").unwrap_err();
    assert_eq!(
        errors(&report),
        vec![
            "unknown character '#' at 2".to_string(),
            "unknown character '$' at 6".to_string(),
            "unknown character '@' at 8".to_string(),
        ],
    );
}

#[test]
fn unknown_character_offset_is_in_bytes() {
    let report = tokenize("é #").unwrap_err();
    assert_eq!(errors(&report), vec!["unknown character '#' at 3".to_string()]);
    let report = tokenize("x = 1234567890 ?").unwrap_err();
    assert_eq!(errors(&report), vec!["unknown character '?' at 15".to_string()]);
}

#[test]
fn operators_that_the_scanner_does_not_read() {
    for (src, c) in [("!", '!'), ("<", '<'), (">", '>'), ("\"", '"'), ("_", '_')] {
        let report = tokenize(src).unwrap_err();
        assert_eq!(errors(&report), vec![format!("unknown character '{}' at 0", c)]);
    }
}

#[test]
fn no_tokens_come_with_a_failing_report() {
    assert!(tokenize("let x = 1 #").is_err());
    assert!(tokenize("let x = 1").is_ok());
}

#[test]
fn classify_gives_each_character_its_classes() {
    let glyphs = classify(" 1aé+");
    assert_eq!(
        glyphs,
        vec![
            Glyph { c: ' ', whitespace: true, numeric: false, alphabetic: false },
            Glyph { c: '1', whitespace: false, numeric: true, alphabetic: false },
            Glyph { c: 'a', whitespace: false, numeric: false, alphabetic: true },
            Glyph { c: 'é', whitespace: false, numeric: false, alphabetic: true },
            Glyph { c: '+', whitespace: false, numeric: false, alphabetic: false },
        ],
    );
}

#[test]
fn scan_goes_by_the_classes_given() {
    let src = "a1";
    let honest = classify(src);
    let tokens = scan(src, &honest).unwrap();
    assert_eq!(kinds(&tokens), vec![TT::Identifier, TT::Eof]);
    assert_eq!(spans(&tokens), vec![(0, 2), (0, 0)]);

    let plain = vec![
        Glyph { c: 'a', whitespace: false, numeric: false, alphabetic: true },
        Glyph { c: '1', whitespace: false, numeric: false, alphabetic: false },
    ];
    let report = scan(src, &plain).unwrap_err();
    assert_eq!(errors(&report), vec!["unknown character '1' at 1".to_string()]);

    let blank = vec![
        Glyph { c: 'a', whitespace: true, numeric: false, alphabetic: true },
        Glyph { c: '1', whitespace: true, numeric: true, alphabetic: false },
    ];
    let tokens = scan(src, &blank).unwrap();
    assert_eq!(kinds(&tokens), vec![TT::Eof]);
}

#[test]
fn token_as_text() {
    assert_eq!(Token::new(TT::Plus, (0, 1)).to_string(), "(Plus : 0..1)");
    assert_eq!(Token::new(TT::Eof, (0, 0)).to_string(), "(Eof : 0..0)");
    assert_eq!(
        Token::new(TT::EqualGreater, (120, 4294967295)).to_string(),
        "(EqualGreater : 120..4294967295)"
    );
}

#[test]
fn kind_labels() {
    assert_eq!(TT::Eof.label(), "Eof");
    assert_eq!(TT::SemiColon.label(), "SemiColon");
    assert_eq!(TT::GreaterEqual.label(), "GreaterEqual");
    assert_eq!(TT::Fn.label(), "Fn");
}

#[test]
fn stream_accessors() {
    let src = "a + b";
    let stream = TokenStream::new(
        src,
        vec![
            Token::new(TT::Identifier, (0, 1)),
            Token::new(TT::Plus, (2, 3)),
            Token::new(TT::Identifier, (4, 5)),
            Token::new(TT::Eof, (0, 0)),
        ],
    );
    assert_eq!(stream.get(1).kind, TT::Plus);
    assert_eq!(stream.get(2).src, (4, 5));
    assert_eq!(stream.str_from(stream.get(2)), "b");
    assert_eq!(stream.str_from(&Token::new(TT::Identifier, (0, 5))), "a + b");
    assert_eq!(stream.str_from(&Token::new(TT::Identifier, (5, 5))), "");
}

#[test]
fn addressable_sources() {
    assert!(addressable(""));
    assert!(addressable("let x = 1"));
    assert!(addressable("京都"));
}
