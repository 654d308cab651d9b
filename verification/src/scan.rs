use crate::text::{decimal, offset};
use crate::token::{Token, TT};
use vstd::prelude::*;

verus! {

/// What `char::is_whitespace` returns for `c`: whether `c` has the Unicode
/// property `White_Space`.
pub uninterp spec fn is_whitespace_char(c: char) -> bool;

/// What `char::is_numeric` returns for `c`: whether `c` is of one of the
/// Unicode general categories for numbers.
pub uninterp spec fn is_numeric_char(c: char) -> bool;

/// What `char::is_alphabetic` returns for `c`: whether `c` has the Unicode
/// property `Alphabetic`.
pub uninterp spec fn is_alphabetic_char(c: char) -> bool;

/// Trusted: the result of `char::is_whitespace` depends on the character
/// alone. Nothing is claimed of what it is for a given character.
pub assume_specification[ char::is_whitespace ](c: char) -> (b: bool)
    ensures
        b == is_whitespace_char(c),
;

/// Trusted: the result of `char::is_numeric` depends on the character alone.
/// Nothing is claimed of what it is for a given character.
pub assume_specification[ char::is_numeric ](c: char) -> (b: bool)
    ensures
        b == is_numeric_char(c),
;

/// Trusted: the result of `char::is_alphabetic` depends on the character
/// alone. Nothing is claimed of what it is for a given character.
pub assume_specification[ char::is_alphabetic ](c: char) -> (b: bool)
    ensures
        b == is_alphabetic_char(c),
;

/// A character of the source together with the classes it belongs to.
#[derive(Debug, Clone, Copy, PartialEq, Eq, Structural)]
pub struct Glyph {
    pub c: char,
    pub whitespace: bool,
    pub numeric: bool,
    pub alphabetic: bool,
}

/// The glyph of a character, as the character classes of the standard
/// library see it.
pub open spec fn glyph_of(c: char) -> Glyph {
    Glyph {
        c,
        whitespace: is_whitespace_char(c),
        numeric: is_numeric_char(c),
        alphabetic: is_alphabetic_char(c),
    }
}

/// The glyphs of a text.
pub open spec fn glyphs_of(s: Seq<char>) -> Seq<Glyph> {
    Seq::new(s.len(), |i: int| glyph_of(s[i]))
}

/// The characters of a sequence of glyphs.
pub open spec fn letters(g: Seq<Glyph>) -> Seq<char> {
    Seq::new(g.len(), |i: int| g[i].c)
}

/// The kind of the terminal that `c` is by itself, if it is one. `=` is not
/// among them: what it is depends on the character after it.
pub open spec fn symbol(c: char) -> Option<TT> {
    if c == '+' {
        Some(TT::Plus)
    } else if c == '-' {
        Some(TT::Minus)
    } else if c == '*' {
        Some(TT::Star)
    } else if c == '/' {
        Some(TT::Slash)
    } else if c == '(' {
        Some(TT::LParen)
    } else if c == ')' {
        Some(TT::RParen)
    } else if c == '[' {
        Some(TT::LBracket)
    } else if c == ']' {
        Some(TT::RBracket)
    } else if c == '{' {
        Some(TT::LBrace)
    } else if c == '}' {
        Some(TT::RBrace)
    } else if c == '.' {
        Some(TT::Dot)
    } else if c == ',' {
        Some(TT::Comma)
    } else if c == ':' {
        Some(TT::Colon)
    } else if c == ';' {
        Some(TT::SemiColon)
    } else {
        None
    }
}

/// The kind of a word: that of the keyword it spells, else an identifier.
pub open spec fn keyword(word: Seq<char>) -> TT {
    if word == "true"@ {
        TT::True
    } else if word == "false"@ {
        TT::False
    } else if word == "if"@ {
        TT::If
    } else if word == "else"@ {
        TT::Else
    } else if word == "let"@ {
        TT::Let
    } else if word == "mut"@ {
        TT::Mut
    } else if word == "fn"@ {
        TT::Fn
    } else {
        TT::Identifier
    }
}

/// The number of numeric glyphs in a row from index `i` on.
pub open spec fn digits(g: Seq<Glyph>, i: int) -> nat
    decreases g.len() - i,
{
    if 0 <= i < g.len() && g[i].numeric {
        1 + digits(g, i + 1)
    } else {
        0
    }
}

/// The number of alphabetic or numeric glyphs in a row from index `i` on.
pub open spec fn alphanumerics(g: Seq<Glyph>, i: int) -> nat
    decreases g.len() - i,
{
    if 0 <= i < g.len() && (g[i].alphabetic || g[i].numeric) {
        1 + alphanumerics(g, i + 1)
    } else {
        0
    }
}

/// What a stretch of the source is.
pub enum Lexeme {
    /// Whitespace, which leaves no token.
    Blank,
    /// A terminal of the given kind.
    Terminal(TT),
    /// A character that starts no terminal.
    Unknown,
}

/// The stretch of the source that starts at some glyph: what it is, and how
/// many glyphs it takes after the first.
pub struct Piece {
    pub what: Lexeme,
    pub more: nat,
}

/// The longest stretch that starts at glyph `i`.
pub open spec fn piece_at(g: Seq<Glyph>, i: int) -> Piece
    recommends
        0 <= i < g.len(),
{
    let c = g[i].c;
    if g[i].whitespace {
        Piece { what: Lexeme::Blank, more: 0 }
    } else if symbol(c) is Some {
        Piece { what: Lexeme::Terminal(symbol(c).unwrap()), more: 0 }
    } else if c == '=' {
        if i + 1 < g.len() && g[i + 1].c == '=' {
            Piece { what: Lexeme::Terminal(TT::EqualEqual), more: 1 }
        } else if i + 1 < g.len() && g[i + 1].c == '>' {
            Piece { what: Lexeme::Terminal(TT::EqualGreater), more: 1 }
        } else {
            Piece { what: Lexeme::Terminal(TT::Equal), more: 0 }
        }
    } else if g[i].numeric {
        let whole = digits(g, i + 1);
        let dot = i + 1 + whole;
        if dot < g.len() && g[dot].c == '.' {
            Piece { what: Lexeme::Terminal(TT::Float), more: whole + 1 + digits(g, dot + 1) }
        } else {
            Piece { what: Lexeme::Terminal(TT::Integer), more: whole }
        }
    } else if g[i].alphabetic {
        let more = alphanumerics(g, i + 1);
        Piece { what: Lexeme::Terminal(keyword(letters(g).subrange(i, i + 1 + more))), more }
    } else {
        Piece { what: Lexeme::Unknown, more: 0 }
    }
}

/// The diagnostic for a character that starts no terminal, found at byte
/// `at` of the source.
pub open spec fn unknown_text(c: char, at: nat) -> Seq<char> {
    "unknown character '"@.push(c) + "' at "@ + decimal(at)
}

/// The token that ends every token sequence.
pub open spec fn end_token() -> Token {
    Token { kind: TT::Eof, src: (0, 0) }
}

/// What scanning gives: the tokens and the diagnostics, each in source
/// order.
pub struct Scanned {
    pub tokens: Seq<Token>,
    pub errors: Seq<Seq<char>>,
}

/// How many items of `s` lie at index `i` or after it.
pub open spec fn ahead<T>(s: Seq<T>, i: int) -> nat {
    if i < s.len() {
        (s.len() - i) as nat
    } else {
        0
    }
}

/// The tokens and diagnostics of the glyphs from index `i` on, the final
/// end-of-input token included.
pub open spec fn scan_from(g: Seq<Glyph>, i: int) -> Scanned
    decreases ahead(g, i),
{
    if i < 0 || i >= g.len() {
        Scanned { tokens: seq![end_token()], errors: seq![] }
    } else {
        let piece = piece_at(g, i);
        let next = i + 1 + piece.more;
        let rest = scan_from(g, next);
        match piece.what {
            Lexeme::Blank => rest,
            Lexeme::Terminal(kind) => {
                let token = Token {
                    kind,
                    src: (offset(letters(g), i) as u32, offset(letters(g), next) as u32),
                };
                Scanned { tokens: seq![token] + rest.tokens, errors: rest.errors }
            },
            Lexeme::Unknown => Scanned {
                tokens: rest.tokens,
                errors: seq![unknown_text(g[i].c, offset(letters(g), i))] + rest.errors,
            },
        }
    }
}

/// The tokens and diagnostics of a whole source.
pub open spec fn scan_all(g: Seq<Glyph>) -> Scanned {
    scan_from(g, 0)
}

/// What a scan that found only the end of the source gives.
pub open spec fn nothing_scanned() -> Scanned {
    Scanned { tokens: seq![end_token()], errors: seq![] }
}

/// Glyphs that are whitespace from index `i` on scan to the end-of-input
/// token alone.
proof fn lemma_blank_from(g: Seq<Glyph>, i: int)
    requires
        0 <= i,
        forall|k: int| i <= k < g.len() ==> g[k].whitespace,
    ensures
        scan_from(g, i) == nothing_scanned(),
    decreases ahead(g, i),
{
    if i < g.len() {
        lemma_blank_from(g, i + 1);
    }
}

/// A source that holds whitespace only scans to exactly one token, the
/// end-of-input token, and to no diagnostic.
pub proof fn lemma_blank_source(s: Seq<char>)
    requires
        forall|i: int| 0 <= i < s.len() ==> is_whitespace_char(s[i]),
    ensures
        scan_all(glyphs_of(s)) == nothing_scanned(),
{
    lemma_blank_from(glyphs_of(s), 0);
}

/// Glyphs that are all marked as whitespace scan to exactly one token, the
/// end-of-input token, and to no diagnostic.
pub proof fn lemma_blank_glyphs(g: Seq<Glyph>)
    requires
        forall|i: int| 0 <= i < g.len() ==> g[i].whitespace,
    ensures
        scan_all(g) == nothing_scanned(),
{
    lemma_blank_from(g, 0);
}

/// A glyph that no terminal can hold: it is no whitespace, digit or letter,
/// no symbol, and neither `=` nor the `>` that may follow it.
pub open spec fn foreign(g: Glyph) -> bool {
    &&& !g.whitespace
    &&& !g.numeric
    &&& !g.alphabetic
    &&& symbol(g.c) is None
    &&& g.c != '='
    &&& g.c != '>'
}

/// A run of numeric glyphs ends before a glyph that is not numeric.
proof fn lemma_digits_stop(g: Seq<Glyph>, i: int, k: int)
    requires
        0 <= i <= k < g.len(),
        !g[k].numeric,
    ensures
        i + digits(g, i) <= k,
    decreases k - i,
{
    if i < k && g[i].numeric {
        lemma_digits_stop(g, i + 1, k);
    }
}

/// A run of alphabetic and numeric glyphs ends before a glyph that is
/// neither.
proof fn lemma_alphanumerics_stop(g: Seq<Glyph>, i: int, k: int)
    requires
        0 <= i <= k < g.len(),
        !g[k].numeric,
        !g[k].alphabetic,
    ensures
        i + alphanumerics(g, i) <= k,
    decreases k - i,
{
    if i < k && (g[i].alphabetic || g[i].numeric) {
        lemma_alphanumerics_stop(g, i + 1, k);
    }
}

/// No stretch that starts before a foreign glyph reaches it.
proof fn lemma_piece_stops(g: Seq<Glyph>, i: int, k: int)
    requires
        0 <= i < k < g.len(),
        foreign(g[k]),
    ensures
        i + 1 + piece_at(g, i).more <= k,
{
    let c = g[i].c;
    if g[i].whitespace || symbol(c) is Some || c == '=' {
    } else if g[i].numeric {
        lemma_digits_stop(g, i + 1, k);
        let dot = i + 1 + digits(g, i + 1);
        if dot < g.len() && g[dot].c == '.' {
            lemma_digits_stop(g, dot + 1, k);
        }
    } else if g[i].alphabetic {
        lemma_alphanumerics_stop(g, i + 1, k);
    }
}

/// The scan from a stretch's start at or before a foreign glyph records
/// the diagnostic for that glyph.
proof fn lemma_foreign_from(g: Seq<Glyph>, i: int, k: int)
    requires
        0 <= i <= k < g.len(),
        foreign(g[k]),
    ensures
        scan_from(g, i).errors.contains(unknown_text(g[k].c, offset(letters(g), k))),
    decreases k - i,
{
    let msg = unknown_text(g[k].c, offset(letters(g), k));
    let piece = piece_at(g, i);
    let rest = scan_from(g, i + 1 + piece.more);
    if i == k {
        assert(scan_from(g, i).errors[0] == msg);
    } else {
        lemma_piece_stops(g, i, k);
        lemma_foreign_from(g, i + 1 + piece.more, k);
        let j = choose|j: int| 0 <= j < rest.errors.len() && rest.errors[j] == msg;
        match piece.what {
            Lexeme::Unknown => {
                assert(scan_from(g, i).errors[j + 1] == msg);
            },
            _ => {
                assert(scan_from(g, i).errors[j] == msg);
            },
        }
    }
}

/// Glyphs among which one is foreign scan to a diagnostic that names its
/// character and the byte at which it stands.
pub proof fn lemma_foreign_glyph_reported(g: Seq<Glyph>, k: int)
    requires
        0 <= k < g.len(),
        foreign(g[k]),
    ensures
        scan_all(g).errors.contains(unknown_text(g[k].c, offset(letters(g), k))),
        scan_all(g).errors.len() > 0,
{
    lemma_foreign_from(g, 0, k);
}

/// A source that holds a foreign character scans to a diagnostic that names
/// the character and the byte at which it stands.
pub proof fn lemma_foreign_character_reported(s: Seq<char>, k: int)
    requires
        0 <= k < s.len(),
        foreign(glyph_of(s[k])),
    ensures
        scan_all(glyphs_of(s)).errors.contains(unknown_text(s[k], offset(s, k))),
        scan_all(glyphs_of(s)).errors.len() > 0,
{
    assert(letters(glyphs_of(s)) =~= s);
    lemma_foreign_glyph_reported(glyphs_of(s), k);
}

} // verus!
