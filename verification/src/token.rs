use crate::report::Report;
use crate::scan::{
    alphanumerics, digits, end_token, foreign, glyph_of, glyphs_of, is_whitespace_char, keyword,
    lemma_blank_source, lemma_foreign_character_reported, letters, scan_all, scan_from, symbol,
    unknown_text, Glyph,
};
use crate::text::{
    lemma_offset_is_boundary, lemma_offset_monotonic, offset, push_decimal, utf8_width,
};
use vstd::prelude::*;
use vstd::string::{StrSliceExecFns, StringExecFns, StringSliceAdditionalSpecFns};
use vstd::utf8::{
    decode_utf8, encode_utf8, encode_utf8_decode_utf8, encode_utf8_valid_utf8, is_char_boundary,
    is_char_boundary_iff_not_is_continuation_byte, is_char_boundary_start_end_of_seq, valid_utf8,
    valid_utf8_split,
};

verus! {

/// The kinds of terminal.
#[derive(Debug, Clone, Copy, PartialEq, Eq, Structural)]
pub enum TT {
    Eof,
    True,
    False,
    Identifier,
    Integer,
    Float,
    /// `+`
    Plus,
    /// `-`
    Minus,
    /// `*`
    Star,
    /// `/`
    Slash,
    /// `!`
    Bang,
    /// `=`
    Equal,
    /// `==`
    EqualEqual,
    /// `!=`
    BangEqual,
    /// `<`
    Lesser,
    /// `>`
    Greater,
    /// `<=`
    LesserEqual,
    /// `>=`
    GreaterEqual,
    /// `(`
    LParen,
    /// `)`
    RParen,
    /// `[`
    LBracket,
    /// `]`
    RBracket,
    /// `{`
    LBrace,
    /// `}`
    RBrace,
    /// `.`
    Dot,
    /// `,`
    Comma,
    /// `:`
    Colon,
    /// `;`
    SemiColon,
    Let,
    Mut,
    If,
    Else,
    For,
    While,
    Loop,
    Export,
    Struct,
    Module,
    Fn,
    /// `=>`
    EqualGreater,
}

impl TT {
    /// The name of the kind, as diagnostics print it.
    pub open spec fn name(self) -> Seq<char> {
        match self {
            TT::Eof => "Eof"@,
            TT::True => "True"@,
            TT::False => "False"@,
            TT::Identifier => "Identifier"@,
            TT::Integer => "Integer"@,
            TT::Float => "Float"@,
            TT::Plus => "Plus"@,
            TT::Minus => "Minus"@,
            TT::Star => "Star"@,
            TT::Slash => "Slash"@,
            TT::Bang => "Bang"@,
            TT::Equal => "Equal"@,
            TT::EqualEqual => "EqualEqual"@,
            TT::BangEqual => "BangEqual"@,
            TT::Lesser => "Lesser"@,
            TT::Greater => "Greater"@,
            TT::LesserEqual => "LesserEqual"@,
            TT::GreaterEqual => "GreaterEqual"@,
            TT::LParen => "LParen"@,
            TT::RParen => "RParen"@,
            TT::LBracket => "LBracket"@,
            TT::RBracket => "RBracket"@,
            TT::LBrace => "LBrace"@,
            TT::RBrace => "RBrace"@,
            TT::Dot => "Dot"@,
            TT::Comma => "Comma"@,
            TT::Colon => "Colon"@,
            TT::SemiColon => "SemiColon"@,
            TT::Let => "Let"@,
            TT::Mut => "Mut"@,
            TT::If => "If"@,
            TT::Else => "Else"@,
            TT::For => "For"@,
            TT::While => "While"@,
            TT::Loop => "Loop"@,
            TT::Export => "Export"@,
            TT::Struct => "Struct"@,
            TT::Module => "Module"@,
            TT::Fn => "Fn"@,
            TT::EqualGreater => "EqualGreater"@,
        }
    }

    /// The name of the kind, as diagnostics print it.
    pub fn label(self) -> (s: &'static str)
        ensures
            s@ == self.name(),
    {
        match self {
            TT::Eof => "Eof",
            TT::True => "True",
            TT::False => "False",
            TT::Identifier => "Identifier",
            TT::Integer => "Integer",
            TT::Float => "Float",
            TT::Plus => "Plus",
            TT::Minus => "Minus",
            TT::Star => "Star",
            TT::Slash => "Slash",
            TT::Bang => "Bang",
            TT::Equal => "Equal",
            TT::EqualEqual => "EqualEqual",
            TT::BangEqual => "BangEqual",
            TT::Lesser => "Lesser",
            TT::Greater => "Greater",
            TT::LesserEqual => "LesserEqual",
            TT::GreaterEqual => "GreaterEqual",
            TT::LParen => "LParen",
            TT::RParen => "RParen",
            TT::LBracket => "LBracket",
            TT::RBracket => "RBracket",
            TT::LBrace => "LBrace",
            TT::RBrace => "RBrace",
            TT::Dot => "Dot",
            TT::Comma => "Comma",
            TT::Colon => "Colon",
            TT::SemiColon => "SemiColon",
            TT::Let => "Let",
            TT::Mut => "Mut",
            TT::If => "If",
            TT::Else => "Else",
            TT::For => "For",
            TT::While => "While",
            TT::Loop => "Loop",
            TT::Export => "Export",
            TT::Struct => "Struct",
            TT::Module => "Module",
            TT::Fn => "Fn",
            TT::EqualGreater => "EqualGreater",
        }
    }
}

/// A terminal: its kind, and the half-open range of bytes of the source text
/// that it was read from.
#[derive(Debug, Clone, Copy)]
pub struct Token {
    pub kind: TT,
    pub src: (u32, u32),
}

impl Token {
    /// The token of the kind `kind` read from the bytes `src`.
    pub fn new(kind: TT, src: (u32, u32)) -> (t: Self)
        ensures
            t == (Token { kind, src }),
    {
        Self { kind, src }
    }

    /// The range lies inside the UTF-8 form of `text` and cuts no character.
    pub open spec fn within(self, text: Seq<char>) -> bool {
        let bytes = encode_utf8(text);
        &&& self.src.0 <= self.src.1 <= bytes.len()
        &&& is_char_boundary(bytes, self.src.0 as int)
        &&& is_char_boundary(bytes, self.src.1 as int)
    }

    /// The characters of `text` that the range covers.
    pub open spec fn slice(self, text: Seq<char>) -> Seq<char> {
        decode_utf8(encode_utf8(text).subrange(self.src.0 as int, self.src.1 as int))
    }

    /// The token as diagnostics print it: kind, then the range.
    pub open spec fn text(self) -> Seq<char> {
        "("@ + self.kind.name() + " : "@ + crate::text::decimal(self.src.0 as nat) + ".."@
            + crate::text::decimal(self.src.1 as nat) + ")"@
    }

    /// The token as diagnostics print it: kind, then the range.
    pub fn to_string(&self) -> (s: String)
        ensures
            s@ == self.text(),
    {
        let mut s = String::from_str("(");
        s.append(self.kind.label());
        s.append(" : ");
        push_decimal(&mut s, self.src.0 as u64);
        s.append("..");
        push_decimal(&mut s, self.src.1 as u64);
        s.append(")");
        s
    }
}

/// A token whose range runs from the offset of character `i` of `text` to
/// that of character `j` lies inside `text`, and covers the characters from
/// `i` up to `j`.
pub proof fn lemma_token_slice(text: Seq<char>, kind: TT, i: int, j: int)
    requires
        0 <= i <= j <= text.len(),
        encode_utf8(text).len() <= u32::MAX,
    ensures
        ({
            let token = Token { kind, src: (offset(text, i) as u32, offset(text, j) as u32) };
            &&& token.within(text)
            &&& token.slice(text) == text.subrange(i, j)
        }),
{
    lemma_offset_is_boundary(text, i);
    lemma_offset_is_boundary(text, j);
    lemma_offset_monotonic(text, i, j);
    crate::text::lemma_decoded_subrange(text, i, j);
}

/// A boundary of a text that lies in a prefix which itself ends at a
/// boundary is a boundary of that prefix.
proof fn lemma_boundary_in_prefix(bytes: Seq<u8>, a: int, b: int)
    requires
        valid_utf8(bytes),
        0 <= a <= b <= bytes.len(),
        is_char_boundary(bytes, a),
        is_char_boundary(bytes, b),
    ensures
        valid_utf8(bytes.subrange(0, b)),
        is_char_boundary(bytes.subrange(0, b), a),
{
    let head = bytes.subrange(0, b);
    valid_utf8_split(bytes, b);
    if a == b {
        is_char_boundary_start_end_of_seq(head);
    } else {
        is_char_boundary_iff_not_is_continuation_byte(bytes, a);
        is_char_boundary_iff_not_is_continuation_byte(head, a);
    }
}

/// The source text with the tokens read from it.
#[derive(Debug)]
pub struct TokenStream<'a> {
    pub src: &'a str,
    pub tokens: Vec<Token>,
}

impl<'a> TokenStream<'a> {
    /// The stream ends with the end-of-input token.
    pub open spec fn terminated(&self) -> bool {
        &&& self.tokens@.len() > 0
        &&& self.tokens@.last().kind == TT::Eof
    }

    /// The stream ends with the end-of-input token, and every token's range
    /// lies inside the source.
    pub open spec fn wf(&self) -> bool {
        &&& self.terminated()
        &&& forall|i: int|
            0 <= i < self.tokens@.len() ==> (#[trigger] self.tokens@[i]).within(self.src@)
    }

    /// The stream of the tokens `tokens`, read from `src`.
    pub fn new(src: &'a str, tokens: Vec<Token>) -> (stream: Self)
        ensures
            stream.src == src,
            stream.tokens == tokens,
    {
        Self { src, tokens }
    }

    /// The token at `index`.
    pub fn get(&self, index: usize) -> (token: &Token)
        requires
            index < self.tokens@.len(),
        ensures
            *token == self.tokens@[index as int],
    {
        &self.tokens[index]
    }

    /// The part of the source that `token` was read from.
    pub fn str_from(&self, token: &Token) -> (part: &str)
        requires
            token.within(self.src@),
        ensures
            part@ == token.slice(self.src@),
    {
        let from = token.src.0 as usize;
        let to = token.src.1 as usize;
        proof {
            encode_utf8_valid_utf8(self.src@);
            lemma_boundary_in_prefix(self.src.spec_bytes(), from as int, to as int);
        }
        let (head, _) = self.src.split_at(to);
        let (_, part) = head.split_at(from);
        proof {
            encode_utf8_decode_utf8(part@);
            assert(part.spec_bytes() =~= self.src.spec_bytes().subrange(from as int, to as int));
        }
        part
    }
}

/// The glyphs of `src`, one for each character.
pub fn classify(src: &str) -> (glyphs: Vec<Glyph>)
    ensures
        glyphs@ == glyphs_of(src@),
{
    let mut glyphs: Vec<Glyph> = Vec::new();
    for c in it: src.chars()
        invariant
            glyphs@ == glyphs_of(it.history()),
            it.seq() == src@,
    {
        let glyph = Glyph {
            c,
            whitespace: c.is_whitespace(),
            numeric: c.is_numeric(),
            alphabetic: c.is_alphabetic(),
        };
        proof {
            assert(glyph == glyph_of(c));
            assert(glyphs_of(it.history().push(c)) =~= glyphs@.push(glyph));
        }
        glyphs.push(glyph);
    }
    glyphs
}

/// The kind of the terminal that `c` is by itself, if it is one.
fn symbol_kind(c: char) -> (kind: Option<TT>)
    ensures
        kind == symbol(c),
{
    if c == '+' {
        Some(TT::Plus)
    } else if c == '-' {
        Some(TT::Minus)
    } else if c == '*' {
        Some(TT::Star)
    } else if c == '/' {
        Some(TT::Slash)
    } else if c == '(' {
        Some(TT::LParen)
    } else if c == ')' {
        Some(TT::RParen)
    } else if c == '[' {
        Some(TT::LBracket)
    } else if c == ']' {
        Some(TT::RBracket)
    } else if c == '{' {
        Some(TT::LBrace)
    } else if c == '}' {
        Some(TT::RBrace)
    } else if c == '.' {
        Some(TT::Dot)
    } else if c == ',' {
        Some(TT::Comma)
    } else if c == ':' {
        Some(TT::Colon)
    } else if c == ';' {
        Some(TT::SemiColon)
    } else {
        None
    }
}

/// Whether the glyphs from `from` up to `to` spell `word`.
fn spells(glyphs: &Vec<Glyph>, from: usize, to: usize, word: &str) -> (b: bool)
    requires
        from <= to <= glyphs@.len(),
    ensures
        b == (letters(glyphs@).subrange(from as int, to as int) == word@),
{
    let n = word.unicode_len();
    if to - from != n {
        return false;
    }
    let ghost part = letters(glyphs@).subrange(from as int, to as int);
    let mut i: usize = 0;
    while i < n
        invariant
            from + n == to <= glyphs@.len(),
            n == word@.len(),
            i <= n,
            part == letters(glyphs@).subrange(from as int, to as int),
            forall|k: int| 0 <= k < i ==> part[k] == word@[k],
        decreases n - i,
    {
        if glyphs[from + i].c != word.get_char(i) {
            assert(part[i as int] != word@[i as int]);
            return false;
        }
        i += 1;
    }
    assert(part =~= word@);
    true
}

/// The kind of the word that the glyphs from `from` up to `to` spell.
fn keyword_kind(glyphs: &Vec<Glyph>, from: usize, to: usize) -> (kind: TT)
    requires
        from <= to <= glyphs@.len(),
    ensures
        kind == keyword(letters(glyphs@).subrange(from as int, to as int)),
{
    if spells(glyphs, from, to, "true") {
        TT::True
    } else if spells(glyphs, from, to, "false") {
        TT::False
    } else if spells(glyphs, from, to, "if") {
        TT::If
    } else if spells(glyphs, from, to, "else") {
        TT::Else
    } else if spells(glyphs, from, to, "let") {
        TT::Let
    } else if spells(glyphs, from, to, "mut") {
        TT::Mut
    } else if spells(glyphs, from, to, "fn") {
        TT::Fn
    } else {
        TT::Identifier
    }
}

/// The diagnostic for a character that starts no terminal.
fn unknown_message(c: char, at: usize) -> (msg: String)
    ensures
        msg@ == unknown_text(c, at as nat),
{
    let mut msg = String::from_str("unknown character '");
    msg.push(c);
    msg.append("' at ");
    push_decimal(&mut msg, at as u64);
    msg
}

/// What a scan of `src`, seen as the glyphs `g`, has to give: the token
/// sequence if no diagnostic was recorded, else the diagnostics alone.
pub open spec fn scanned(src: &str, g: Seq<Glyph>, result: Result<TokenStream, Report>) -> bool {
    let all = scan_all(g);
    match result {
        Ok(stream) => {
            &&& all.errors.len() == 0
            &&& stream.src == src
            &&& stream.tokens@ == all.tokens
            &&& stream.wf()
        },
        Err(report) => {
            &&& all.errors.len() > 0
            &&& report.error_texts() == all.errors
            &&& report.warning_texts() == Seq::<Seq<char>>::empty()
        },
    }
}

/// A source that holds whitespace only is read to exactly one token, the
/// end-of-input token.
pub proof fn lemma_blank_source_read(src: &str, result: Result<TokenStream, Report>)
    requires
        scanned(src, glyphs_of(src@), result),
        forall|i: int| 0 <= i < src@.len() ==> is_whitespace_char(src@[i]),
    ensures
        result matches Ok(stream) && stream.tokens@ == seq![end_token()],
{
    lemma_blank_source(src@);
}

/// A source that holds a foreign character is read to no tokens, but to a
/// report with a diagnostic that names the character and the byte at which
/// it stands.
pub proof fn lemma_foreign_source_fails(src: &str, result: Result<TokenStream, Report>, k: int)
    requires
        scanned(src, glyphs_of(src@), result),
        0 <= k < src@.len(),
        foreign(glyph_of(src@[k])),
    ensures
        result matches Err(report) && report.error_texts().contains(
            unknown_text(src@[k], offset(src@, k)),
        ),
{
    lemma_foreign_character_reported(src@, k);
}

/// The scanner: the glyphs of the source, a position in them, and what was
/// read so far.
struct Tokenize<'a, 'g> {
    src: &'a str,
    glyphs: &'g Vec<Glyph>,
    tokens: Vec<Token>,
    report: Report,
    /// The byte at which the stretch being read starts.
    start: usize,
    /// The byte at which the next glyph starts.
    current: usize,
    /// The index of the glyph at which the stretch being read starts.
    first: usize,
    /// The index of the next glyph.
    index: usize,
}

impl<'a, 'g> Tokenize<'a, 'g> {
    /// The glyphs are those of the source, whose offsets fit a token's
    /// range; the byte positions are the offsets of the glyph positions; and
    /// every token read lies inside the source.
    spec fn wf(&self) -> bool {
        &&& letters(self.glyphs@) == self.src@
        &&& encode_utf8(self.src@).len() <= u32::MAX
        &&& self.first <= self.index <= self.glyphs@.len()
        &&& self.start == offset(self.src@, self.first as int)
        &&& self.current == offset(self.src@, self.index as int)
        &&& forall|i: int|
            0 <= i < self.tokens@.len() ==> (#[trigger] self.tokens@[i]).within(self.src@)
    }

    /// The two states read the same source and stand at the same place.
    spec fn same_place(&self, other: &Self) -> bool {
        &&& self.src == other.src
        &&& self.glyphs == other.glyphs
        &&& self.start == other.start
        &&& self.current == other.current
        &&& self.first == other.first
        &&& self.index == other.index
    }

    /// The two states hold the same tokens and diagnostics.
    spec fn same_output(&self, other: &Self) -> bool {
        &&& self.tokens@ == other.tokens@
        &&& self.report.error_texts() == other.report.error_texts()
        &&& self.report.warning_texts() == other.report.warning_texts()
    }

    /// Starts at the first glyph, with nothing read.
    fn new(src: &'a str, glyphs: &'g Vec<Glyph>) -> (state: Self)
        requires
            letters(glyphs@) == src@,
            encode_utf8(src@).len() <= u32::MAX,
        ensures
            state.wf(),
            state.src == src,
            state.glyphs == glyphs,
            state.index == 0,
            state.tokens@ == Seq::<Token>::empty(),
            state.report.error_texts() == Seq::<Seq<char>>::empty(),
            state.report.warning_texts() == Seq::<Seq<char>>::empty(),
    {
        Self { src, glyphs, tokens: Vec::new(), report: Report::new(), start: 0, current: 0, first: 0, index: 0 }
    }

    /// Steps over the next glyph.
    fn advance(&mut self)
        requires
            old(self).wf(),
            old(self).index < old(self).glyphs@.len(),
        ensures
            final(self).wf(),
            final(self).index == old(self).index + 1,
            final(self).src == old(self).src,
            final(self).glyphs == old(self).glyphs,
            final(self).start == old(self).start,
            final(self).first == old(self).first,
            final(self).same_output(old(self)),
    {
        let width = utf8_width(self.glyphs[self.index].c);
        let len = self.glyphs.len();
        proof {
            assert(self.index < len);
            lemma_offset_monotonic(self.src@, self.index + 1, self.glyphs@.len() as int);
            lemma_offset_is_boundary(self.src@, self.glyphs@.len() as int);
        }
        self.current = self.current + width;
        self.index = self.index + 1;
    }

    /// Steps over the numeric glyphs that follow.
    fn skip_digits(&mut self)
        requires
            old(self).wf(),
        ensures
            final(self).wf(),
            final(self).index == old(self).index + digits(old(self).glyphs@, old(self).index as int),
            final(self).src == old(self).src,
            final(self).glyphs == old(self).glyphs,
            final(self).start == old(self).start,
            final(self).first == old(self).first,
            final(self).same_output(old(self)),
    {
        while self.index < self.glyphs.len() && self.glyphs[self.index].numeric
            invariant
                self.wf(),
                self.index + digits(self.glyphs@, self.index as int) == old(self).index + digits(
                    old(self).glyphs@,
                    old(self).index as int,
                ),
                self.src == old(self).src,
                self.glyphs == old(self).glyphs,
                self.start == old(self).start,
                self.first == old(self).first,
                self.same_output(old(self)),
            decreases self.glyphs@.len() - self.index,
        {
            self.advance();
        }
    }

    /// Steps over the alphabetic and numeric glyphs that follow.
    fn skip_alphanumerics(&mut self)
        requires
            old(self).wf(),
        ensures
            final(self).wf(),
            final(self).index == old(self).index + alphanumerics(
                old(self).glyphs@,
                old(self).index as int,
            ),
            final(self).src == old(self).src,
            final(self).glyphs == old(self).glyphs,
            final(self).start == old(self).start,
            final(self).first == old(self).first,
            final(self).same_output(old(self)),
    {
        while self.index < self.glyphs.len() && (self.glyphs[self.index].alphabetic
            || self.glyphs[self.index].numeric)
            invariant
                self.wf(),
                self.index + alphanumerics(self.glyphs@, self.index as int) == old(self).index
                    + alphanumerics(old(self).glyphs@, old(self).index as int),
                self.src == old(self).src,
                self.glyphs == old(self).glyphs,
                self.start == old(self).start,
                self.first == old(self).first,
                self.same_output(old(self)),
            decreases self.glyphs@.len() - self.index,
        {
            self.advance();
        }
    }

    /// Adds the token of kind `kind` that the stretch being read makes.
    fn add(&mut self, kind: TT)
        requires
            old(self).wf(),
        ensures
            final(self).wf(),
            final(self).same_place(old(self)),
            final(self).tokens@ == old(self).tokens@.push(
                Token { kind, src: (old(self).start as u32, old(self).current as u32) },
            ),
            final(self).report.error_texts() == old(self).report.error_texts(),
            final(self).report.warning_texts() == old(self).report.warning_texts(),
    {
        proof {
            lemma_offset_is_boundary(self.src@, self.first as int);
            lemma_offset_is_boundary(self.src@, self.index as int);
            lemma_offset_monotonic(self.src@, self.first as int, self.index as int);
        }
        self.tokens.push(Token::new(kind, (self.start as u32, self.current as u32)));
    }

    /// Adds the end-of-input token.
    fn eof(&mut self)
        requires
            old(self).wf(),
        ensures
            final(self).wf(),
            final(self).same_place(old(self)),
            final(self).tokens@ == old(self).tokens@.push(end_token()),
            final(self).report.error_texts() == old(self).report.error_texts(),
            final(self).report.warning_texts() == old(self).report.warning_texts(),
    {
        proof {
            lemma_offset_is_boundary(self.src@, 0);
        }
        self.tokens.push(Token::new(TT::Eof, (0, 0)));
    }

    /// Reads the glyphs to their end.
    fn build(self) -> (result: Result<TokenStream<'a>, Report>)
        requires
            self.wf(),
            self.index == 0,
            self.tokens@ == Seq::<Token>::empty(),
            self.report.error_texts() == Seq::<Seq<char>>::empty(),
            self.report.warning_texts() == Seq::<Seq<char>>::empty(),
        ensures
            scanned(self.src, self.glyphs@, result),
    {
        let mut state = self;
        let ghost g = state.glyphs@;
        let ghost src = state.src;
        let ghost all = scan_all(g);
        assert(all.tokens =~= state.tokens@ + scan_from(g, 0).tokens);
        assert(all.errors =~= state.report.error_texts() + scan_from(g, 0).errors);
        while state.index < state.glyphs.len()
            invariant
                state.wf(),
                state.src == src,
                state.glyphs@ == g,
                all == scan_all(g),
                all.tokens == state.tokens@ + scan_from(g, state.index as int).tokens,
                all.errors == state.report.error_texts() + scan_from(g, state.index as int).errors,
                state.report.warning_texts() == Seq::<Seq<char>>::empty(),
            decreases g.len() - state.index,
        {
            let ghost i = state.index as int;
            let ghost tokens = state.tokens@;
            let ghost errors = state.report.error_texts();
            let ghost rest = scan_from(g, i + 1 + crate::scan::piece_at(g, i).more);
            let glyph = state.glyphs[state.index];
            state.start = state.current;
            state.first = state.index;
            state.advance();
            if glyph.whitespace {
            } else if let Some(kind) = symbol_kind(glyph.c) {
                state.add(kind);
                assert(tokens + (seq![state.tokens@.last()] + rest.tokens) =~= state.tokens@
                    + rest.tokens);
            } else if glyph.c == '=' {
                if state.index < state.glyphs.len() && state.glyphs[state.index].c == '=' {
                    state.advance();
                    state.add(TT::EqualEqual);
                } else if state.index < state.glyphs.len() && state.glyphs[state.index].c == '>' {
                    state.advance();
                    state.add(TT::EqualGreater);
                } else {
                    state.add(TT::Equal);
                }
                assert(tokens + (seq![state.tokens@.last()] + rest.tokens) =~= state.tokens@
                    + rest.tokens);
            } else if glyph.numeric {
                state.skip_digits();
                if state.index < state.glyphs.len() && state.glyphs[state.index].c == '.' {
                    state.advance();
                    state.skip_digits();
                    state.add(TT::Float);
                } else {
                    state.add(TT::Integer);
                }
                assert(tokens + (seq![state.tokens@.last()] + rest.tokens) =~= state.tokens@
                    + rest.tokens);
            } else if glyph.alphabetic {
                state.skip_alphanumerics();
                let kind = keyword_kind(state.glyphs, state.first, state.index);
                state.add(kind);
                assert(tokens + (seq![state.tokens@.last()] + rest.tokens) =~= state.tokens@
                    + rest.tokens);
            } else {
                state.report.error(unknown_message(glyph.c, state.start));
                assert(errors + (seq![state.report.error_texts().last()] + rest.errors)
                    =~= state.report.error_texts() + rest.errors);
            }
        }
        state.eof();
        assert(state.tokens@ =~= all.tokens);
        assert(state.report.error_texts() =~= all.errors);
        if state.report.ok() {
            Ok(TokenStream { src: state.src, tokens: state.tokens })
        } else {
            Err(state.report)
        }
    }
}

/// Whether the offsets of all bytes of `src` fit the range of a token.
pub fn addressable(src: &str) -> (b: bool)
    ensures
        b == (encode_utf8(src@).len() <= u32::MAX),
{
    src.as_bytes().len() <= 0xffff_ffff
}

/// Reads `src`, whose characters with their classes are `glyphs`, into
/// tokens.
pub fn scan<'a>(src: &'a str, glyphs: &Vec<Glyph>) -> (result: Result<TokenStream<'a>, Report>)
    requires
        letters(glyphs@) == src@,
        encode_utf8(src@).len() <= u32::MAX,
    ensures
        scanned(src, glyphs@, result),
{
    Tokenize::new(src, glyphs).build()
}

/// Reads `src` into tokens.
pub fn tokenize<'a>(src: &'a str) -> (result: Result<TokenStream<'a>, Report>)
    requires
        encode_utf8(src@).len() <= u32::MAX,
    ensures
        scanned(src, glyphs_of(src@), result),
{
    let glyphs = classify(src);
    assert(letters(glyphs@) =~= src@);
    scan(src, &glyphs)
}

} // verus!
