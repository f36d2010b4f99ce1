use vstd::prelude::*;
use crate::text::{alphabetic, numeric, is_alphabetic, is_numeric, string_from_range, range_is_word};

verus! {

/// The kind of a lexical token.
#[derive(Debug, PartialEq, Eq, Structural, Copy, Clone)]
pub enum TokenType {
    LeftParen,
    RightParen,
    LeftBrace,
    RightBrace,
    Comma,
    Dot,
    Minus,
    Plus,
    Semicolon,
    Percent,
    Slash,
    Star,
    Bang,
    BangEqual,
    Equal,
    EqualEqual,
    Greater,
    GreaterEqual,
    Less,
    LessEqual,
    Identifier,
    String,
    Number,
    And,
    Class,
    Else,
    False,
    Fun,
    For,
    If,
    Nil,
    Or,
    Print,
    Return,
    Super,
    This,
    True,
    Var,
    While,
    /// Marks the end of a program; a scan yields none.
    EOF,
    /// White space; a scan yields none.
    Space,
}


/// A lexical token: its kind, its text and the line it starts on.
#[derive(Debug, PartialEq)]
pub struct Token {
    pub token_type: TokenType,
    pub value: String,
    pub line: usize,
}

/// The mathematical value of a token.
pub struct TokenView {
    pub token_type: TokenType,
    pub value: Seq<char>,
    pub line: nat,
}

impl View for Token {
    type V = TokenView;

    open spec fn view(&self) -> TokenView {
        TokenView { token_type: self.token_type, value: self.value@, line: self.line as nat }
    }
}

impl Clone for Token {
    fn clone(&self) -> (t: Token)
        ensures
            t == *self,
    {
        Token { token_type: self.token_type, value: self.value.clone(), line: self.line }
    }
}

/// The views of a sequence of tokens.
pub open spec fn token_views(tokens: Seq<Token>) -> Seq<TokenView> {
    tokens.map_values(|t: Token| t@)
}

impl Token {
    /// A token of the kind `token_type` with the text `value` on the line
    /// `line`.
    pub fn new(token_type: TokenType, value: String, line: usize) -> (t: Token)
        ensures
            t.token_type == token_type,
            t.value == value,
            t.line == line,
    {
        Token { token_type, value, line }
    }

    /// A token on line 0.
    pub fn new_simple(token_type: TokenType, value: String) -> (t: Token)
        ensures
            t.token_type == token_type,
            t.value == value,
            t.line == 0,
    {
        Token { token_type, value, line: 0 }
    }
}

/// A string literal that is still open where the source ends.
#[derive(Debug, PartialEq, Eq, Structural, Copy, Clone)]
pub struct LexError {
    /// The line on which the literal opens.
    pub line: usize,
}

/// What scanning a source text yields: the tokens found, and the error that
/// stopped the scan early, if any.
pub struct ScanResult {
    pub tokens: Seq<TokenView>,
    pub error: Option<nat>,
}

/// The kind of the punctuation or white-space character `c`, if it is one.
/// White space is reported as `Space`.
pub open spec fn single_char_kind(c: char) -> Option<TokenType> {
    if c == '(' {
        Some(TokenType::LeftParen)
    } else if c == ')' {
        Some(TokenType::RightParen)
    } else if c == '{' {
        Some(TokenType::LeftBrace)
    } else if c == '}' {
        Some(TokenType::RightBrace)
    } else if c == ',' {
        Some(TokenType::Comma)
    } else if c == '.' {
        Some(TokenType::Dot)
    } else if c == '-' {
        Some(TokenType::Minus)
    } else if c == '+' {
        Some(TokenType::Plus)
    } else if c == ';' {
        Some(TokenType::Semicolon)
    } else if c == '*' {
        Some(TokenType::Star)
    } else if c == '%' {
        Some(TokenType::Percent)
    } else if c == ' ' || c == '\t' || c == '\n' {
        Some(TokenType::Space)
    } else {
        None
    }
}

/// The operator that starts at `pos` with one of `! = < >`: the two-character
/// form when the next character is `=`, else the one-character form.
pub open spec fn operator_kind(chars: Seq<char>, pos: int) -> Option<TokenType> {
    if !(0 <= pos < chars.len()) {
        None
    } else {
        let followed = pos + 1 < chars.len() && chars[pos + 1] == '=';
        let c = chars[pos];
        if c == '!' {
            Some(if followed { TokenType::BangEqual } else { TokenType::Bang })
        } else if c == '=' {
            Some(if followed { TokenType::EqualEqual } else { TokenType::Equal })
        } else if c == '<' {
            Some(if followed { TokenType::LessEqual } else { TokenType::Less })
        } else if c == '>' {
            Some(if followed { TokenType::GreaterEqual } else { TokenType::Greater })
        } else {
            None
        }
    }
}

/// How many characters an operator spans.
pub open spec fn operator_width(kind: TokenType) -> int {
    match kind {
        TokenType::BangEqual
        | TokenType::EqualEqual
        | TokenType::LessEqual
        | TokenType::GreaterEqual => 2,
        _ => 1,
    }
}

/// The keyword that `word` spells, or `Identifier`.
pub open spec fn keyword_kind(word: Seq<char>) -> TokenType {
    if word == "and"@ {
        TokenType::And
    } else if word == "class"@ {
        TokenType::Class
    } else if word == "else"@ {
        TokenType::Else
    } else if word == "fun"@ {
        TokenType::Fun
    } else if word == "for"@ {
        TokenType::For
    } else if word == "if"@ {
        TokenType::If
    } else if word == "nil"@ {
        TokenType::Nil
    } else if word == "or"@ {
        TokenType::Or
    } else if word == "print"@ {
        TokenType::Print
    } else if word == "return"@ {
        TokenType::Return
    } else if word == "super"@ {
        TokenType::Super
    } else if word == "this"@ {
        TokenType::This
    } else if word == "true"@ {
        TokenType::True
    } else if word == "false"@ {
        TokenType::False
    } else if word == "var"@ {
        TokenType::Var
    } else if word == "while"@ {
        TokenType::While
    } else {
        TokenType::Identifier
    }
}

/// Whether `c` can start an identifier.
pub open spec fn ident_start(c: char) -> bool {
    alphabetic(c) || c == '_'
}

/// Whether `c` can continue an identifier.
pub open spec fn ident_part(c: char) -> bool {
    alphabetic(c) || numeric(c) || c == '_'
}

/// The end of the longest run of identifier characters that starts at `pos`.
pub open spec fn ident_end(chars: Seq<char>, pos: int) -> int
    decreases chars.len() - pos,
{
    if 0 <= pos < chars.len() && ident_part(chars[pos]) {
        ident_end(chars, pos + 1)
    } else {
        pos
    }
}

/// The end of the longest run of numeric characters that starts at `pos`.
pub open spec fn number_end(chars: Seq<char>, pos: int) -> int
    decreases chars.len() - pos,
{
    if 0 <= pos < chars.len() && numeric(chars[pos]) {
        number_end(chars, pos + 1)
    } else {
        pos
    }
}

/// Where a line comment whose text starts at `pos` ends: at the next line
/// feed, which is left in place, or at the end of the source.
pub open spec fn comment_end(chars: Seq<char>, pos: int) -> int
    decreases chars.len() - pos,
{
    if 0 <= pos < chars.len() && chars[pos] != '\n' {
        comment_end(chars, pos + 1)
    } else {
        pos
    }
}

/// The position of the quote that closes a string literal whose text starts
/// at `pos`. A backslash takes the character after it into the literal, so
/// an escaped quote does not close it.
pub open spec fn string_close(chars: Seq<char>, pos: int) -> Option<int>
    decreases chars.len() - pos,
{
    if !(0 <= pos < chars.len()) {
        None
    } else if chars[pos] == '"' {
        Some(pos)
    } else if chars[pos] == '\\' && pos + 1 < chars.len() {
        string_close(chars, pos + 2)
    } else {
        string_close(chars, pos + 1)
    }
}

/// The number of line feeds in `chars[from..to]`.
pub open spec fn line_feeds(chars: Seq<char>, from: int, to: int) -> nat
    decreases to - from,
{
    if 0 <= from < to <= chars.len() {
        line_feeds(chars, from, to - 1) + if chars[to - 1] == '\n' { 1nat } else { 0nat }
    } else {
        0
    }
}

/// One token ahead of the rest of a scan.
pub open spec fn token_then(token: TokenView, rest: ScanResult) -> ScanResult {
    ScanResult { tokens: seq![token] + rest.tokens, error: rest.error }
}

/// The tokens of `chars` from `pos` on, when the line counter stands at `line`.
///
/// White space is skipped and a line feed advances the line counter; `//`
/// starts a comment that runs to the end of the line; punctuation and
/// operators become tokens of their own; a run of identifier characters is a
/// keyword or an identifier; a run of numeric characters is a number; a
/// quoted text is a string token that carries the text without its quotes and
/// the line it opens on. A string that is never closed ends the scan with an
/// error. Any other character is skipped.
pub open spec fn scan(chars: Seq<char>, pos: int, line: nat) -> ScanResult
    decreases chars.len() - pos,
{
    if !(0 <= pos < chars.len()) {
        ScanResult { tokens: Seq::empty(), error: None }
    } else {
        let c = chars[pos];
        if c == '\n' {
            scan(chars, pos + 1, line + 1)
        } else if single_char_kind(c) == Some(TokenType::Space) {
            scan(chars, pos + 1, line)
        } else if single_char_kind(c) is Some {
            token_then(
                TokenView {
                    token_type: single_char_kind(c)->0,
                    value: chars.subrange(pos, pos + 1),
                    line,
                },
                scan(chars, pos + 1, line),
            )
        } else if operator_kind(chars, pos) is Some {
            let kind = operator_kind(chars, pos)->0;
            let end = pos + operator_width(kind);
            token_then(
                TokenView { token_type: kind, value: chars.subrange(pos, end), line },
                scan(chars, end, line),
            )
        } else if c == '/' {
            if pos + 1 < chars.len() && chars[pos + 1] == '/' {
                proof {
                    comment_end_bounds(chars, pos + 2);
                }
                scan(chars, comment_end(chars, pos + 2), line)
            } else {
                token_then(
                    TokenView {
                        token_type: TokenType::Slash,
                        value: chars.subrange(pos, pos + 1),
                        line,
                    },
                    scan(chars, pos + 1, line),
                )
            }
        } else if ident_start(c) {
            proof {
                ident_end_bounds(chars, pos + 1);
            }
            let end = ident_end(chars, pos + 1);
            let word = chars.subrange(pos, end);
            token_then(
                TokenView { token_type: keyword_kind(word), value: word, line },
                scan(chars, end, line),
            )
        } else if numeric(c) {
            proof {
                number_end_bounds(chars, pos + 1);
            }
            let end = number_end(chars, pos + 1);
            token_then(
                TokenView { token_type: TokenType::Number, value: chars.subrange(pos, end), line },
                scan(chars, end, line),
            )
        } else if c == '"' {
            proof {
                string_close_bounds(chars, pos + 1);
            }
            match string_close(chars, pos + 1) {
                Some(close) => token_then(
                    TokenView {
                        token_type: TokenType::String,
                        value: chars.subrange(pos + 1, close),
                        line,
                    },
                    scan(chars, close + 1, line + line_feeds(chars, pos + 1, close)),
                ),
                None => ScanResult { tokens: Seq::empty(), error: Some(line) },
            }
        } else {
            scan(chars, pos + 1, line)
        }
    }
}

/// A run of identifier characters ends at or after its start, inside the
/// source.
pub proof fn ident_end_bounds(chars: Seq<char>, pos: int)
    requires
        0 <= pos <= chars.len(),
    ensures
        pos <= ident_end(chars, pos) <= chars.len(),
    decreases chars.len() - pos,
{
    if pos < chars.len() && ident_part(chars[pos]) {
        ident_end_bounds(chars, pos + 1);
    }
}

/// A run of numeric characters ends at or after its start, inside the source.
pub proof fn number_end_bounds(chars: Seq<char>, pos: int)
    requires
        0 <= pos <= chars.len(),
    ensures
        pos <= number_end(chars, pos) <= chars.len(),
    decreases chars.len() - pos,
{
    if pos < chars.len() && numeric(chars[pos]) {
        number_end_bounds(chars, pos + 1);
    }
}

/// A comment ends at or after its start, inside the source.
pub proof fn comment_end_bounds(chars: Seq<char>, pos: int)
    requires
        0 <= pos <= chars.len(),
    ensures
        pos <= comment_end(chars, pos) <= chars.len(),
    decreases chars.len() - pos,
{
    if pos < chars.len() && chars[pos] != '\n' {
        comment_end_bounds(chars, pos + 1);
    }
}

/// The closing quote of a string lies at or after the start of its text,
/// inside the source, and is a quote.
pub proof fn string_close_bounds(chars: Seq<char>, pos: int)
    requires
        0 <= pos <= chars.len(),
    ensures
        string_close(chars, pos) matches Some(close) ==> pos <= close < chars.len() && chars[close]
            == '"',
    decreases chars.len() - pos,
{
    if pos < chars.len() && chars[pos] != '"' {
        if chars[pos] == '\\' && pos + 1 < chars.len() {
            string_close_bounds(chars, pos + 2);
        } else {
            string_close_bounds(chars, pos + 1);
        }
    }
}

/// Turns source text into tokens.
pub struct Scanner {
    current: usize,
    size: usize,
    line: usize,
    chars: Vec<char>,
    error: Option<LexError>,
}

impl Scanner {
    /// The source text that the scanner holds.
    pub closed spec fn source(&self) -> Seq<char> {
        self.chars@
    }

    /// The position of the next character to read.
    pub closed spec fn position(&self) -> int {
        self.current as int
    }

    /// The line counter.
    pub closed spec fn line_number(&self) -> nat {
        self.line as nat
    }

    /// The line of the error that stopped the last scan, if one did.
    pub closed spec fn failure(&self) -> Option<nat> {
        match self.error {
            Some(e) => Some(e.line as nat),
            None => None,
        }
    }

    /// The scanner's invariant: the position lies inside the source and the
    /// line counter has not passed it.
    pub closed spec fn wf(&self) -> bool {
        &&& self.size == self.chars.len()
        &&& self.current <= self.size
        &&& self.line <= self.current
    }

    /// A scanner over the empty source.
    pub fn new() -> (s: Scanner)
        ensures
            s.wf(),
            s.source() == Seq::<char>::empty(),
            s.position() == 0,
            s.line_number() == 0,
            s.failure() is None,
    {
        Scanner { current: 0, size: 0, line: 0, chars: Vec::new(), error: None }
    }

    /// Scans `content` from its start.
    pub fn tokenize_string(&mut self, content: String) -> (tokens: Vec<Token>)
        ensures
            final(self).wf(),
            final(self).source() == content@,
            final(self).position() == content@.len(),
            token_views(tokens@) == scan(content@, 0, 0).tokens,
            final(self).failure() == scan(content@, 0, 0).error,
    {
        self.chars = crate::text::chars_of(content.as_str());
        self.size = self.chars.len();
        self.current = 0;
        self.line = 0;
        self.error = None;
        self.tokenize()
    }

    /// Scans the source from the scanner's position to its end.
    pub fn tokenize(&mut self) -> (tokens: Vec<Token>)
        requires
            old(self).wf(),
        ensures
            final(self).wf(),
            final(self).source() == old(self).source(),
            final(self).position() == old(self).source().len(),
            token_views(tokens@) == scan(
                old(self).source(),
                old(self).position(),
                old(self).line_number(),
            ).tokens,
            final(self).failure() == scan(
                old(self).source(),
                old(self).position(),
                old(self).line_number(),
            ).error,
    {
        let mut tokens: Vec<Token> = Vec::new();
        self.error = None;
        let ghost src = self.chars@;
        let ghost whole = scan(src, self.current as int, self.line as nat);
        assert(token_views(tokens@) =~= Seq::<TokenView>::empty());
        while self.current < self.size
            invariant
                self.wf(),
                self.chars@ == src,
                whole.tokens =~= token_views(tokens@) + scan(
                    src,
                    self.current as int,
                    self.line as nat,
                ).tokens,
                whole.error == match self.error {
                    Some(e) => Some(e.line as nat),
                    None => scan(src, self.current as int, self.line as nat).error,
                },
                self.error is Some ==> self.current == self.size,
            decreases self.size - self.current,
        {
            let initial = self.current;
            let c = self.chars[initial];
            let ghost before = token_views(tokens@);
            if c == '\n' {
                self.line += 1;
                self.current += 1;
            } else if let Some(kind) = self.tokenize_single_char(initial) {
                if kind != TokenType::Space {
                    let value = self.get_string_from_char_range(initial, initial + 1, &self.chars);
                    tokens.push(Token { token_type: kind, value, line: self.line });
                }
                self.current += 1;
            } else if let Some(kind) = self.tokenize_two_chars(initial) {
                let end = if Self::is_two_chars(kind) {
                    initial + 2
                } else {
                    initial + 1
                };
                let value = self.get_string_from_char_range(initial, end, &self.chars);
                tokens.push(Token { token_type: kind, value, line: self.line });
                self.current = end;
            } else if c == '/' {
                match self.consume_comment_or_divide() {
                    Some(token) => tokens.push(token),
                    None => {},
                }
            } else if is_alphabetic(c) || c == '_' {
                let token = self.get_alphabetic_token(initial);
                tokens.push(token);
            } else if is_numeric(c) {
                let token = self.get_numeric_token(initial);
                tokens.push(token);
            } else if c == '"' {
                match self.get_string_token(initial) {
                    Some(token) => tokens.push(token),
                    None => {
                        self.error = Some(LexError { line: self.line });
                        self.current = self.size;
                    },
                }
            } else {
                self.current += 1;
            }
            proof {
                let after = token_views(tokens@);
                if tokens@.len() > before.len() {
                    assert(after =~= before.push(tokens@.last()@));
                } else {
                    assert(after =~= before);
                }
            }
        }
        proof {
            assert(whole.tokens =~= token_views(tokens@));
        }
        tokens
    }

    /// The kind of the punctuation or white-space character at `value`.
    pub fn tokenize_single_char(&self, value: usize) -> (kind: Option<TokenType>)
        ensures
            kind == if value < self.source().len() {
                single_char_kind(self.source()[value as int])
            } else {
                None
            },
    {
        if value >= self.chars.len() {
            return None;
        }
        let c = self.chars[value];
        if c == '(' {
            Some(TokenType::LeftParen)
        } else if c == ')' {
            Some(TokenType::RightParen)
        } else if c == '{' {
            Some(TokenType::LeftBrace)
        } else if c == '}' {
            Some(TokenType::RightBrace)
        } else if c == ',' {
            Some(TokenType::Comma)
        } else if c == '.' {
            Some(TokenType::Dot)
        } else if c == '-' {
            Some(TokenType::Minus)
        } else if c == '+' {
            Some(TokenType::Plus)
        } else if c == ';' {
            Some(TokenType::Semicolon)
        } else if c == '*' {
            Some(TokenType::Star)
        } else if c == '%' {
            Some(TokenType::Percent)
        } else if c == ' ' || c == '\t' || c == '\n' {
            Some(TokenType::Space)
        } else {
            None
        }
    }

    /// The operator that starts at `value`, if one does.
    pub fn tokenize_two_chars(&self, value: usize) -> (kind: Option<TokenType>)
        ensures
            kind == operator_kind(self.source(), value as int),
    {
        if value >= self.chars.len() {
            return None;
        }
        let c = self.chars[value];
        if c == '!' {
            if self.peek_advance(value, '=') {
                Some(TokenType::BangEqual)
            } else {
                Some(TokenType::Bang)
            }
        } else if c == '=' {
            if self.peek_advance(value, '=') {
                Some(TokenType::EqualEqual)
            } else {
                Some(TokenType::Equal)
            }
        } else if c == '<' {
            if self.peek_advance(value, '=') {
                Some(TokenType::LessEqual)
            } else {
                Some(TokenType::Less)
            }
        } else if c == '>' {
            if self.peek_advance(value, '=') {
                Some(TokenType::GreaterEqual)
            } else {
                Some(TokenType::Greater)
            }
        } else {
            None
        }
    }

    fn is_two_chars(kind: TokenType) -> (b: bool)
        ensures
            b == (operator_width(kind) == 2),
    {
        match kind {
            TokenType::BangEqual
            | TokenType::EqualEqual
            | TokenType::LessEqual
            | TokenType::GreaterEqual => true,
            _ => false,
        }
    }

    /// Whether the character after `at` is `expected`.
    fn peek_advance(&self, at: usize, expected: char) -> (b: bool)
        requires
            at < self.chars.len(),
        ensures
            b == (at + 1 < self.chars.len() && self.chars@[at + 1] == expected),
    {
        at + 1 < self.chars.len() && self.chars[at + 1] == expected
    }

    /// At a `/`: skips a comment, or takes the `/` as a token.
    fn consume_comment_or_divide(&mut self) -> (token: Option<Token>)
        requires
            old(self).wf(),
            old(self).current < old(self).size,
            old(self).chars@[old(self).current as int] == '/',
        ensures
            final(self).wf(),
            final(self).chars == old(self).chars,
            final(self).line == old(self).line,
            final(self).error == old(self).error,
            final(self).current > old(self).current,
            old(self).current + 1 < old(self).size && old(self).chars@[old(self).current + 1] == '/'
                ==> token is None && final(self).current == comment_end(
                old(self).chars@,
                old(self).current + 2,
            ),
            !(old(self).current + 1 < old(self).size && old(self).chars@[old(self).current + 1]
                == '/') ==> token is Some && final(self).current == old(self).current + 1
                && token->0@ == (TokenView {
                token_type: TokenType::Slash,
                value: old(self).chars@.subrange(
                    old(self).current as int,
                    old(self).current + 1,
                ),
                line: old(self).line as nat,
            }),
    {
        let initial = self.current;
        if self.peek_advance(initial, '/') {
            let mut i: usize = initial + 2;
            while i < self.size && self.chars[i] != '\n'
                invariant
                    self.wf(),
                    initial + 2 <= i <= self.size,
                    comment_end(self.chars@, initial + 2) == comment_end(self.chars@, i as int),
                decreases self.size - i,
            {
                i += 1;
            }
            self.current = i;
            None
        } else {
            let value = self.get_string_from_char_range(initial, initial + 1, &self.chars);
            self.current = initial + 1;
            Some(Token { token_type: TokenType::Slash, value, line: self.line })
        }
    }

    /// Takes the identifier or keyword that starts at `initial`.
    fn get_alphabetic_token(&mut self, initial: usize) -> (token: Token)
        requires
            old(self).wf(),
            initial == old(self).current,
            initial < old(self).size,
        ensures
            final(self).wf(),
            final(self).chars == old(self).chars,
            final(self).line == old(self).line,
            final(self).error == old(self).error,
            final(self).current == ident_end(old(self).chars@, initial + 1),
            final(self).current > initial,
            token@ == (TokenView {
                token_type: keyword_kind(
                    old(self).chars@.subrange(initial as int, final(self).current as int),
                ),
                value: old(self).chars@.subrange(initial as int, final(self).current as int),
                line: old(self).line as nat,
            }),
    {
        let mut i: usize = initial + 1;
        while i < self.size && (is_alphabetic(self.chars[i]) || is_numeric(self.chars[i])
            || self.chars[i] == '_')
            invariant
                self.wf(),
                initial + 1 <= i <= self.size,
                ident_end(self.chars@, initial + 1) == ident_end(self.chars@, i as int),
            decreases self.size - i,
        {
            i += 1;
        }
        self.current = i;
        let value = self.get_string_from_char_range(initial, i, &self.chars);
        let token_type = self.identifier_alternatives(initial, i);
        Token { token_type, value, line: self.line }
    }

    /// The keyword that `chars[start..end]` spells, or `Identifier`.
    fn identifier_alternatives(&self, start: usize, end: usize) -> (kind: TokenType)
        requires
            start <= end <= self.chars.len(),
        ensures
            kind == keyword_kind(self.chars@.subrange(start as int, end as int)),
    {
        let chars = &self.chars;
        if range_is_word(chars, start, end, "and") {
            TokenType::And
        } else if range_is_word(chars, start, end, "class") {
            TokenType::Class
        } else if range_is_word(chars, start, end, "else") {
            TokenType::Else
        } else if range_is_word(chars, start, end, "fun") {
            TokenType::Fun
        } else if range_is_word(chars, start, end, "for") {
            TokenType::For
        } else if range_is_word(chars, start, end, "if") {
            TokenType::If
        } else if range_is_word(chars, start, end, "nil") {
            TokenType::Nil
        } else if range_is_word(chars, start, end, "or") {
            TokenType::Or
        } else if range_is_word(chars, start, end, "print") {
            TokenType::Print
        } else if range_is_word(chars, start, end, "return") {
            TokenType::Return
        } else if range_is_word(chars, start, end, "super") {
            TokenType::Super
        } else if range_is_word(chars, start, end, "this") {
            TokenType::This
        } else if range_is_word(chars, start, end, "true") {
            TokenType::True
        } else if range_is_word(chars, start, end, "false") {
            TokenType::False
        } else if range_is_word(chars, start, end, "var") {
            TokenType::Var
        } else if range_is_word(chars, start, end, "while") {
            TokenType::While
        } else {
            TokenType::Identifier
        }
    }

    /// Takes the number that starts at `initial`.
    fn get_numeric_token(&mut self, initial: usize) -> (token: Token)
        requires
            old(self).wf(),
            initial == old(self).current,
            initial < old(self).size,
        ensures
            final(self).wf(),
            final(self).chars == old(self).chars,
            final(self).line == old(self).line,
            final(self).error == old(self).error,
            final(self).current == number_end(old(self).chars@, initial + 1),
            final(self).current > initial,
            token@ == (TokenView {
                token_type: TokenType::Number,
                value: old(self).chars@.subrange(initial as int, final(self).current as int),
                line: old(self).line as nat,
            }),
    {
        let mut i: usize = initial + 1;
        while i < self.size && is_numeric(self.chars[i])
            invariant
                self.wf(),
                initial + 1 <= i <= self.size,
                number_end(self.chars@, initial + 1) == number_end(self.chars@, i as int),
            decreases self.size - i,
        {
            i += 1;
        }
        self.current = i;
        let value = self.get_string_from_char_range(initial, i, &self.chars);
        Token { token_type: TokenType::Number, value, line: self.line }
    }

    /// Takes the string literal that opens at `initial`, or reports that it
    /// is never closed.
    fn get_string_token(&mut self, initial: usize) -> (token: Option<Token>)
        requires
            old(self).wf(),
            initial == old(self).current,
            initial < old(self).size,
        ensures
            final(self).wf(),
            final(self).chars == old(self).chars,
            final(self).error == old(self).error,
            match string_close(old(self).chars@, initial + 1) {
                Some(close) => {
                    &&& token is Some
                    &&& token->0@ == (TokenView {
                        token_type: TokenType::String,
                        value: old(self).chars@.subrange(initial + 1, close),
                        line: old(self).line as nat,
                    })
                    &&& final(self).current == close + 1
                    &&& initial < close
                    &&& final(self).line == old(self).line + line_feeds(
                        old(self).chars@,
                        initial + 1,
                        close,
                    )
                },
                None => {
                    &&& token is None
                    &&& final(self).current == old(self).current
                    &&& final(self).line == old(self).line
                },
            },
    {
        let mut i: usize = initial + 1;
        let mut feeds: usize = 0;
        let mut found = false;
        while i < self.size && !found
            invariant
                self.wf(),
                self.chars == old(self).chars,
                self.current == initial,
                self.line == old(self).line,
                self.error == old(self).error,
                initial + 1 <= i <= self.size,
                !found ==> string_close(self.chars@, initial + 1) == string_close(
                    self.chars@,
                    i as int,
                ),
                !found ==> feeds == line_feeds(self.chars@, initial + 1, i as int),
                found ==> i < self.size && string_close(self.chars@, initial + 1) == Some(i as int)
                    && feeds == line_feeds(self.chars@, initial + 1, i as int),
                feeds <= i - (initial + 1),
            decreases self.size - i + if found { 0int } else { 1int },
        {
            let c = self.chars[i];
            if c == '"' {
                found = true;
            } else if c == '\\' && i + 1 < self.size {
                if self.chars[i + 1] == '\n' {
                    feeds += 1;
                }
                proof {
                    assert(line_feeds(self.chars@, initial + 1, i + 2) == line_feeds(
                        self.chars@,
                        initial + 1,
                        i + 1,
                    ) + if self.chars@[i + 1] == '\n' { 1nat } else { 0nat });
                }
                i += 2;
            } else {
                if c == '\n' {
                    feeds += 1;
                }
                i += 1;
            }
        }
        if !found {
            return None;
        }
        let value = self.get_string_from_char_range(initial + 1, i, &self.chars);
        let token = Token { token_type: TokenType::String, value, line: self.line };
        self.current = i + 1;
        self.line = self.line + feeds;
        Some(token)
    }

    /// The string made of `chars[start_inclusive..end_exclusive]`.
    pub fn get_string_from_char_range(
        &self,
        start_inclusive: usize,
        end_exclusive: usize,
        chars: &Vec<char>,
    ) -> (s: String)
        requires
            start_inclusive <= end_exclusive <= chars.len(),
        ensures
            s@ == chars@.subrange(start_inclusive as int, end_exclusive as int),
    {
        string_from_range(chars, start_inclusive, end_exclusive)
    }

    /// The error that stopped the last scan, if one did.
    pub fn error(&self) -> (e: Option<LexError>)
        ensures
            match e {
                Some(err) => self.failure() == Some(err.line as nat),
                None => self.failure() is None,
            },
    {
        self.error
    }
}

} // verus!
