//! Lexical analysis: turning a raw source string into a sequence of tokens.
//!
//! The spec functions in this module define tokenization mathematically over
//! a `Seq<char>`; `create_tokens` is proved to return exactly that result.

use crate::errors::LexError;
use crate::nodes::op_from_text;
use crate::text::{count_char, is_alpha_char, is_digit_char, is_name_char, is_number_char,
    is_space_char};
use vstd::prelude::*;
use vstd::string::StrSliceExecFns;
use vstd::string::StringExecFns;

verus! {

/// The kind of a token.
#[derive(Clone, Copy, PartialEq, Eq, Structural, Debug)]
pub enum TokenType {
    /// `+ - * / %`
    Operator,
    /// `=` and the compound forms `+= -= *= /= %=`
    AssignmentOperator,
    OpenParen,
    CloseParen,
    OpenBracket,
    CloseBracket,
    OpenBrace,
    CloseBrace,
    Comma,
    /// `int, uint, float, ufloat, bool, char, str`
    InbuiltType,
    /// An identifier, e.g. a variable name.
    Name,
    NumberLiteral,
    StringLiteral,
    CharLiteral,
    /// `true` or `false`
    BoolLiteral,
    Semicolon,
    /// `let, if, else, while`
    Keyword,
}

/// A token: its kind and its raw source text.
#[derive(Clone, PartialEq, Eq, Debug)]
pub struct Token {
    pub kind: TokenType,
    pub value: String,
}

/// Mathematical model of a token.
pub struct TokenModel {
    pub kind: TokenType,
    pub text: Seq<char>,
}

impl View for Token {
    type V = TokenModel;

    open spec fn view(&self) -> TokenModel {
        TokenModel { kind: self.kind, text: self.value@ }
    }
}

/// The diagnostic name of a token kind.
pub open spec fn token_kind_text(k: TokenType) -> Seq<char> {
    match k {
        TokenType::Operator => "Operator"@,
        TokenType::AssignmentOperator => "Assignment operator"@,
        TokenType::OpenParen => "Opening parenthesis"@,
        TokenType::CloseParen => "Closing parenthesis"@,
        TokenType::OpenBracket => "Opening bracket"@,
        TokenType::CloseBracket => "Closing bracket"@,
        TokenType::OpenBrace => "Opening brace"@,
        TokenType::CloseBrace => "Closing brace"@,
        TokenType::Comma => "Comma"@,
        TokenType::InbuiltType => "Inbuilt type"@,
        TokenType::Name => "Custom name"@,
        TokenType::NumberLiteral => "Number literal"@,
        TokenType::StringLiteral => "String literal"@,
        TokenType::CharLiteral => "Char literal"@,
        TokenType::BoolLiteral => "Bool literal"@,
        TokenType::Semicolon => "Semicolon"@,
        TokenType::Keyword => "Keyword"@,
    }
}

impl TokenType {
    /// The diagnostic name of this token kind.
    pub fn debug_str(&self) -> (r: &'static str)
        ensures
            r@ == token_kind_text(*self),
    {
        match self {
            TokenType::Operator => "Operator",
            TokenType::AssignmentOperator => "Assignment operator",
            TokenType::OpenParen => "Opening parenthesis",
            TokenType::CloseParen => "Closing parenthesis",
            TokenType::OpenBracket => "Opening bracket",
            TokenType::CloseBracket => "Closing bracket",
            TokenType::OpenBrace => "Opening brace",
            TokenType::CloseBrace => "Closing brace",
            TokenType::Comma => "Comma",
            TokenType::InbuiltType => "Inbuilt type",
            TokenType::Name => "Custom name",
            TokenType::NumberLiteral => "Number literal",
            TokenType::StringLiteral => "String literal",
            TokenType::CharLiteral => "Char literal",
            TokenType::BoolLiteral => "Bool literal",
            TokenType::Semicolon => "Semicolon",
            TokenType::Keyword => "Keyword",
        }
    }
}

impl Token {
    pub fn new(kind: TokenType, contents: String) -> (r: Token)
        ensures
            r@ == (TokenModel { kind, text: contents@ }),
    {
        Token { kind, value: contents }
    }

    /// A diagnostic rendering of the token: its kind and its quoted text.
    pub fn debug_str(&self) -> (r: String)
        ensures
            r@ == token_kind_text(self.kind) + " (\""@ + self.value@ + "\")"@,
    {
        let mut s = String::from_str(self.kind.debug_str());
        s.append(" (\"");
        s.append(self.value.as_str());
        s.append("\")");
        proof {
            assert(s@ =~= token_kind_text(self.kind) + " (\""@ + self.value@ + "\")"@);
        }
        s
    }
}

/// The models of a sequence of tokens.
pub open spec fn token_views(ts: Seq<Token>) -> Seq<TokenModel> {
    ts.map_values(|t: Token| t@)
}

/// The reserved keywords.
pub open spec fn is_keyword_text(t: Seq<char>) -> bool {
    t == "let"@ || t == "if"@ || t == "else"@ || t == "while"@
}

/// The inbuilt type names recognized by the lexer. `uint` and `ufloat` are
/// recognized here although no value type corresponds to them.
pub open spec fn is_inbuilt_type_text(t: Seq<char>) -> bool {
    t == "int"@ || t == "uint"@ || t == "float"@ || t == "ufloat"@ || t == "bool"@ || t == "char"@
        || t == "str"@
}

/// The boolean literals.
pub open spec fn is_bool_literal_text(t: Seq<char>) -> bool {
    t == "true"@ || t == "false"@
}

/// The kind given to a scanned name.
pub open spec fn classify_name(t: Seq<char>) -> TokenType {
    if is_keyword_text(t) {
        TokenType::Keyword
    } else if is_inbuilt_type_text(t) {
        TokenType::InbuiltType
    } else if is_bool_literal_text(t) {
        TokenType::BoolLiteral
    } else {
        TokenType::Name
    }
}

/// End of the maximal run of name characters starting at `i`.
pub open spec fn scan_name_end(s: Seq<char>, i: int) -> int
    decreases s.len() - i,
{
    if 0 <= i < s.len() && is_name_char(s[i]) {
        scan_name_end(s, i + 1)
    } else {
        i
    }
}

/// End of the maximal run of number characters (digits and dots) starting at
/// `i`.
pub open spec fn scan_number_end(s: Seq<char>, i: int) -> int
    decreases s.len() - i,
{
    if 0 <= i < s.len() && is_number_char(s[i]) {
        scan_number_end(s, i + 1)
    } else {
        i
    }
}

/// Index of the first occurrence of `c` at or after `i`, if any.
pub open spec fn find_char(s: Seq<char>, i: int, c: char) -> Option<int>
    decreases s.len() - i,
{
    if 0 <= i < s.len() {
        if s[i] == c {
            Some(i)
        } else {
            find_char(s, i + 1, c)
        }
    } else {
        None
    }
}

/// A number literal's text is valid when it has at most one dot and neither
/// starts nor ends with one.
pub open spec fn number_text_valid(t: Seq<char>) -> bool {
    count_char(t, '.') <= 1 && t.first() != '.' && t.last() != '.'
}

/// The outcome of classifying the source at one position: whitespace or a
/// comment to skip, one complete token, or a lexical error.
pub enum LexStep {
    Ws { next: int },
    Tok { token: TokenModel, next: int },
    Fail { err: LexError },
}

/// One token of source text; `s[i]` must exist. Classifies by the character
/// at `i` and consumes exactly the characters belonging to the token.
pub open spec fn lex_step(s: Seq<char>, i: int) -> LexStep {
    let c = s[i];
    if is_space_char(c) {
        LexStep::Ws { next: i + 1 }
    } else if c == '(' {
        single_char_step(TokenType::OpenParen, s, i)
    } else if c == ')' {
        single_char_step(TokenType::CloseParen, s, i)
    } else if c == '[' {
        single_char_step(TokenType::OpenBracket, s, i)
    } else if c == ']' {
        single_char_step(TokenType::CloseBracket, s, i)
    } else if c == '{' {
        single_char_step(TokenType::OpenBrace, s, i)
    } else if c == '}' {
        single_char_step(TokenType::CloseBrace, s, i)
    } else if c == ',' {
        single_char_step(TokenType::Comma, s, i)
    } else if c == ';' {
        single_char_step(TokenType::Semicolon, s, i)
    } else if c == '=' {
        single_char_step(TokenType::AssignmentOperator, s, i)
    } else if c == '+' || c == '-' || c == '*' || c == '/' || c == '%' {
        if c == '/' && i + 1 < s.len() && s[i + 1] == '/' {
            // a line comment: skip through but not including the next
            // newline, or through the end of the input
            LexStep::Ws {
                next: match find_char(s, i + 2, '\n') {
                    Some(j) => j,
                    None => s.len() as int,
                },
            }
        } else if i + 1 < s.len() && s[i + 1] == '=' {
            LexStep::Tok {
                token: TokenModel {
                    kind: TokenType::AssignmentOperator,
                    text: s.subrange(i, i + 2),
                },
                next: i + 2,
            }
        } else {
            single_char_step(TokenType::Operator, s, i)
        }
    } else if c == '\'' {
        match find_char(s, i + 1, '\'') {
            Some(j) => LexStep::Tok {
                token: TokenModel { kind: TokenType::CharLiteral, text: s.subrange(i, j + 1) },
                next: j + 1,
            },
            None => LexStep::Fail { err: LexError::UnterminatedCharLiteral },
        }
    } else if c == '"' {
        match find_char(s, i + 1, '"') {
            Some(j) => LexStep::Tok {
                token: TokenModel { kind: TokenType::StringLiteral, text: s.subrange(i, j + 1) },
                next: j + 1,
            },
            None => LexStep::Fail { err: LexError::UnterminatedStringLiteral },
        }
    } else if is_digit_char(c) {
        let j = scan_number_end(s, i);
        let text = s.subrange(i, j);
        if number_text_valid(text) {
            LexStep::Tok { token: TokenModel { kind: TokenType::NumberLiteral, text }, next: j }
        } else {
            LexStep::Fail { err: LexError::InvalidNumber }
        }
    } else if is_alpha_char(c) {
        let j = scan_name_end(s, i);
        let text = s.subrange(i, j);
        LexStep::Tok { token: TokenModel { kind: classify_name(text), text }, next: j }
    } else {
        LexStep::Fail { err: LexError::UnexpectedChar { found: c } }
    }
}

/// A one-character token at `i`.
pub open spec fn single_char_step(kind: TokenType, s: Seq<char>, i: int) -> LexStep {
    LexStep::Tok { token: TokenModel { kind, text: s.subrange(i, i + 1) }, next: i + 1 }
}

/// The result of tokenizing: the token sequence, or the first lexical error.
pub enum LexOut {
    Toks { tokens: Seq<TokenModel> },
    Fail { err: LexError },
}

/// Keeps an index from a lexing step inside `(i, n]`; every step's index lies
/// there already (`lemma_lex_step_bounds`), so this only keeps the recursion
/// below well-founded.
pub open spec fn step_idx(j: int, i: int, n: int) -> int {
    if j <= i {
        i + 1
    } else if j > n {
        n
    } else {
        j
    }
}

/// Tokenization of `s` from position `i` on: the sequence of all tokens, or
/// the first lexical error.
pub open spec fn lex_from(s: Seq<char>, i: int) -> LexOut
    decreases s.len() - i,
{
    if !(0 <= i < s.len()) {
        LexOut::Toks { tokens: Seq::empty() }
    } else {
        match lex_step(s, i) {
            LexStep::Ws { next } => lex_from(s, step_idx(next, i, s.len() as int)),
            LexStep::Tok { token, next } => {
                match lex_from(s, step_idx(next, i, s.len() as int)) {
                    LexOut::Toks { tokens } => LexOut::Toks { tokens: seq![token] + tokens },
                    LexOut::Fail { err } => LexOut::Fail { err },
                }
            },
            LexStep::Fail { err } => LexOut::Fail { err },
        }
    }
}

/// Tokenization of the whole of `s`.
pub open spec fn lex_spec(s: Seq<char>) -> LexOut {
    lex_from(s, 0)
}

/// Prefixes `done` onto the tokens of `out`, if it has any.
pub open spec fn lex_cont(done: Seq<TokenModel>, out: LexOut) -> LexOut {
    match out {
        LexOut::Toks { tokens } => LexOut::Toks { tokens: done + tokens },
        LexOut::Fail { err } => LexOut::Fail { err },
    }
}

pub proof fn lemma_scan_name_end(s: Seq<char>, i: int)
    requires
        0 <= i <= s.len(),
    ensures
        i <= scan_name_end(s, i) <= s.len(),
        forall|k: int| i <= k < scan_name_end(s, i) ==> is_name_char(s[k]),
        scan_name_end(s, i) < s.len() ==> !is_name_char(s[scan_name_end(s, i)]),
    decreases s.len() - i,
{
    if i < s.len() && is_name_char(s[i]) {
        lemma_scan_name_end(s, i + 1);
    }
}

pub proof fn lemma_scan_number_end(s: Seq<char>, i: int)
    requires
        0 <= i <= s.len(),
    ensures
        i <= scan_number_end(s, i) <= s.len(),
        forall|k: int| i <= k < scan_number_end(s, i) ==> is_number_char(s[k]),
        scan_number_end(s, i) < s.len() ==> !is_number_char(s[scan_number_end(s, i)]),
    decreases s.len() - i,
{
    if i < s.len() && is_number_char(s[i]) {
        lemma_scan_number_end(s, i + 1);
    }
}

pub proof fn lemma_find_char(s: Seq<char>, i: int, c: char)
    requires
        0 <= i <= s.len(),
    ensures
        match find_char(s, i, c) {
            Some(j) => i <= j < s.len() && s[j] == c && forall|k: int| i <= k < j ==> s[k] != c,
            None => forall|k: int| i <= k < s.len() ==> s[k] != c,
        },
    decreases s.len() - i,
{
    if i < s.len() && s[i] != c {
        lemma_find_char(s, i + 1, c);
    }
}

/// Every step from a position inside the text lands strictly further on and
/// no further than the end; a token's text is exactly the consumed range.
pub proof fn lemma_lex_step_bounds(s: Seq<char>, i: int)
    requires
        0 <= i < s.len(),
    ensures
        match lex_step(s, i) {
            LexStep::Ws { next } => i < next <= s.len(),
            LexStep::Tok { token, next } => i < next <= s.len() && token.text == s.subrange(
                i,
                next,
            ) && token.text.len() == next - i,
            LexStep::Fail { err } => true,
        },
{
    let c = s[i];
    if c == '\'' || c == '"' {
        lemma_find_char(s, i + 1, c);
    } else if c == '/' && i + 1 < s.len() && s[i + 1] == '/' {
        lemma_find_char(s, i + 2, '\n');
    } else if is_digit_char(c) {
        lemma_scan_number_end(s, i);
    } else if is_alpha_char(c) {
        lemma_scan_name_end(s, i);
    }
}

/// Well-formedness of a token: its text has the shape its kind promises.
/// Every token the lexer emits is well-formed (`lemma_lex_from_wf`); the
/// parser relies on nothing more about token texts.
pub open spec fn token_wf(t: TokenModel) -> bool {
    match t.kind {
        TokenType::Operator => op_from_text(t.text) is Some,
        TokenType::AssignmentOperator => t.text == "="@ || (t.text.len() == 2 && op_from_text(
            t.text.subrange(0, 1),
        ) is Some && t.text[1] == '='),
        TokenType::OpenParen => t.text == seq!['('],
        TokenType::CloseParen => t.text == seq![')'],
        TokenType::OpenBracket => t.text == seq!['['],
        TokenType::CloseBracket => t.text == seq![']'],
        TokenType::OpenBrace => t.text == seq!['{'],
        TokenType::CloseBrace => t.text == seq!['}'],
        TokenType::Comma => t.text == seq![','],
        TokenType::Semicolon => t.text == seq![';'],
        TokenType::InbuiltType => is_inbuilt_type_text(t.text),
        TokenType::Name => t.text.len() >= 1 && is_alpha_char(t.text[0]) && forall|k: int|
            0 <= k < t.text.len() ==> is_name_char(#[trigger] t.text[k]),
        TokenType::NumberLiteral => t.text.len() >= 1 && is_digit_char(t.text[0])
            && number_text_valid(t.text) && forall|k: int|
            0 <= k < t.text.len() ==> is_number_char(#[trigger] t.text[k]),
        TokenType::StringLiteral => t.text.len() >= 2 && t.text.first() == '"' && t.text.last()
            == '"' && forall|k: int| 0 < k < t.text.len() - 1 ==> #[trigger] t.text[k] != '"',
        TokenType::CharLiteral => t.text.len() >= 2 && t.text.first() == '\'' && t.text.last()
            == '\'' && forall|k: int| 0 < k < t.text.len() - 1 ==> #[trigger] t.text[k] != '\'',
        TokenType::BoolLiteral => is_bool_literal_text(t.text),
        TokenType::Keyword => is_keyword_text(t.text),
    }
}

/// Every token of a sequence is well-formed.
pub open spec fn tokens_wf(ts: Seq<TokenModel>) -> bool {
    forall|k: int| 0 <= k < ts.len() ==> token_wf(#[trigger] ts[k])
}

/// A token built by one lexing step is well-formed.
pub proof fn lemma_lex_step_wf(s: Seq<char>, i: int)
    requires
        0 <= i < s.len(),
    ensures
        lex_step(s, i) matches LexStep::Tok { token, .. } ==> token_wf(token),
{
    reveal_strlit("+");
    reveal_strlit("-");
    reveal_strlit("*");
    reveal_strlit("/");
    reveal_strlit("%");
    reveal_strlit("=");
    let c = s[i];
    if is_space_char(c) {
    } else if c == '(' || c == ')' || c == '[' || c == ']' || c == '{' || c == '}' || c == ','
        || c == ';' {
        assert(s.subrange(i, i + 1) =~= seq![c]);
    } else if c == '=' {
        assert(s.subrange(i, i + 1) =~= "="@);
    } else if c == '+' || c == '-' || c == '*' || c == '/' || c == '%' {
        if c == '/' && i + 1 < s.len() && s[i + 1] == '/' {
        } else if i + 1 < s.len() && s[i + 1] == '=' {
            let text = s.subrange(i, i + 2);
            assert(text.subrange(0, 1) =~= seq![c]);
            if c == '+' {
                assert(text.subrange(0, 1) =~= "+"@);
            } else if c == '-' {
                assert(text.subrange(0, 1) =~= "-"@);
            } else if c == '*' {
                assert(text.subrange(0, 1) =~= "*"@);
            } else if c == '/' {
                assert(text.subrange(0, 1) =~= "/"@);
            } else {
                assert(text.subrange(0, 1) =~= "%"@);
            }
        } else {
            let text = s.subrange(i, i + 1);
            if c == '+' {
                assert(text =~= "+"@);
            } else if c == '-' {
                assert(text =~= "-"@);
            } else if c == '*' {
                assert(text =~= "*"@);
            } else if c == '/' {
                assert(text =~= "/"@);
            } else {
                assert(text =~= "%"@);
            }
        }
    } else if c == '\'' || c == '"' {
        lemma_find_char(s, i + 1, c);
        match find_char(s, i + 1, c) {
            Some(j) => {
                let text = s.subrange(i, j + 1);
                assert(text.first() == s[i]);
                assert(text.last() == s[j]);
                assert forall|k: int| 0 < k < text.len() - 1 implies #[trigger] text[k] != c by {
                    assert(text[k] == s[i + k]);
                }
            },
            None => {},
        }
    } else if is_digit_char(c) {
        lemma_scan_number_end(s, i);
        let j = scan_number_end(s, i);
        let text = s.subrange(i, j);
        assert(is_number_char(s[i]));
        assert(j >= i + 1) by {
            assert(scan_number_end(s, i) == scan_number_end(s, i + 1));
            lemma_scan_number_end(s, i + 1);
        }
        assert(text[0] == s[i]);
        assert forall|k: int| 0 <= k < text.len() implies is_number_char(#[trigger] text[k]) by {
            assert(text[k] == s[i + k]);
        }
    } else if is_alpha_char(c) {
        lemma_scan_name_end(s, i);
        let j = scan_name_end(s, i);
        let text = s.subrange(i, j);
        assert(is_name_char(s[i]));
        assert(j >= i + 1) by {
            assert(scan_name_end(s, i) == scan_name_end(s, i + 1));
            lemma_scan_name_end(s, i + 1);
        }
        assert(text[0] == s[i]);
        assert forall|k: int| 0 <= k < text.len() implies is_name_char(#[trigger] text[k]) by {
            assert(text[k] == s[i + k]);
        }
    }
}

/// Every token that tokenization yields is well-formed.
pub proof fn lemma_lex_from_wf(s: Seq<char>, i: int)
    requires
        0 <= i <= s.len(),
    ensures
        lex_from(s, i) matches LexOut::Toks { tokens } ==> tokens_wf(tokens),
    decreases s.len() - i,
{
    if 0 <= i < s.len() {
        lemma_lex_step_wf(s, i);
        lemma_lex_step_bounds(s, i);
        match lex_step(s, i) {
            LexStep::Ws { next } => {
                lemma_lex_from_wf(s, step_idx(next, i, s.len() as int));
            },
            LexStep::Tok { token, next } => {
                lemma_lex_from_wf(s, step_idx(next, i, s.len() as int));
            },
            LexStep::Fail { .. } => {},
        }
    }
}

/// The cursor over the source text.
pub struct Tokenizer<'a> {
    pub src: &'a str,
    pub pos: usize,
}

impl<'a> Tokenizer<'a> {
    /// The cursor never stands past the end of the text, whose length fits
    /// the machine.
    pub open spec fn wf(&self) -> bool {
        self.pos <= self.src@.len() <= usize::MAX
    }

    pub open spec fn text(&self) -> Seq<char> {
        self.src@
    }

    pub open spec fn position(&self) -> int {
        self.pos as int
    }

    pub fn new(source: &'a str) -> (r: Tokenizer<'a>)
        ensures
            r.wf(),
            r.text() == source@,
            r.position() == 0,
    {
        let l = source.unicode_len();
        Tokenizer { src: source, pos: 0 }
    }

    pub fn is_empty(&self) -> (r: bool)
        requires
            self.wf(),
        ensures
            r == (self.position() == self.text().len()),
    {
        self.pos >= self.src.unicode_len()
    }

    /// The `n`-th character ahead of the cursor (1-based), if it exists.
    fn peek(&self, n: usize) -> (r: Option<char>)
        requires
            self.wf(),
            1 <= n <= 2,
        ensures
            self.position() + n <= self.text().len() ==> r == Some(
                self.text()[self.position() + n - 1],
            ),
            self.position() + n > self.text().len() ==> r is None,
    {
        let l = self.src.unicode_len();
        if n <= l - self.pos {
            Some(self.src.get_char(self.pos + n - 1))
        } else {
            None
        }
    }

    /// The next `n` characters as a string, if they exist.
    fn peek_string(&self, n: usize) -> (r: Option<String>)
        requires
            self.wf(),
        ensures
            self.position() + n <= self.text().len() ==> (r matches Some(v) && v@ == self.text()
                .subrange(self.position(), self.position() + n)),
            self.position() + n > self.text().len() ==> r is None,
    {
        let l = self.src.unicode_len();
        if n <= l - self.pos {
            Some(String::from_str(self.src.substring_char(self.pos, self.pos + n)))
        } else {
            None
        }
    }

    /// The maximal run of name characters at the cursor.
    fn peek_name(&self) -> (r: String)
        requires
            self.wf(),
        ensures
            r@ == self.text().subrange(self.position(), scan_name_end(self.text(), self.position())),
    {
        let ghost s = self.src@;
        let l = self.src.unicode_len();
        let mut j = self.pos;
        proof {
            lemma_scan_name_end(s, self.pos as int);
        }
        loop
            invariant
                self.wf(),
                s == self.src@,
                l == s.len(),
                self.pos <= j <= l,
                scan_name_end(s, self.position()) == scan_name_end(s, j as int),
            ensures
                self.pos <= j <= l,
                scan_name_end(s, self.position()) == j as int,
            decreases l - j,
        {
            if j >= l {
                break ;
            }
            let c = self.src.get_char(j);
            if !crate::text::name_char(c) {
                break ;
            }
            j += 1;
        }
        String::from_str(self.src.substring_char(self.pos, j))
    }

    /// The maximal run of number characters at the cursor.
    fn peek_number(&self) -> (r: String)
        requires
            self.wf(),
        ensures
            r@ == self.text().subrange(
                self.position(),
                scan_number_end(self.text(), self.position()),
            ),
    {
        let ghost s = self.src@;
        let l = self.src.unicode_len();
        let mut j = self.pos;
        loop
            invariant
                self.wf(),
                s == self.src@,
                l == s.len(),
                self.pos <= j <= l,
                scan_number_end(s, self.position()) == scan_number_end(s, j as int),
            ensures
                self.pos <= j <= l,
                scan_number_end(s, self.position()) == j as int,
            decreases l - j,
        {
            if j >= l {
                break ;
            }
            let c = self.src.get_char(j);
            if !crate::text::number_char(c) {
                break ;
            }
            j += 1;
        }
        String::from_str(self.src.substring_char(self.pos, j))
    }

    /// The text between `offset` characters ahead of the cursor and the next
    /// occurrence of `searched` (or the end of the input, when `or_eof`).
    fn peek_until(&self, searched: char, offset: usize, or_eof: bool) -> (r: Option<String>)
        requires
            self.wf(),
        ensures
            self.position() + offset > self.text().len() ==> r is None,
            self.position() + offset <= self.text().len() ==> match find_char(
                self.text(),
                self.position() + offset,
                searched,
            ) {
                Some(j) => r matches Some(v) && v@ == self.text().subrange(
                    self.position() + offset,
                    j,
                ),
                None => if or_eof {
                    r matches Some(v) && v@ == self.text().subrange(
                        self.position() + offset,
                        self.text().len() as int,
                    )
                } else {
                    r is None
                },
            },
    {
        let ghost s = self.src@;
        let l = self.src.unicode_len();
        if offset > l - self.pos {
            return None;
        }
        let start = self.pos + offset;
        let mut j = start;
        loop
            invariant
                self.wf(),
                s == self.src@,
                l == s.len(),
                start <= j <= l,
                start == self.position() + offset,
                find_char(s, start as int, searched) == find_char(s, j as int, searched),
            ensures
                start <= j <= l,
                j < l ==> find_char(s, start as int, searched) == Some(j as int),
                j == l ==> find_char(s, start as int, searched) is None,
            decreases l - j,
        {
            if j >= l {
                break ;
            }
            if self.src.get_char(j) == searched {
                break ;
            }
            j += 1;
        }
        if j < l {
            Some(String::from_str(self.src.substring_char(start, j)))
        } else if or_eof {
            Some(String::from_str(self.src.substring_char(start, l)))
        } else {
            None
        }
    }

    /// Moves the cursor `n` characters forward.
    fn advance(&mut self, n: usize)
        requires
            old(self).wf(),
            old(self).position() + n <= old(self).text().len(),
        ensures
            final(self).wf(),
            final(self).text() == old(self).text(),
            final(self).position() == old(self).position() + n,
    {
        self.pos = self.pos + n;
    }

    /// Classifies the source at the cursor: `Ok(None)` skips whitespace or a
    /// comment (the cursor advances past it), `Ok(Some(t))` is the next token
    /// (the cursor stays; the caller advances by the token's length), and
    /// `Err` is the first lexical error.
    fn next_token(&mut self) -> (r: Result<Option<Token>, LexError>)
        requires
            old(self).wf(),
            old(self).position() < old(self).text().len(),
        ensures
            final(self).wf(),
            final(self).text() == old(self).text(),
            match lex_step(old(self).text(), old(self).position()) {
                LexStep::Ws { next } => r matches Ok(None) && final(self).position() == next,
                LexStep::Tok { token, .. } => (r matches Ok(t2) && t2 matches Some(t) && t@
                    == token) && final(self).position() == old(self).position(),
                LexStep::Fail { err } => (r matches Err(e) && e == err) && final(self).position()
                    == old(self).position(),
            },
    {
        let ghost s = self.src@;
        let ghost i = self.pos as int;
        let first_char = self.src.get_char(self.pos);
        proof {
            lemma_lex_step_bounds(s, i);
        }
        match first_char {
            ' ' | '\n' | '\t' => {
                self.advance(1);
                Ok(None)
            },
            '(' => Ok(Some(self.single_char_token(TokenType::OpenParen))),
            ')' => Ok(Some(self.single_char_token(TokenType::CloseParen))),
            '[' => Ok(Some(self.single_char_token(TokenType::OpenBracket))),
            ']' => Ok(Some(self.single_char_token(TokenType::CloseBracket))),
            '{' => Ok(Some(self.single_char_token(TokenType::OpenBrace))),
            '}' => Ok(Some(self.single_char_token(TokenType::CloseBrace))),
            ',' => Ok(Some(self.single_char_token(TokenType::Comma))),
            ';' => Ok(Some(self.single_char_token(TokenType::Semicolon))),
            '=' => Ok(Some(self.single_char_token(TokenType::AssignmentOperator))),
            '+' | '-' | '*' | '/' | '%' => {
                let second = self.peek(2);
                let second_is_slash = match second {
                    Some(c2) => c2 == '/',
                    None => false,
                };
                if first_char == '/' && second_is_slash {
                    proof {
                        lemma_find_char(s, i + 2, '\n');
                    }
                    let comment = self.peek_until('\n', 2, true).unwrap();
                    let n = comment.as_str().unicode_len();
                    self.advance(n + 2);
                    return Ok(None);
                }
                let second_is_eq = match second {
                    Some(c2) => c2 == '=',
                    None => false,
                };
                if second_is_eq {
                    let value = self.peek_string(2).unwrap();
                    Ok(Some(Token::new(TokenType::AssignmentOperator, value)))
                } else {
                    Ok(Some(self.single_char_token(TokenType::Operator)))
                }
            },
            '\'' => {
                match self.peek_until('\'', 1, false) {
                    Some(contents) => {
                        proof {
                            lemma_find_char(s, i + 1, '\'');
                        }
                        let clen = contents.as_str().unicode_len();
                        let value = String::from_str(
                            self.src.substring_char(self.pos, self.pos + clen + 2),
                        );
                        Ok(Some(Token::new(TokenType::CharLiteral, value)))
                    },
                    None => Err(LexError::UnterminatedCharLiteral),
                }
            },
            '"' => {
                match self.peek_until('"', 1, false) {
                    Some(contents) => {
                        proof {
                            lemma_find_char(s, i + 1, '"');
                        }
                        let clen = contents.as_str().unicode_len();
                        let value = String::from_str(
                            self.src.substring_char(self.pos, self.pos + clen + 2),
                        );
                        Ok(Some(Token::new(TokenType::StringLiteral, value)))
                    },
                    None => Err(LexError::UnterminatedStringLiteral),
                }
            },
            _ => {
                if crate::text::digit_char(first_char) {
                    proof {
                        lemma_scan_number_end(s, i);
                        assert(scan_number_end(s, i) == scan_number_end(s, i + 1));
                        lemma_scan_number_end(s, i + 1);
                    }
                    let num = self.peek_number();
                    let nlen = num.as_str().unicode_len();
                    let dots = count_char_in(num.as_str(), '.');
                    if dots <= 1 && num.as_str().get_char(0) != '.' && num.as_str().get_char(
                        nlen - 1,
                    ) != '.' {
                        Ok(Some(Token::new(TokenType::NumberLiteral, num)))
                    } else {
                        Err(LexError::InvalidNumber)
                    }
                } else if crate::text::alpha_char(first_char) {
                    let name = self.peek_name();
                    let kind = if crate::text::text_eq(name.as_str(), "let") || crate::text::text_eq(
                        name.as_str(),
                        "if",
                    ) || crate::text::text_eq(name.as_str(), "else") || crate::text::text_eq(
                        name.as_str(),
                        "while",
                    ) {
                        TokenType::Keyword
                    } else if crate::text::text_eq(name.as_str(), "int") || crate::text::text_eq(
                        name.as_str(),
                        "uint",
                    ) || crate::text::text_eq(name.as_str(), "float") || crate::text::text_eq(
                        name.as_str(),
                        "ufloat",
                    ) || crate::text::text_eq(name.as_str(), "bool") || crate::text::text_eq(
                        name.as_str(),
                        "char",
                    ) || crate::text::text_eq(name.as_str(), "str") {
                        TokenType::InbuiltType
                    } else if crate::text::text_eq(name.as_str(), "true") || crate::text::text_eq(
                        name.as_str(),
                        "false",
                    ) {
                        TokenType::BoolLiteral
                    } else {
                        TokenType::Name
                    };
                    Ok(Some(Token::new(kind, name)))
                } else {
                    Err(LexError::UnexpectedChar { found: first_char })
                }
            },
        }
    }

    /// Builds the one-character token at the cursor.
    fn single_char_token(&self, kind: TokenType) -> (r: Token)
        requires
            self.wf(),
            self.position() < self.text().len(),
        ensures
            r@ == (TokenModel {
                kind,
                text: self.text().subrange(self.position(), self.position() + 1),
            }),
    {
        Token::new(kind, String::from_str(self.src.substring_char(self.pos, self.pos + 1)))
    }
}

/// How many times `c` occurs in `s`.
pub fn count_char_in(s: &str, c: char) -> (r: usize)
    ensures
        r == count_char(s@, c),
{
    let l = s.unicode_len();
    let mut i: usize = 0;
    let mut cnt: usize = 0;
    proof {
        assert(s@.subrange(0, 0) =~= Seq::<char>::empty());
    }
    while i < l
        invariant
            l == s@.len(),
            0 <= i <= l,
            cnt <= i,
            cnt == count_char(s@.subrange(0, i as int), c),
        decreases l - i,
    {
        let ch = s.get_char(i);
        proof {
            assert(s@.subrange(0, i as int + 1).drop_last() =~= s@.subrange(0, i as int));
            assert(s@.subrange(0, i as int + 1).last() == s@[i as int]);
        }
        if ch == c {
            cnt += 1;
        }
        i += 1;
    }
    proof {
        assert(s@.subrange(0, l as int) =~= s@);
    }
    cnt
}

/// Tokenizes `source`: the full token sequence, or the first lexical error,
/// exactly as `lex_spec` describes.
pub fn create_tokens(source: String) -> (r: Result<Vec<Token>, LexError>)
    ensures
        match lex_spec(source@) {
            LexOut::Toks { tokens } => r matches Ok(ts) && token_views(ts@) == tokens && tokens_wf(
                token_views(ts@),
            ),
            LexOut::Fail { err } => r matches Err(e) && e == err,
        },
{
    tokenize_str(source.as_str())
}

/// Tokenizes the text behind `src`; `create_tokens` delegates here.
pub fn tokenize_str(src: &str) -> (r: Result<Vec<Token>, LexError>)
    ensures
        match lex_spec(src@) {
            LexOut::Toks { tokens } => r matches Ok(ts) && token_views(ts@) == tokens && tokens_wf(
                token_views(ts@),
            ),
            LexOut::Fail { err } => r matches Err(e) && e == err,
        },
{
    let ghost s = src@;
    let mut tokens: Vec<Token> = Vec::new();
    let mut tokenizer = Tokenizer::new(src);
    proof {
        assert(token_views(tokens@) =~= Seq::<TokenModel>::empty());
        assert(lex_cont(token_views(tokens@), lex_from(s, 0)) == lex_from(s, 0)) by {
            match lex_from(s, 0) {
                LexOut::Toks { tokens: ts } => {
                    assert(token_views(tokens@) + ts =~= ts);
                },
                LexOut::Fail { .. } => {},
            }
        }
    }
    while !tokenizer.is_empty()
        invariant
            s == src@,
            tokenizer.wf(),
            tokenizer.text() == s,
            lex_cont(token_views(tokens@), lex_from(s, tokenizer.position())) == lex_from(s, 0),
        decreases s.len() - tokenizer.position(),
    {
        let ghost i = tokenizer.position();
        proof {
            lemma_lex_step_bounds(s, i);
        }
        match tokenizer.next_token() {
            Err(e) => {
                proof {
                    match lex_step(s, i) {
                        LexStep::Fail { err } => {
                            assert(lex_from(s, i) == (LexOut::Fail { err }));
                        },
                        _ => {
                            assert(false);
                        },
                    }
                    assert(lex_from(s, 0) == (LexOut::Fail { err: e }));
                }
                return Err(e);
            },
            Ok(None) => {
                proof {
                    match lex_step(s, i) {
                        LexStep::Ws { next } => {
                            assert(step_idx(next, i, s.len() as int) == next);
                        },
                        _ => {},
                    }
                }
            },
            Ok(Some(token)) => {
                let n = token.value.as_str().unicode_len();
                tokenizer.advance(n);
                let ghost old_tokens = tokens@;
                tokens.push(token);
                proof {
                    assert(token_views(tokens@) =~= token_views(old_tokens) + seq![token@]);
                    match lex_step(s, i) {
                        LexStep::Tok { token: tm, next } => {
                            assert(step_idx(next, i, s.len() as int) == next);
                            match lex_from(s, next) {
                                LexOut::Toks { tokens: rest } => {
                                    assert((token_views(old_tokens) + seq![token@]) + rest
                                        =~= token_views(old_tokens) + (seq![token@] + rest));
                                },
                                LexOut::Fail { .. } => {},
                            }
                        },
                        _ => {},
                    }
                }
            },
        }
    }
    proof {
        assert(lex_from(s, tokenizer.position()) matches LexOut::Toks { tokens: ts } && ts
            =~= Seq::<TokenModel>::empty());
        match lex_from(s, 0) {
            LexOut::Toks { tokens: all } => {
                assert(token_views(tokens@) + Seq::<TokenModel>::empty() =~= token_views(tokens@));
                lemma_lex_from_wf(s, 0);
            },
            LexOut::Fail { .. } => {},
        }
    }
    Ok(tokens)
}

} // verus!
