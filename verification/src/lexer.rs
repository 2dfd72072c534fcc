//! The lexer: from source text to tokens.
//!
//! The token grammar is stated as spec functions over `Seq<char>`:
//! [`next_token`] says which token starts a text and how long it is, and
//! [`lex`] says what a whole text lexes to. [`tokenize`] is proved to compute
//! [`lex`]. Identifiers and integer constants are found with the `regex`
//! crate; everything else is compared character by character.
//! [`law_adjacent_tokens`] and [`law_separated_tokens`] say when two tokens
//! written one after the other are read as those two tokens.

use crate::text::{append_decimal, decimal, is_digit, parse_decimal, parse_i32, str_equals};
use regex::Regex;
use vstd::prelude::*;

verus! {

/// The reserved words of the language.
#[derive(Debug, Clone, Copy, PartialEq, Eq, Structural)]
pub enum Keyword {
    Int,
    Void,
    Return,
}

/// One token of the source text.
#[derive(Debug, Clone, PartialEq, Eq)]
pub enum Token {
    Identifier(String),
    Constant(i32),
    Keyword(Keyword),
    OpenParen,
    CloseParen,
    OpenBrace,
    CloseBrace,
    Semicolon,
    BitwiseComplement,
    Subtraction,
    Addition,
    Multiplication,
    Division,
    Remainder,
}

/// The mathematical model of a [`Token`]: the same token with the name of an
/// identifier as a sequence of characters.
pub enum TokenView {
    Identifier(Seq<char>),
    Constant(i32),
    Keyword(Keyword),
    OpenParen,
    CloseParen,
    OpenBrace,
    CloseBrace,
    Semicolon,
    BitwiseComplement,
    Subtraction,
    Addition,
    Multiplication,
    Division,
    Remainder,
}

impl View for Token {
    type V = TokenView;

    open spec fn view(&self) -> TokenView {
        match self {
            Token::Identifier(name) => TokenView::Identifier(name@),
            Token::Constant(value) => TokenView::Constant(*value),
            Token::Keyword(keyword) => TokenView::Keyword(*keyword),
            Token::OpenParen => TokenView::OpenParen,
            Token::CloseParen => TokenView::CloseParen,
            Token::OpenBrace => TokenView::OpenBrace,
            Token::CloseBrace => TokenView::CloseBrace,
            Token::Semicolon => TokenView::Semicolon,
            Token::BitwiseComplement => TokenView::BitwiseComplement,
            Token::Subtraction => TokenView::Subtraction,
            Token::Addition => TokenView::Addition,
            Token::Multiplication => TokenView::Multiplication,
            Token::Division => TokenView::Division,
            Token::Remainder => TokenView::Remainder,
        }
    }
}

/// The models of a sequence of tokens, in order.
pub open spec fn token_views(tokens: Seq<Token>) -> Seq<TokenView> {
    tokens.map_values(|t: Token| t@)
}

/// How a keyword is written in a message.
pub open spec fn describe_keyword(keyword: Keyword) -> Seq<char> {
    match keyword {
        Keyword::Int => "Keyword(Int)"@,
        Keyword::Void => "Keyword(Void)"@,
        Keyword::Return => "Keyword(Return)"@,
    }
}

/// How a token is written in a message: the name of its kind, followed in
/// parentheses by the quoted name of an identifier or the value of a constant.
pub open spec fn describe_token(token: TokenView) -> Seq<char> {
    match token {
        TokenView::Identifier(name) => "Identifier(\""@ + name + "\")"@,
        TokenView::Constant(value) => "Constant("@ + decimal(value as int) + ")"@,
        TokenView::Keyword(keyword) => describe_keyword(keyword),
        TokenView::OpenParen => "OpenParen"@,
        TokenView::CloseParen => "CloseParen"@,
        TokenView::OpenBrace => "OpenBrace"@,
        TokenView::CloseBrace => "CloseBrace"@,
        TokenView::Semicolon => "Semicolon"@,
        TokenView::BitwiseComplement => "BitwiseComplement"@,
        TokenView::Subtraction => "Subtraction"@,
        TokenView::Addition => "Addition"@,
        TokenView::Multiplication => "Multiplication"@,
        TokenView::Division => "Division"@,
        TokenView::Remainder => "Remainder"@,
    }
}

impl Token {
    /// Whether two tokens are the same token.
    pub fn same_as(&self, other: &Token) -> (r: bool)
        ensures
            r == (self@ == other@),
    {
        match (self, other) {
            (Token::Identifier(a), Token::Identifier(b)) => str_equals(a.as_str(), b.as_str()),
            (Token::Constant(a), Token::Constant(b)) => *a == *b,
            (Token::Keyword(a), Token::Keyword(b)) => *a == *b,
            (Token::OpenParen, Token::OpenParen) => true,
            (Token::CloseParen, Token::CloseParen) => true,
            (Token::OpenBrace, Token::OpenBrace) => true,
            (Token::CloseBrace, Token::CloseBrace) => true,
            (Token::Semicolon, Token::Semicolon) => true,
            (Token::BitwiseComplement, Token::BitwiseComplement) => true,
            (Token::Subtraction, Token::Subtraction) => true,
            (Token::Addition, Token::Addition) => true,
            (Token::Multiplication, Token::Multiplication) => true,
            (Token::Division, Token::Division) => true,
            (Token::Remainder, Token::Remainder) => true,
            _ => false,
        }
    }

    /// The token as it is written in a message.
    pub fn describe(&self) -> (r: String)
        ensures
            r@ == describe_token(self@),
    {
        match self {
            Token::Identifier(name) => {
                let mut out = String::from_str("Identifier(\"");
                out.append(name.as_str());
                out.append("\")");
                out
            },
            Token::Constant(value) => {
                let mut out = String::from_str("Constant(");
                append_decimal(&mut out, *value);
                out.append(")");
                out
            },
            Token::Keyword(Keyword::Int) => String::from_str("Keyword(Int)"),
            Token::Keyword(Keyword::Void) => String::from_str("Keyword(Void)"),
            Token::Keyword(Keyword::Return) => String::from_str("Keyword(Return)"),
            Token::OpenParen => String::from_str("OpenParen"),
            Token::CloseParen => String::from_str("CloseParen"),
            Token::OpenBrace => String::from_str("OpenBrace"),
            Token::CloseBrace => String::from_str("CloseBrace"),
            Token::Semicolon => String::from_str("Semicolon"),
            Token::BitwiseComplement => String::from_str("BitwiseComplement"),
            Token::Subtraction => String::from_str("Subtraction"),
            Token::Addition => String::from_str("Addition"),
            Token::Multiplication => String::from_str("Multiplication"),
            Token::Division => String::from_str("Division"),
            Token::Remainder => String::from_str("Remainder"),
        }
    }
}

//
// The character classes
//

/// The ASCII characters that separate tokens and are otherwise ignored:
/// space, tab, line feed, vertical tab, form feed and carriage return.
pub open spec fn is_whitespace(c: char) -> bool {
    c == ' ' || c == '\t' || c == '\n' || c == '\x0B' || c == '\x0C' || c == '\r'
}

/// A character that may start an identifier: an ASCII letter or `_`.
pub open spec fn is_identifier_start(c: char) -> bool {
    ('a' <= c && c <= 'z') || ('A' <= c && c <= 'Z') || c == '_'
}

/// Whether a character outside ASCII belongs to the class `\w` of the `regex`
/// crate, which follows the Unicode tables.
pub uninterp spec fn unicode_word(c: char) -> bool;

/// A word character, the class `\w` of the `regex` crate: among the ASCII
/// characters the letters, the digits and `_`; outside ASCII whatever the
/// Unicode tables of that crate say.
pub open spec fn is_word_char(c: char) -> bool {
    if (c as u32) < 128 {
        is_identifier_start(c) || is_digit(c)
    } else {
        unicode_word(c)
    }
}

/// The number of word characters at the start of `s`.
pub open spec fn word_run(s: Seq<char>) -> nat
    decreases s.len(),
{
    if s.len() > 0 && is_word_char(s[0]) {
        1 + word_run(s.skip(1))
    } else {
        0
    }
}

/// The number of ASCII digits at the start of `s`.
pub open spec fn digit_run(s: Seq<char>) -> nat
    decreases s.len(),
{
    if s.len() > 0 && is_digit(s[0]) {
        1 + digit_run(s.skip(1))
    } else {
        0
    }
}

//
// The rules
//

/// The pattern of identifiers and keywords.
pub const IDENTIFIER_PATTERN: &'static str = r"^[a-zA-Z_]\w*\b";

/// The pattern of integer constants.
pub const CONSTANT_PATTERN: &'static str = r"^[0-9]+\b";

/// The length of the identifier or keyword at the start of `s`, if one starts
/// there: a letter or `_`, then every word character that follows.
pub open spec fn identifier_match(s: Seq<char>) -> Option<nat> {
    if s.len() > 0 && is_identifier_start(s[0]) {
        Some(word_run(s))
    } else {
        None
    }
}

/// The length of the integer constant at the start of `s`, if one starts
/// there: every digit found, provided that no word character follows them.
pub open spec fn constant_match(s: Seq<char>) -> Option<nat> {
    let n = digit_run(s);
    if n > 0 && (n == s.len() || !is_word_char(s[n as int])) {
        Some(n)
    } else {
        None
    }
}

/// The token that a single punctuation character stands for.
pub open spec fn punctuator(c: char) -> Option<TokenView> {
    if c == '(' {
        Some(TokenView::OpenParen)
    } else if c == ')' {
        Some(TokenView::CloseParen)
    } else if c == '{' {
        Some(TokenView::OpenBrace)
    } else if c == '}' {
        Some(TokenView::CloseBrace)
    } else if c == ';' {
        Some(TokenView::Semicolon)
    } else if c == '~' {
        Some(TokenView::BitwiseComplement)
    } else if c == '-' {
        Some(TokenView::Subtraction)
    } else if c == '+' {
        Some(TokenView::Addition)
    } else if c == '*' {
        Some(TokenView::Multiplication)
    } else if c == '/' {
        Some(TokenView::Division)
    } else if c == '%' {
        Some(TokenView::Remainder)
    } else {
        None
    }
}

/// The keyword that `s` spells, if it spells one.
pub open spec fn keyword_of(s: Seq<char>) -> Option<Keyword> {
    if s == "int"@ {
        Some(Keyword::Int)
    } else if s == "void"@ {
        Some(Keyword::Void)
    } else if s == "return"@ {
        Some(Keyword::Return)
    } else {
        None
    }
}

/// The token for a word: a keyword if it spells one, else an identifier.
pub open spec fn word_token(s: Seq<char>) -> TokenView {
    match keyword_of(s) {
        Some(keyword) => TokenView::Keyword(keyword),
        None => TokenView::Identifier(s),
    }
}

/// What lexing a run of digits gives: the constant, or the failure for a
/// number that does not fit in 32 bits.
pub open spec fn constant_token(s: Seq<char>) -> Result<TokenView, Seq<char>> {
    match parse_i32(s) {
        Some(value) => Ok(TokenView::Constant(value)),
        None => Err("Invalid constant: "@ + s),
    }
}

/// The failure for the reserved `--`.
pub open spec fn decrement_message() -> Seq<char> {
    "Decrement not supported: --"@
}

/// The failure for a text that no rule matches.
pub open spec fn unexpected_message(s: Seq<char>) -> Seq<char> {
    "Unexpected token: "@ + s
}

/// The first token of `s` and the number of characters it takes, or the
/// failure. The rules are tried in a fixed order: identifier or keyword,
/// integer constant, the reserved `--`, then the single punctuation
/// characters.
pub open spec fn next_token(s: Seq<char>) -> Result<(TokenView, nat), Seq<char>> {
    match identifier_match(s) {
        Some(n) => Ok((word_token(s.take(n as int)), n)),
        None => match constant_match(s) {
            Some(n) => match constant_token(s.take(n as int)) {
                Ok(token) => Ok((token, n)),
                Err(message) => Err(message),
            },
            None => if s.len() >= 2 && s[0] == '-' && s[1] == '-' {
                Err(decrement_message())
            } else if s.len() >= 1 && punctuator(s[0]) is Some {
                Ok((punctuator(s[0])->0, 1))
            } else {
                Err(unexpected_message(s))
            },
        },
    }
}

/// `s` without the whitespace at its start.
pub open spec fn skip_whitespace(s: Seq<char>) -> Seq<char>
    decreases s.len(),
{
    if s.len() > 0 && is_whitespace(s[0]) {
        skip_whitespace(s.skip(1))
    } else {
        s
    }
}

/// `tokens` followed by what `rest` holds, or the failure of `rest`.
pub open spec fn prepend(tokens: Seq<TokenView>, rest: Result<Seq<TokenView>, Seq<char>>) -> Result<
    Seq<TokenView>,
    Seq<char>,
> {
    match rest {
        Ok(more) => Ok(tokens + more),
        Err(message) => Err(message),
    }
}

/// The tokens of a whole text, or the failure of the first place where no
/// token can be read: whitespace is dropped, then a token is read, and so on
/// until the text is used up.
pub open spec fn lex(s: Seq<char>) -> Result<Seq<TokenView>, Seq<char>>
    decreases s.len(),
    via lex_decreases
{
    let t = skip_whitespace(s);
    if t.len() == 0 {
        Ok(Seq::empty())
    } else {
        match next_token(t) {
            Ok((token, n)) => prepend(seq![token], lex(t.skip(n as int))),
            Err(message) => Err(message),
        }
    }
}

#[via_fn]
proof fn lex_decreases(s: Seq<char>) {
    let t = skip_whitespace(s);
    lemma_skip_whitespace(s);
    if t.len() != 0 {
        lemma_next_token_length(t);
    }
}

//
// Facts about the rules
//

/// Skipping whitespace drops a prefix, leaves no whitespace at the start, and
/// has nothing more to drop when done twice.
pub proof fn lemma_skip_whitespace(s: Seq<char>)
    ensures
        skip_whitespace(s).len() <= s.len(),
        skip_whitespace(s) == s.skip(s.len() - skip_whitespace(s).len()),
        skip_whitespace(s).len() > 0 ==> !is_whitespace(skip_whitespace(s)[0]),
        skip_whitespace(skip_whitespace(s)) == skip_whitespace(s),
    decreases s.len(),
{
    if s.len() > 0 && is_whitespace(s[0]) {
        lemma_skip_whitespace(s.skip(1));
    }
}

/// A run of word characters: its length is within the text, every character
/// in it is a word character, and the one after it, if any, is not.
pub proof fn lemma_word_run(s: Seq<char>)
    ensures
        word_run(s) <= s.len(),
        forall|i: int| 0 <= i < word_run(s) ==> is_word_char(#[trigger] s[i]),
        word_run(s) < s.len() ==> !is_word_char(s[word_run(s) as int]),
    decreases s.len(),
{
    if s.len() > 0 && is_word_char(s[0]) {
        let t = s.skip(1);
        lemma_word_run(t);
        assert forall|i: int| 0 <= i < word_run(s) implies is_word_char(#[trigger] s[i]) by {
            if i > 0 {
                assert(s[i] == t[i - 1]);
            }
        }
    }
}

/// A run of digits: its length is within the text, every character in it is
/// a digit, and the one after it, if any, is not.
pub proof fn lemma_digit_run(s: Seq<char>)
    ensures
        digit_run(s) <= s.len(),
        forall|i: int| 0 <= i < digit_run(s) ==> is_digit(#[trigger] s[i]),
        digit_run(s) < s.len() ==> !is_digit(s[digit_run(s) as int]),
    decreases s.len(),
{
    if s.len() > 0 && is_digit(s[0]) {
        let t = s.skip(1);
        lemma_digit_run(t);
        assert forall|i: int| 0 <= i < digit_run(s) implies is_digit(#[trigger] s[i]) by {
            if i > 0 {
                assert(s[i] == t[i - 1]);
            }
        }
    }
}

/// A token that is read takes at least one character and no more than there
/// are.
pub proof fn lemma_next_token_length(s: Seq<char>)
    ensures
        next_token(s) matches Ok((_, n)) ==> 1 <= n <= s.len(),
{
    lemma_word_run(s);
    lemma_digit_run(s);
}

//
// The lexer
//

/// The match of `pattern` at the start of `input`, as the `regex` crate finds
/// it: `Regex::new(pattern)`, then `captures(input)`, then the text of group 0.
///
/// The two patterns that the contract admits are well-formed, so that
/// `Regex::new` accepts them. Both are anchored with `^`, so a match is a
/// prefix of `input`. The contract states which prefix, reading the patterns
/// as the crate documents them.
///
/// For [`IDENTIFIER_PATTERN`]: `[a-zA-Z_]` takes one ASCII letter or `_`, the
/// greedy `\w*` takes every word character that follows, and `\b` then holds
/// because what follows, if anything, is not a word character.
///
/// For [`CONSTANT_PATTERN`]: the greedy `[0-9]+` takes every ASCII digit, and
/// `\b` holds after them only if no word character follows; after fewer
/// digits it never holds, since a digit follows a digit.
///
/// Which characters outside ASCII are word characters is left to the Unicode
/// tables of the crate, under the name [`unicode_word`].
#[verifier::external_body]
fn leading_match(pattern: &str, input: &str) -> (r: Option<String>)
    requires
        pattern@ == IDENTIFIER_PATTERN@ || pattern@ == CONSTANT_PATTERN@,
    ensures
        r matches Some(m) ==> m@.len() <= input@.len() && m@ == input@.take(m@.len() as int),
        r matches Some(m) ==> forall|i: int|
            0 <= i < m@.len() && m@[i] as u32 >= 128 ==> unicode_word(#[trigger] m@[i]),
        pattern@ == IDENTIFIER_PATTERN@ ==> (match r {
            Some(m) => identifier_match(input@) == Some(m@.len()),
            None => identifier_match(input@) is None,
        }),
        pattern@ == CONSTANT_PATTERN@ ==> (match r {
            Some(m) => constant_match(input@) == Some(m@.len()),
            None => constant_match(input@) is None,
        }),
{
    Regex::new(pattern).ok()?.captures(input)?.get(0).map(|m| m.as_str().to_owned())
}

impl Keyword {
    /// The keyword that `s` spells.
    pub fn from_str(s: &str) -> (r: Result<Keyword, ()>)
        ensures
            r == (match keyword_of(s@) {
                Some(keyword) => Ok::<Keyword, ()>(keyword),
                None => Err::<Keyword, ()>(()),
            }),
    {
        if str_equals(s, "int") {
            Ok(Keyword::Int)
        } else if str_equals(s, "void") {
            Ok(Keyword::Void)
        } else if str_equals(s, "return") {
            Ok(Keyword::Return)
        } else {
            Err(())
        }
    }
}

impl std::str::FromStr for Keyword {
    type Err = ();

    fn from_str(s: &str) -> (r: Result<Keyword, ()>)
        ensures
            r == (match keyword_of(s@) {
                Some(keyword) => Ok::<Keyword, ()>(keyword),
                None => Err::<Keyword, ()>(()),
            }),
    {
        Keyword::from_str(s)
    }
}

/// The token for the word `s`: a keyword if it spells one, else an identifier
/// of that name.
pub fn tokenize_identifier_or_keyword(s: &str) -> (r: Result<Token, String>)
    ensures
        r matches Ok(token) && token@ == word_token(s@),
{
    match Keyword::from_str(s) {
        Ok(keyword) => Ok(Token::Keyword(keyword)),
        Err(_) => Ok(Token::Identifier(String::from_str(s))),
    }
}

/// The constant that `s` spells, or the failure when `s` is not a number
/// that fits in 32 bits.
pub fn tokenize_constant(s: &str) -> (r: Result<Token, String>)
    ensures
        match constant_token(s@) {
            Ok(token) => r matches Ok(t) && t@ == token,
            Err(message) => r matches Err(e) && e@ == message,
        },
{
    match parse_decimal(s) {
        Some(value) => Ok(Token::Constant(value)),
        None => Err(String::from_str("Invalid constant: ").concat(s)),
    }
}

/// The token for a single punctuation character, if it is one.
fn tokenize_punctuator(c: char) -> (r: Option<Token>)
    ensures
        match punctuator(c) {
            Some(token) => r matches Some(t) && t@ == token,
            None => r is None,
        },
{
    if c == '(' {
        Some(Token::OpenParen)
    } else if c == ')' {
        Some(Token::CloseParen)
    } else if c == '{' {
        Some(Token::OpenBrace)
    } else if c == '}' {
        Some(Token::CloseBrace)
    } else if c == ';' {
        Some(Token::Semicolon)
    } else if c == '~' {
        Some(Token::BitwiseComplement)
    } else if c == '-' {
        Some(Token::Subtraction)
    } else if c == '+' {
        Some(Token::Addition)
    } else if c == '*' {
        Some(Token::Multiplication)
    } else if c == '/' {
        Some(Token::Division)
    } else if c == '%' {
        Some(Token::Remainder)
    } else {
        None
    }
}

/// Reads the first token of `input` and returns it with the rest of the text.
pub fn tokenize_next<'a>(input: &'a str) -> (r: Result<(Token, &'a str), String>)
    ensures
        match next_token(input@) {
            Ok((token, n)) => r matches Ok((t, rest)) && t@ == token && rest@ == input@.skip(
                n as int,
            ),
            Err(message) => r matches Err(e) && e@ == message,
        },
{
    let len = input.unicode_len();
    if len == 0 {
        return Err(String::from_str("Unexpected token: ").concat(input));
    }
    let first = input.get_char(0);
    if is_identifier_start_char(first) {
        if let Some(matched) = leading_match(IDENTIFIER_PATTERN, input) {
            let n = matched.as_str().unicode_len();
            return match tokenize_identifier_or_keyword(matched.as_str()) {
                Ok(token) => Ok((token, input.substring_char(n, len))),
                Err(e) => Err(e),
            };
        }
    } else if is_digit_char(first) {
        if let Some(matched) = leading_match(CONSTANT_PATTERN, input) {
            let n = matched.as_str().unicode_len();
            return match tokenize_constant(matched.as_str()) {
                Ok(token) => Ok((token, input.substring_char(n, len))),
                Err(e) => Err(e),
            };
        }
    }
    if len >= 2 && first == '-' && input.get_char(1) == '-' {
        return Err(String::from_str("Decrement not supported: --"));
    }
    if let Some(token) = tokenize_punctuator(first) {
        return Ok((token, input.substring_char(1, len)));
    }
    Err(String::from_str("Unexpected token: ").concat(input))
}

fn is_identifier_start_char(c: char) -> (r: bool)
    ensures
        r == is_identifier_start(c),
{
    (c >= 'a' && c <= 'z') || (c >= 'A' && c <= 'Z') || c == '_'
}

fn is_digit_char(c: char) -> (r: bool)
    ensures
        r == is_digit(c),
{
    c >= '0' && c <= '9'
}

/// Drops the whitespace at the start of `input`.
pub fn trim_start(input: &str) -> (r: &str)
    ensures
        r@ == skip_whitespace(input@),
{
    let len = input.unicode_len();
    let mut i: usize = 0;
    assert(input@.skip(0) =~= input@);
    while i < len && is_whitespace_char(input.get_char(i))
        invariant
            len == input@.len(),
            i <= len,
            skip_whitespace(input@) == skip_whitespace(input@.skip(i as int)),
        decreases len - i,
    {
        assert(input@.skip(i as int).skip(1) =~= input@.skip(i + 1));
        i = i + 1;
    }
    input.substring_char(i, len)
}

fn is_whitespace_char(c: char) -> (r: bool)
    ensures
        r == is_whitespace(c),
{
    c == ' ' || c == '\t' || c == '\n' || c == '\x0B' || c == '\x0C' || c == '\r'
}

/// Splits a source text into its tokens.
///
/// Succeeds exactly when [`lex`] does, with the tokens that it names, and
/// otherwise fails with its message.
pub fn tokenize(input: &str) -> (r: Result<Vec<Token>, String>)
    ensures
        match lex(input@) {
            Ok(tokens) => r matches Ok(ts) && token_views(ts@) == tokens,
            Err(message) => r matches Err(e) && e@ == message,
        },
{
    let mut tokens: Vec<Token> = Vec::new();
    let mut remaining = trim_start(input);
    proof {
        lemma_skip_whitespace(input@);
    }
    while !remaining.is_empty()
        invariant
            lex(input@) == prepend(token_views(tokens@), lex(remaining@)),
            skip_whitespace(remaining@) == remaining@,
        decreases remaining@.len(),
    {
        proof {
            lemma_next_token_length(remaining@);
        }
        match tokenize_next(remaining) {
            Ok((token, rest)) => {
                let ghost before = token_views(tokens@);
                let ghost head = token@;
                tokens.push(token);
                proof {
                    assert(token_views(tokens@) =~= before + seq![head]);
                    lemma_skip_whitespace(rest@);
                    lemma_prepend_twice(before, seq![head], lex(rest@));
                }
                remaining = trim_start(rest);
            },
            Err(e) => {
                return Err(e);
            },
        }
    }
    Ok(tokens)
}

/// Whitespace at the start of a text does not change what it lexes to.
pub proof fn lemma_lex_skips_whitespace(s: Seq<char>)
    ensures
        lex(skip_whitespace(s)) == lex(s),
{
    lemma_skip_whitespace(s);
}

proof fn lemma_prepend_twice(
    a: Seq<TokenView>,
    b: Seq<TokenView>,
    rest: Result<Seq<TokenView>, Seq<char>>,
)
    ensures
        prepend(a, prepend(b, rest)) == prepend(a + b, rest),
{
    if let Ok(more) = rest {
        assert(a + (b + more) =~= (a + b) + more);
    }
}

//
// Tokens written one after the other
//

/// The token is an identifier, a keyword or a constant: one that is made of
/// word characters.
pub open spec fn is_word_token(token: TokenView) -> bool {
    token is Identifier || token is Keyword || token is Constant
}

/// The text is the token and nothing else.
pub open spec fn spells(text: Seq<char>, token: TokenView) -> bool {
    next_token(text) == Ok::<(TokenView, nat), Seq<char>>((token, text.len()))
}

/// A text of which the first `n` characters are word characters and the next
/// one, if any, is not, starts with a run of `n` word characters.
pub proof fn lemma_word_run_is(s: Seq<char>, n: nat)
    requires
        n <= s.len(),
        forall|i: int| 0 <= i < n ==> is_word_char(#[trigger] s[i]),
        n < s.len() ==> !is_word_char(s[n as int]),
    ensures
        word_run(s) == n,
    decreases n,
{
    if n > 0 {
        let t = s.skip(1);
        lemma_word_run_is(t, (n - 1) as nat);
    }
}

/// A text of which the first `n` characters are digits and the next one, if
/// any, is not, starts with a run of `n` digits.
pub proof fn lemma_digit_run_is(s: Seq<char>, n: nat)
    requires
        n <= s.len(),
        forall|i: int| 0 <= i < n ==> is_digit(#[trigger] s[i]),
        n < s.len() ==> !is_digit(s[n as int]),
    ensures
        digit_run(s) == n,
    decreases n,
{
    if n > 0 {
        let t = s.skip(1);
        lemma_digit_run_is(t, (n - 1) as nat);
    }
}

/// A text that is one token lexes to that token.
pub proof fn lemma_lex_one_token(text: Seq<char>, token: TokenView)
    requires
        spells(text, token),
    ensures
        text.len() > 0,
        !is_whitespace(text[0]),
        lex(text) == Ok::<Seq<TokenView>, Seq<char>>(seq![token]),
{
    assert(text.skip(text.len() as int) =~= Seq::<char>::empty());
    assert(lex(Seq::<char>::empty()) == Ok::<Seq<TokenView>, Seq<char>>(Seq::empty()));
}

/// Two tokens written one after the other, with nothing between them, lex to
/// those two tokens, except where the two texts run together: a word or
/// number followed by a word or number reads as one word, or as none, and
/// `-` followed by `-` is the reserved `--`.
pub proof fn law_adjacent_tokens(
    first: Seq<char>,
    a: TokenView,
    second: Seq<char>,
    b: TokenView,
)
    requires
        spells(first, a),
        spells(second, b),
        !(is_word_token(a) && is_word_token(b)),
        !(a is Subtraction && b is Subtraction),
    ensures
        lex(first + second) == Ok::<Seq<TokenView>, Seq<char>>(seq![a, b]),
{
    let s = first + second;
    let n = first.len();
    lemma_lex_one_token(second, b);
    lemma_word_run(first);
    assert(s.take(n as int) =~= first);
    assert(first.take(n as int) =~= first);
    assert(s.skip(n as int) =~= second);
    if identifier_match(first) is Some {
        lemma_word_run_is(s, n);
    } else if constant_match(first) is Some {
        lemma_digit_run_is(s, n);
    }
    assert(seq![a] + seq![b] =~= seq![a, b]);
}

/// A gap between tokens: one whitespace character or more.
pub open spec fn is_gap(s: Seq<char>) -> bool {
    s.len() > 0 && forall|i: int| 0 <= i < s.len() ==> is_whitespace(#[trigger] s[i])
}

/// Whitespace before a text that starts with none is all that is skipped.
proof fn lemma_skip_gap(gap: Seq<char>, rest: Seq<char>)
    requires
        forall|i: int| 0 <= i < gap.len() ==> is_whitespace(#[trigger] gap[i]),
        rest.len() > 0 ==> !is_whitespace(rest[0]),
    ensures
        skip_whitespace(gap + rest) == rest,
    decreases gap.len(),
{
    if gap.len() > 0 {
        assert((gap + rest).skip(1) =~= gap.skip(1) + rest);
        lemma_skip_gap(gap.skip(1), rest);
    }
}

/// Two tokens written with whitespace between them always lex to those two
/// tokens.
pub proof fn law_separated_tokens(
    first: Seq<char>,
    a: TokenView,
    gap: Seq<char>,
    second: Seq<char>,
    b: TokenView,
)
    requires
        spells(first, a),
        spells(second, b),
        is_gap(gap),
    ensures
        lex(first + gap + second) == Ok::<Seq<TokenView>, Seq<char>>(seq![a, b]),
{
    let rest = gap + second;
    let s = first + rest;
    let n = first.len();
    assert(first + gap + second =~= s);
    lemma_lex_one_token(second, b);
    lemma_word_run(first);
    assert(s.take(n as int) =~= first);
    assert(first.take(n as int) =~= first);
    assert(s.skip(n as int) =~= rest);
    if identifier_match(first) is Some {
        lemma_word_run_is(s, n);
    } else if constant_match(first) is Some {
        lemma_digit_run_is(s, n);
    }
    lemma_skip_gap(gap, second);
    lemma_lex_skips_whitespace(rest);
    assert(seq![a] + seq![b] =~= seq![a, b]);
}

} // verus!
