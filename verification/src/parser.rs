//! The parser: from tokens to the syntax tree.
//!
//! The grammar is stated as spec functions over a sequence of token models
//! and a position in it. [`parse_tokens`] says what a whole token sequence
//! parses to, tree or message, and [`parse`] is proved to compute it. Binary
//! expressions are read by precedence climbing; [`law_precedence`] and
//! [`law_left_associative`] say what shape of tree that gives,
//! [`law_written_program_parses`] that every tree is the reading of a text,
//! and [`law_parser_is_deterministic`] that the tokens decide the result.

use crate::lexer::{describe_token, token_views, Keyword, Token, TokenView};
use crate::text::{append_decimal, decimal};
use vstd::prelude::*;

verus! {

/// A name in the source text.
#[derive(Debug, Clone, PartialEq, Eq)]
pub enum Identifier {
    Identifier(String),
}

/// A whole program: exactly one function.
#[derive(Debug, Clone, PartialEq, Eq)]
pub enum Program {
    Program(FunctionDefinition),
}

/// A function with its single statement.
#[derive(Debug, Clone, PartialEq, Eq)]
pub enum FunctionDefinition {
    Function { name: Identifier, body: Statement },
}

#[derive(Debug, Clone, PartialEq, Eq)]
pub enum Statement {
    Return(Expression),
}

#[derive(Debug, PartialEq, Eq)]
pub enum Expression {
    Constant(i32),
    Unary(UnaryOperator, Box<Expression>),
    Binary(BinaryOperator, Box<Expression>, Box<Expression>),
}

impl Clone for Expression {
    fn clone(&self) -> (r: Self)
        ensures
            r == *self,
        decreases self,
    {
        match self {
            Expression::Constant(value) => Expression::Constant(*value),
            Expression::Unary(op, operand) => Expression::Unary(
                *op,
                Box::new((&**operand).clone()),
            ),
            Expression::Binary(op, left, right) => Expression::Binary(
                *op,
                Box::new((&**left).clone()),
                Box::new((&**right).clone()),
            ),
        }
    }
}

#[derive(Debug, Clone, Copy, PartialEq, Eq, Structural)]
pub enum UnaryOperator {
    Complement,
    Negate,
}

#[derive(Debug, Clone, Copy, PartialEq, Eq, Structural)]
pub enum BinaryOperator {
    Multiply,
    Divide,
    Remainder,
    Add,
    Subtract,
}

/// The mathematical model of a function, and of the program that holds it:
/// the characters of its name and its body.
pub struct FunctionView {
    pub name: Seq<char>,
    pub body: Statement,
}

impl View for Identifier {
    type V = Seq<char>;

    open spec fn view(&self) -> Seq<char> {
        match self {
            Identifier::Identifier(name) => name@,
        }
    }
}

impl View for FunctionDefinition {
    type V = FunctionView;

    open spec fn view(&self) -> FunctionView {
        match self {
            FunctionDefinition::Function { name, body } => FunctionView {
                name: name@,
                body: *body,
            },
        }
    }
}

impl View for Program {
    type V = FunctionView;

    open spec fn view(&self) -> FunctionView {
        match self {
            Program::Program(function) => function@,
        }
    }
}

//
// The grammar
//

/// What a parsing step gives: a value and the position after it, or a message.
pub type Parsed<T> = Result<(T, nat), Seq<char>>;

/// The binary operator that a token stands for.
pub open spec fn binary_operator(token: TokenView) -> Option<BinaryOperator> {
    match token {
        TokenView::Multiplication => Some(BinaryOperator::Multiply),
        TokenView::Division => Some(BinaryOperator::Divide),
        TokenView::Remainder => Some(BinaryOperator::Remainder),
        TokenView::Addition => Some(BinaryOperator::Add),
        TokenView::Subtraction => Some(BinaryOperator::Subtract),
        _ => None,
    }
}

/// How tightly a binary operator binds: 50 for `* / %`, 45 for `+ -`.
pub open spec fn precedence(op: BinaryOperator) -> int {
    match op {
        BinaryOperator::Multiply | BinaryOperator::Divide | BinaryOperator::Remainder => 50,
        BinaryOperator::Add | BinaryOperator::Subtract => 45,
    }
}

/// The message for a token that is not the one the grammar asks for.
pub open spec fn mismatch_message(expected: TokenView, found: TokenView) -> Seq<char> {
    "Expected "@ + describe_token(expected) + ", found "@ + describe_token(found)
}

/// The message for a token sequence that ends where the grammar asks for a
/// token.
pub open spec fn end_message(expected: TokenView) -> Seq<char> {
    "Expected "@ + describe_token(expected) + ", found EOF"@
}

/// Reads the token `expected` at `pos`.
pub open spec fn expect_at(tokens: Seq<TokenView>, pos: nat, expected: TokenView) -> Parsed<()> {
    if pos >= tokens.len() {
        Err(end_message(expected))
    } else if tokens[pos as int] == expected {
        Ok(((), pos + 1))
    } else {
        Err(mismatch_message(expected, tokens[pos as int]))
    }
}

/// Reads an identifier at `pos`.
pub open spec fn identifier_at(tokens: Seq<TokenView>, pos: nat) -> Parsed<Seq<char>> {
    if pos < tokens.len() && tokens[pos as int] is Identifier {
        Ok((tokens[pos as int]->Identifier_0, pos + 1))
    } else {
        Err("Expected identifier"@)
    }
}

/// Goes on from what was read so far by reading the token `expected`; the
/// value read so far is kept.
pub open spec fn and_expect<T>(so_far: Parsed<T>, tokens: Seq<TokenView>, expected: TokenView) -> Parsed<
    T,
> {
    match so_far {
        Ok((value, pos)) => match expect_at(tokens, pos, expected) {
            Ok((_, next)) => Ok((value, next)),
            Err(message) => Err(message),
        },
        Err(message) => Err(message),
    }
}

/// Reads a factor at `pos`: a constant, a unary operator applied to a factor,
/// or an expression in parentheses.
pub open spec fn factor_at(tokens: Seq<TokenView>, pos: nat) -> Parsed<Expression>
    decreases tokens.len() - pos, 0nat,
{
    if pos >= tokens.len() {
        Err("Expected valid factor"@)
    } else {
        match tokens[pos as int] {
            TokenView::Constant(value) => Ok((Expression::Constant(value), pos + 1)),
            TokenView::BitwiseComplement => unary_at(UnaryOperator::Complement, tokens, pos + 1),
            TokenView::Subtraction => unary_at(UnaryOperator::Negate, tokens, pos + 1),
            TokenView::OpenParen => and_expect(
                expression_at(tokens, pos + 1, 0),
                tokens,
                TokenView::CloseParen,
            ),
            _ => Err("Expected valid factor"@),
        }
    }
}

/// Reads the operand of the unary operator `op` at `pos`.
pub open spec fn unary_at(op: UnaryOperator, tokens: Seq<TokenView>, pos: nat) -> Parsed<
    Expression,
>
    decreases tokens.len() - pos, 1nat,
{
    match factor_at(tokens, pos) {
        Ok((operand, end)) => Ok((Expression::Unary(op, Box::new(operand)), end)),
        Err(message) => Err(message),
    }
}

/// Reads an expression at `pos` whose binary operators all bind at least as
/// tightly as `min_prec`: a factor, then operators and right operands for as
/// long as they come.
pub open spec fn expression_at(tokens: Seq<TokenView>, pos: nat, min_prec: int) -> Parsed<
    Expression,
>
    decreases tokens.len() - pos, 1nat,
{
    match factor_at(tokens, pos) {
        Ok((left, end)) => if pos < end <= tokens.len() {
            climb_at(tokens, end, left, min_prec)
        } else {
            Ok((left, end))
        },
        Err(message) => Err(message),
    }
}

/// The binary operator at `pos`, if there is one that binds at least as
/// tightly as `min_prec`.
pub open spec fn operator_at(tokens: Seq<TokenView>, pos: nat, min_prec: int) -> Option<
    BinaryOperator,
> {
    if pos < tokens.len() {
        match binary_operator(tokens[pos as int]) {
            Some(op) => if precedence(op) >= min_prec {
                Some(op)
            } else {
                None
            },
            None => None,
        }
    } else {
        None
    }
}

/// Goes on from `left`, an expression that ends at `pos`: while an operator
/// that binds at least as tightly as `min_prec` follows, its right operand is
/// read with operators that bind more tightly than it, and the two are joined
/// to the new left operand.
///
/// The test on `end` here and in [`expression_at`] makes the definitions
/// well-founded; by [`lemma_factor_advances`] and [`lemma_expression_advances`]
/// it always holds.
pub open spec fn climb_at(tokens: Seq<TokenView>, pos: nat, left: Expression, min_prec: int) -> Parsed<
    Expression,
>
    decreases tokens.len() - pos, 0nat,
{
    match operator_at(tokens, pos, min_prec) {
        Some(op) => match expression_at(tokens, pos + 1, precedence(op) + 1) {
            Ok((right, end)) => if pos < end <= tokens.len() {
                climb_at(
                    tokens,
                    end,
                    Expression::Binary(op, Box::new(left), Box::new(right)),
                    min_prec,
                )
            } else {
                Ok((left, pos))
            },
            Err(message) => Err(message),
        },
        None => Ok((left, pos)),
    }
}

/// Reads a statement at `pos`: `return`, an expression, `;`.
pub open spec fn statement_at(tokens: Seq<TokenView>, pos: nat) -> Parsed<Statement> {
    match expect_at(tokens, pos, TokenView::Keyword(Keyword::Return)) {
        Ok((_, start)) => match expression_at(tokens, start, 0) {
            Ok((value, end)) => and_expect(
                Ok((Statement::Return(value), end)),
                tokens,
                TokenView::Semicolon,
            ),
            Err(message) => Err(message),
        },
        Err(message) => Err(message),
    }
}

/// Reads the head of a function at `pos`, up to the brace that opens its
/// body: `int`, the name, `( void ) {`. Gives the name.
pub open spec fn function_head_at(tokens: Seq<TokenView>, pos: nat) -> Parsed<Seq<char>> {
    match expect_at(tokens, pos, TokenView::Keyword(Keyword::Int)) {
        Ok((_, start)) => and_expect(
            and_expect(
                and_expect(
                    and_expect(identifier_at(tokens, start), tokens, TokenView::OpenParen),
                    tokens,
                    TokenView::Keyword(Keyword::Void),
                ),
                tokens,
                TokenView::CloseParen,
            ),
            tokens,
            TokenView::OpenBrace,
        ),
        Err(message) => Err(message),
    }
}

/// Reads a function at `pos`: its head, a statement, `}`.
pub open spec fn function_at(tokens: Seq<TokenView>, pos: nat) -> Parsed<FunctionView> {
    match function_head_at(tokens, pos) {
        Ok((name, start)) => match statement_at(tokens, start) {
            Ok((body, end)) => and_expect(
                Ok((FunctionView { name, body }, end)),
                tokens,
                TokenView::CloseBrace,
            ),
            Err(message) => Err(message),
        },
        Err(message) => Err(message),
    }
}

/// What a whole token sequence parses to: the one function, provided that no
/// token is left after it.
pub open spec fn parse_tokens(tokens: Seq<TokenView>) -> Result<FunctionView, Seq<char>> {
    match function_at(tokens, 0) {
        Ok((function, end)) => if end < tokens.len() {
            Err("Unexpected content after main function"@)
        } else {
            Ok(function)
        },
        Err(message) => Err(message),
    }
}

//
// Facts about the grammar
//

/// A factor that is read takes at least one token and ends within the
/// sequence.
pub proof fn lemma_factor_advances(tokens: Seq<TokenView>, pos: nat)
    ensures
        factor_at(tokens, pos) matches Ok((_, end)) ==> pos < end <= tokens.len(),
    decreases tokens.len() - pos, 0nat,
{
    if pos < tokens.len() {
        match tokens[pos as int] {
            TokenView::BitwiseComplement | TokenView::Subtraction => {
                lemma_factor_advances(tokens, pos + 1);
            },
            TokenView::OpenParen => {
                lemma_expression_advances(tokens, pos + 1, 0);
            },
            _ => {},
        }
    }
}

/// An expression that is read takes at least one token and ends within the
/// sequence.
pub proof fn lemma_expression_advances(tokens: Seq<TokenView>, pos: nat, min_prec: int)
    ensures
        expression_at(tokens, pos, min_prec) matches Ok((_, end)) ==> pos < end <= tokens.len(),
    decreases tokens.len() - pos, 1nat,
{
    lemma_factor_advances(tokens, pos);
    if let Ok((left, end)) = factor_at(tokens, pos) {
        lemma_climb_advances(tokens, end, left, min_prec);
    }
}

/// An expression that goes on from a position ends at or after it, within
/// the sequence.
pub proof fn lemma_climb_advances(tokens: Seq<TokenView>, pos: nat, left: Expression, min_prec: int)
    requires
        pos <= tokens.len(),
    ensures
        climb_at(tokens, pos, left, min_prec) matches Ok((_, end)) ==> pos <= end <= tokens.len(),
    decreases tokens.len() - pos, 0nat,
{
    if let Some(op) = operator_at(tokens, pos, min_prec) {
        lemma_expression_advances(tokens, pos + 1, precedence(op) + 1);
        if let Ok((right, end)) = expression_at(tokens, pos + 1, precedence(op) + 1) {
            lemma_climb_advances(
                tokens,
                end,
                Expression::Binary(op, Box::new(left), Box::new(right)),
                min_prec,
            );
        }
    }
}

//
// The laws of precedence climbing
//

/// An operator that binds more tightly takes its operands first: where
/// `high` binds more tightly than `low`, the text `a low b high c` is read as
/// `a low (b high c)`.
///
/// The three operands are any factors, given by where they stand in the
/// token sequence, and the expression ends after the third.
pub proof fn law_precedence(
    tokens: Seq<TokenView>,
    start: nat,
    a: Expression,
    low_at: nat,
    low: BinaryOperator,
    b: Expression,
    high_at: nat,
    high: BinaryOperator,
    c: Expression,
    end: nat,
)
    requires
        factor_at(tokens, start) == Ok::<(Expression, nat), Seq<char>>((a, low_at)),
        low_at < tokens.len() && binary_operator(tokens[low_at as int]) == Some(low),
        factor_at(tokens, low_at + 1) == Ok::<(Expression, nat), Seq<char>>((b, high_at)),
        high_at < tokens.len() && binary_operator(tokens[high_at as int]) == Some(high),
        factor_at(tokens, high_at + 1) == Ok::<(Expression, nat), Seq<char>>((c, end)),
        end < tokens.len() ==> binary_operator(tokens[end as int]) is None,
        precedence(high) > precedence(low),
    ensures
        expression_at(tokens, start, 0) == Ok::<(Expression, nat), Seq<char>>(
            (
                Expression::Binary(
                    low,
                    Box::new(a),
                    Box::new(Expression::Binary(high, Box::new(b), Box::new(c))),
                ),
                end,
            ),
        ),
{
    lemma_factor_advances(tokens, start);
    lemma_factor_advances(tokens, low_at + 1);
    lemma_factor_advances(tokens, high_at + 1);
    let inner = Expression::Binary(high, Box::new(b), Box::new(c));
    let outer = Expression::Binary(low, Box::new(a), Box::new(inner));
    assert(expression_at(tokens, high_at + 1, precedence(high) + 1) == Ok::<
        (Expression, nat),
        Seq<char>,
    >((c, end)));
    assert(climb_at(tokens, end, inner, precedence(low) + 1) == Ok::<(Expression, nat), Seq<char>>(
        (inner, end),
    ));
    assert(expression_at(tokens, low_at + 1, precedence(low) + 1) == Ok::<
        (Expression, nat),
        Seq<char>,
    >((inner, end)));
    assert(climb_at(tokens, end, outer, 0) == Ok::<(Expression, nat), Seq<char>>((outer, end)));
}

/// Binary operators associate to the left: where `second` binds no more
/// tightly than `first`, the text `a first b second c` is read as
/// `(a first b) second c`. This holds in particular of an operator and
/// itself, so `a - b - c` is `(a - b) - c`.
///
/// The three operands are any factors, given by where they stand in the
/// token sequence, and the expression ends after the third.
pub proof fn law_left_associative(
    tokens: Seq<TokenView>,
    start: nat,
    a: Expression,
    first_at: nat,
    first: BinaryOperator,
    b: Expression,
    second_at: nat,
    second: BinaryOperator,
    c: Expression,
    end: nat,
)
    requires
        factor_at(tokens, start) == Ok::<(Expression, nat), Seq<char>>((a, first_at)),
        first_at < tokens.len() && binary_operator(tokens[first_at as int]) == Some(first),
        factor_at(tokens, first_at + 1) == Ok::<(Expression, nat), Seq<char>>((b, second_at)),
        second_at < tokens.len() && binary_operator(tokens[second_at as int]) == Some(second),
        factor_at(tokens, second_at + 1) == Ok::<(Expression, nat), Seq<char>>((c, end)),
        end < tokens.len() ==> binary_operator(tokens[end as int]) is None,
        precedence(first) >= precedence(second),
    ensures
        expression_at(tokens, start, 0) == Ok::<(Expression, nat), Seq<char>>(
            (
                Expression::Binary(
                    second,
                    Box::new(Expression::Binary(first, Box::new(a), Box::new(b))),
                    Box::new(c),
                ),
                end,
            ),
        ),
{
    lemma_factor_advances(tokens, start);
    lemma_factor_advances(tokens, first_at + 1);
    lemma_factor_advances(tokens, second_at + 1);
    let inner = Expression::Binary(first, Box::new(a), Box::new(b));
    let outer = Expression::Binary(second, Box::new(inner), Box::new(c));
    assert(expression_at(tokens, first_at + 1, precedence(first) + 1) == Ok::<
        (Expression, nat),
        Seq<char>,
    >((b, second_at)));
    assert(expression_at(tokens, second_at + 1, precedence(second) + 1) == Ok::<
        (Expression, nat),
        Seq<char>,
    >((c, end)));
    assert(climb_at(tokens, end, outer, 0) == Ok::<(Expression, nat), Seq<char>>((outer, end)));
    assert(climb_at(tokens, second_at, inner, 0) == Ok::<(Expression, nat), Seq<char>>(
        (outer, end),
    ));
}

//
// Every tree is the reading of a text
//

/// The token that a unary operator is written with.
pub open spec fn unary_token(op: UnaryOperator) -> TokenView {
    match op {
        UnaryOperator::Complement => TokenView::BitwiseComplement,
        UnaryOperator::Negate => TokenView::Subtraction,
    }
}

/// The token that a binary operator is written with.
pub open spec fn binary_token(op: BinaryOperator) -> TokenView {
    match op {
        BinaryOperator::Multiply => TokenView::Multiplication,
        BinaryOperator::Divide => TokenView::Division,
        BinaryOperator::Remainder => TokenView::Remainder,
        BinaryOperator::Add => TokenView::Addition,
        BinaryOperator::Subtract => TokenView::Subtraction,
    }
}

/// The tokens of an expression written with every binary operation in
/// parentheses.
pub open spec fn written(e: Expression) -> Seq<TokenView>
    decreases e,
{
    match e {
        Expression::Constant(value) => seq![TokenView::Constant(value)],
        Expression::Unary(op, operand) => seq![unary_token(op)] + written(*operand),
        Expression::Binary(op, left, right) => seq![TokenView::OpenParen] + written(*left)
            + seq![binary_token(op)] + written(*right) + seq![TokenView::CloseParen],
    }
}

/// The tokens of a program whose function has the given name and returns the
/// given expression.
pub open spec fn written_program(name: Seq<char>, e: Expression) -> Seq<TokenView> {
    seq![
        TokenView::Keyword(Keyword::Int),
        TokenView::Identifier(name),
        TokenView::OpenParen,
        TokenView::Keyword(Keyword::Void),
        TokenView::CloseParen,
        TokenView::OpenBrace,
        TokenView::Keyword(Keyword::Return),
    ] + written(e) + seq![TokenView::Semicolon, TokenView::CloseBrace]
}

/// The tokens `piece` stand in `tokens` from `pos` on.
pub open spec fn stands_at(tokens: Seq<TokenView>, pos: nat, piece: Seq<TokenView>) -> bool {
    &&& pos + piece.len() <= tokens.len()
    &&& forall|k: int| 0 <= k < piece.len() ==> tokens[pos + k] == #[trigger] piece[k]
}

/// Wherever the tokens of an expression stand, they are read as a factor,
/// and the factor is that expression.
pub proof fn lemma_written_is_read(tokens: Seq<TokenView>, pos: nat, e: Expression)
    requires
        stands_at(tokens, pos, written(e)),
    ensures
        factor_at(tokens, pos) == Ok::<(Expression, nat), Seq<char>>(
            (e, (pos + written(e).len()) as nat),
        ),
    decreases e,
{
    let piece = written(e);
    let p = pos as int;
    assert(tokens[p + 0] == piece[0]);
    match e {
        Expression::Constant(value) => {},
        Expression::Unary(op, operand) => {
            let inner = written(*operand);
            assert forall|k: int| 0 <= k < inner.len() implies tokens[p + 1 + k]
                == #[trigger] inner[k] by {
                assert(tokens[p + (k + 1)] == piece[k + 1]);
            }
            lemma_written_is_read(tokens, pos + 1, *operand);
        },
        Expression::Binary(op, left, right) => {
            let a = written(*left);
            let b = written(*right);
            let la = a.len() as int;
            let lb = b.len() as int;
            let operator_pos = (pos + 1 + a.len()) as nat;
            let close_pos = (operator_pos + 1 + b.len()) as nat;
            assert(tokens[p + (1 + la)] == piece[1 + la]);
            assert(tokens[p + (2 + la + lb)] == piece[2 + la + lb]);
            assert forall|k: int| 0 <= k < a.len() implies tokens[p + 1 + k] == #[trigger] a[k] by {
                assert(tokens[p + (k + 1)] == piece[k + 1]);
            }
            assert forall|k: int| 0 <= k < b.len() implies tokens[operator_pos + 1 + k]
                == #[trigger] b[k] by {
                assert(tokens[p + (k + 2 + la)] == piece[k + 2 + la]);
            }
            lemma_written_is_read(tokens, pos + 1, *left);
            lemma_written_is_read(tokens, operator_pos + 1, *right);
            let whole = Expression::Binary(op, left, right);
            assert(expression_at(tokens, operator_pos + 1, precedence(op) + 1) == Ok::<
                (Expression, nat),
                Seq<char>,
            >((*right, close_pos)));
            assert(climb_at(tokens, close_pos, whole, 0) == Ok::<(Expression, nat), Seq<char>>(
                (whole, close_pos),
            ));
            assert(expression_at(tokens, pos + 1, 0) == Ok::<(Expression, nat), Seq<char>>(
                (whole, close_pos),
            ));
        },
    }
}

/// Every tree is the reading of a text: the tokens of a program, written
/// with every binary operation in parentheses, parse to that program.
pub proof fn law_written_program_parses(name: Seq<char>, e: Expression)
    ensures
        parse_tokens(written_program(name, e)) == Ok::<FunctionView, Seq<char>>(
            FunctionView { name, body: Statement::Return(e) },
        ),
{
    let tokens = written_program(name, e);
    lemma_written_is_read(tokens, 7, e);
}

//
// The parser
//

/// How tightly a binary operator binds.
pub fn get_precedence(op: &BinaryOperator) -> (r: i32)
    ensures
        r == precedence(*op),
{
    match op {
        BinaryOperator::Multiply | BinaryOperator::Divide | BinaryOperator::Remainder => 50,
        BinaryOperator::Add | BinaryOperator::Subtract => 45,
    }
}

/// The binary operator that a token stands for.
pub fn token_to_binary_operator(token: &Token) -> (r: Option<BinaryOperator>)
    ensures
        r == binary_operator(token@),
{
    match token {
        Token::Multiplication => Some(BinaryOperator::Multiply),
        Token::Division => Some(BinaryOperator::Divide),
        Token::Remainder => Some(BinaryOperator::Remainder),
        Token::Addition => Some(BinaryOperator::Add),
        Token::Subtraction => Some(BinaryOperator::Subtract),
        _ => None,
    }
}

/// Reads the token `expected` at `pos` and gives the position after it.
pub fn expect(tokens: &Vec<Token>, pos: usize, expected: &Token) -> (r: Result<usize, String>)
    ensures
        match expect_at(token_views(tokens@), pos as nat, expected@) {
            Ok((_, next)) => r matches Ok(n) && n == next,
            Err(message) => r matches Err(e) && e@ == message,
        },
{
    if pos >= tokens.len() {
        let mut message = String::from_str("Expected ");
        message.append(expected.describe().as_str());
        message.append(", found EOF");
        Err(message)
    } else if tokens[pos].same_as(expected) {
        Ok(pos + 1)
    } else {
        let mut message = String::from_str("Expected ");
        message.append(expected.describe().as_str());
        message.append(", found ");
        message.append(tokens[pos].describe().as_str());
        Err(message)
    }
}

/// Reads an identifier at `pos`.
pub fn parse_identifier(tokens: &Vec<Token>, pos: usize) -> (r: Result<(Identifier, usize), String>)
    ensures
        match identifier_at(token_views(tokens@), pos as nat) {
            Ok((name, next)) => r matches Ok((id, n)) && id@ == name && n == next,
            Err(message) => r matches Err(e) && e@ == message,
        },
{
    if pos < tokens.len() {
        if let Token::Identifier(name) = &tokens[pos] {
            return Ok((Identifier::Identifier(name.clone()), pos + 1));
        }
    }
    Err(String::from_str("Expected identifier"))
}

/// Whether the result `r` of a parsing function is what the grammar gives.
pub open spec fn reads_as<T>(r: Result<(T, usize), String>, parsed: Parsed<T>) -> bool {
    match parsed {
        Ok((value, next)) => r matches Ok((v, n)) && v == value && n == next,
        Err(message) => r matches Err(e) && e@ == message,
    }
}

/// Reads a factor at `pos`.
pub fn parse_factor(tokens: &Vec<Token>, pos: usize) -> (r: Result<(Expression, usize), String>)
    ensures
        reads_as(r, factor_at(token_views(tokens@), pos as nat)),
    decreases tokens.len() - pos, 0nat,
{
    if pos >= tokens.len() {
        return Err(String::from_str("Expected valid factor"));
    }
    match &tokens[pos] {
        Token::Constant(value) => Ok((Expression::Constant(*value), pos + 1)),
        Token::BitwiseComplement => parse_unary_operation(
            UnaryOperator::Complement,
            tokens,
            pos + 1,
        ),
        Token::Subtraction => parse_unary_operation(UnaryOperator::Negate, tokens, pos + 1),
        Token::OpenParen => match parse_expression(tokens, pos + 1, 0) {
            Ok((inner, end)) => match expect(tokens, end, &Token::CloseParen) {
                Ok(after) => Ok((inner, after)),
                Err(e) => Err(e),
            },
            Err(e) => Err(e),
        },
        _ => Err(String::from_str("Expected valid factor")),
    }
}

/// Reads the operand of the unary operator `operator` at `pos`.
pub fn parse_unary_operation(operator: UnaryOperator, tokens: &Vec<Token>, pos: usize) -> (r:
    Result<(Expression, usize), String>)
    ensures
        reads_as(r, unary_at(operator, token_views(tokens@), pos as nat)),
    decreases tokens.len() - pos, 1nat,
{
    match parse_factor(tokens, pos) {
        Ok((operand, end)) => Ok((Expression::Unary(operator, Box::new(operand)), end)),
        Err(e) => Err(e),
    }
}

/// The binary operator at `pos`, if there is one that binds at least as
/// tightly as `min_prec`.
fn peek_operator(tokens: &Vec<Token>, pos: usize, min_prec: i32) -> (r: Option<BinaryOperator>)
    ensures
        r == operator_at(token_views(tokens@), pos as nat, min_prec as int),
{
    if pos < tokens.len() {
        match token_to_binary_operator(&tokens[pos]) {
            Some(op) => if get_precedence(&op) >= min_prec {
                Some(op)
            } else {
                None
            },
            None => None,
        }
    } else {
        None
    }
}

/// Reads an expression at `pos` whose binary operators all bind at least as
/// tightly as `min_prec`.
pub fn parse_expression(tokens: &Vec<Token>, pos: usize, min_prec: i32) -> (r: Result<
    (Expression, usize),
    String,
>)
    ensures
        reads_as(r, expression_at(token_views(tokens@), pos as nat, min_prec as int)),
    decreases tokens.len() - pos, 1nat,
{
    let ghost views = token_views(tokens@);
    let (mut left, mut end) = match parse_factor(tokens, pos) {
        Ok(read) => read,
        Err(e) => {
            return Err(e);
        },
    };
    proof {
        lemma_factor_advances(views, pos as nat);
    }
    loop
        invariant
            views == token_views(tokens@),
            pos < end <= tokens.len(),
            expression_at(views, pos as nat, min_prec as int) == climb_at(
                views,
                end as nat,
                left,
                min_prec as int,
            ),
        decreases tokens.len() - end,
    {
        match peek_operator(tokens, end, min_prec) {
            None => {
                return Ok((left, end));
            },
            Some(op) => {
                proof {
                    lemma_expression_advances(views, (end + 1) as nat, precedence(op) + 1);
                }
                match parse_expression(tokens, end + 1, get_precedence(&op) + 1) {
                    Ok((right, next)) => {
                        left = Expression::Binary(op, Box::new(left), Box::new(right));
                        end = next;
                    },
                    Err(e) => {
                        return Err(e);
                    },
                }
            },
        }
    }
}

/// Reads a statement at `pos`.
pub fn parse_statement(tokens: &Vec<Token>, pos: usize) -> (r: Result<(Statement, usize), String>)
    ensures
        reads_as(r, statement_at(token_views(tokens@), pos as nat)),
{
    let start = match expect(tokens, pos, &Token::Keyword(Keyword::Return)) {
        Ok(next) => next,
        Err(e) => {
            return Err(e);
        },
    };
    match parse_expression(tokens, start, 0) {
        Ok((value, end)) => match expect(tokens, end, &Token::Semicolon) {
            Ok(after) => Ok((Statement::Return(value), after)),
            Err(e) => Err(e),
        },
        Err(e) => Err(e),
    }
}

/// Reads a function at `pos`.
pub fn parse_function(tokens: &Vec<Token>, pos: usize) -> (r: Result<
    (FunctionDefinition, usize),
    String,
>)
    ensures
        match function_at(token_views(tokens@), pos as nat) {
            Ok((function, next)) => r matches Ok((f, n)) && f@ == function && n == next,
            Err(message) => r matches Err(e) && e@ == message,
        },
{
    let start = match expect(tokens, pos, &Token::Keyword(Keyword::Int)) {
        Ok(next) => next,
        Err(e) => {
            return Err(e);
        },
    };
    let (name, after_name) = match parse_identifier(tokens, start) {
        Ok(read) => read,
        Err(e) => {
            return Err(e);
        },
    };
    let after_paren = match expect(tokens, after_name, &Token::OpenParen) {
        Ok(next) => next,
        Err(e) => {
            return Err(e);
        },
    };
    let after_void = match expect(tokens, after_paren, &Token::Keyword(Keyword::Void)) {
        Ok(next) => next,
        Err(e) => {
            return Err(e);
        },
    };
    let after_close = match expect(tokens, after_void, &Token::CloseParen) {
        Ok(next) => next,
        Err(e) => {
            return Err(e);
        },
    };
    let body_at = match expect(tokens, after_close, &Token::OpenBrace) {
        Ok(next) => next,
        Err(e) => {
            return Err(e);
        },
    };
    match parse_statement(tokens, body_at) {
        Ok((body, end)) => match expect(tokens, end, &Token::CloseBrace) {
            Ok(next) => Ok((FunctionDefinition::Function { name, body }, next)),
            Err(e) => Err(e),
        },
        Err(e) => Err(e),
    }
}

/// Reads a program at `pos`: one function.
pub fn parse_program(tokens: &Vec<Token>, pos: usize) -> (r: Result<(Program, usize), String>)
    ensures
        match function_at(token_views(tokens@), pos as nat) {
            Ok((function, next)) => r matches Ok((p, n)) && p@ == function && n == next,
            Err(message) => r matches Err(e) && e@ == message,
        },
{
    match parse_function(tokens, pos) {
        Ok((function, next)) => Ok((Program::Program(function), next)),
        Err(e) => Err(e),
    }
}

/// The result `r` is what the grammar makes of the tokens: the program that
/// [`parse_tokens`] names, or its message.
pub open spec fn is_parse_of(r: Result<Program, String>, tokens: Seq<TokenView>) -> bool {
    match parse_tokens(tokens) {
        Ok(function) => r matches Ok(p) && p@ == function,
        Err(message) => r matches Err(e) && e@ == message,
    }
}

/// Parses a whole token sequence.
///
/// Succeeds exactly when [`parse_tokens`] does, with the program that it
/// names, and otherwise fails with its message.
pub fn parse(tokens: Vec<Token>) -> (r: Result<Program, String>)
    ensures
        is_parse_of(r, token_views(tokens@)),
{
    match parse_program(&tokens, 0) {
        Ok((program, end)) => {
            if end < tokens.len() {
                Err(String::from_str("Unexpected content after main function"))
            } else {
                Ok(program)
            }
        },
        Err(e) => Err(e),
    }
}

/// The parser is deterministic: two results for the same tokens are the same
/// program, or the same message.
pub proof fn law_parser_is_deterministic(
    tokens: Seq<TokenView>,
    first: Result<Program, String>,
    second: Result<Program, String>,
)
    requires
        is_parse_of(first, tokens),
        is_parse_of(second, tokens),
    ensures
        match first {
            Ok(program) => second matches Ok(other) && other@ == program@,
            Err(message) => second matches Err(other) && other@ == message@,
        },
{
}

//
// The text of a tree
//

pub open spec fn unary_operator_text(op: UnaryOperator) -> Seq<char> {
    match op {
        UnaryOperator::Complement => "Complement"@,
        UnaryOperator::Negate => "Negate"@,
    }
}

pub open spec fn binary_operator_text(op: BinaryOperator) -> Seq<char> {
    match op {
        BinaryOperator::Multiply => "Multiply"@,
        BinaryOperator::Divide => "Divide"@,
        BinaryOperator::Remainder => "Remainder"@,
        BinaryOperator::Add => "Add"@,
        BinaryOperator::Subtract => "Subtract"@,
    }
}

/// The text of an expression whose first line starts after the indentation
/// `indent`: a constant on one line, an operator with each of its parts on a
/// line of its own, two spaces further in.
pub open spec fn expression_text(e: Expression, indent: Seq<char>) -> Seq<char>
    decreases e,
{
    let inner = indent + "  "@;
    match e {
        Expression::Constant(value) => "Constant("@ + decimal(value as int) + ")"@,
        Expression::Unary(op, operand) => "Unary(\n"@ + inner + unary_operator_text(op) + ",\n"@
            + inner + expression_text(*operand, inner) + "\n"@ + indent + ")"@,
        Expression::Binary(op, left, right) => "Binary(\n"@ + inner + binary_operator_text(op)
            + ",\n"@ + inner + expression_text(*left, inner) + ",\n"@ + inner + expression_text(
            *right,
            inner,
        ) + "\n"@ + indent + ")"@,
    }
}

/// The text of a statement whose first line starts after `indent`.
pub open spec fn statement_text(s: Statement, indent: Seq<char>) -> Seq<char> {
    let inner = indent + "  "@;
    match s {
        Statement::Return(e) => "Return(\n"@ + inner + expression_text(e, inner) + "\n"@ + indent
            + ")"@,
    }
}

/// The text of a function whose first line starts after `indent`.
pub open spec fn function_text(f: FunctionView, indent: Seq<char>) -> Seq<char> {
    let inner = indent + "  "@;
    "Function(\n"@ + inner + "name=\""@ + f.name + "\",\n"@ + inner + "body="@ + statement_text(
        f.body,
        inner,
    ) + "\n"@ + indent + ")"@
}

/// The text of a program.
pub open spec fn program_text(f: FunctionView) -> Seq<char> {
    "Program(\n  "@ + function_text(f, "  "@) + "\n)"@
}

impl UnaryOperator {
    /// The name of the operator.
    pub fn to_string(&self) -> (r: String)
        ensures
            r@ == unary_operator_text(*self),
    {
        match self {
            UnaryOperator::Complement => String::from_str("Complement"),
            UnaryOperator::Negate => String::from_str("Negate"),
        }
    }
}

impl BinaryOperator {
    /// The name of the operator.
    pub fn to_string(&self) -> (r: String)
        ensures
            r@ == binary_operator_text(*self),
    {
        match self {
            BinaryOperator::Multiply => String::from_str("Multiply"),
            BinaryOperator::Divide => String::from_str("Divide"),
            BinaryOperator::Remainder => String::from_str("Remainder"),
            BinaryOperator::Add => String::from_str("Add"),
            BinaryOperator::Subtract => String::from_str("Subtract"),
        }
    }
}

impl Identifier {
    /// The name.
    pub fn to_string(&self) -> (r: String)
        ensures
            r@ == self@,
    {
        match self {
            Identifier::Identifier(name) => name.clone(),
        }
    }
}

/// The indentation one level further in than `indent`.
fn deeper(indent: &str) -> (r: String)
    ensures
        r@ == indent@ + "  "@,
{
    String::from_str(indent).concat("  ")
}

impl Expression {
    /// The text of the expression, whose first line starts after `indent`.
    fn text(&self, indent: &str) -> (r: String)
        ensures
            r@ == expression_text(*self, indent@),
        decreases self,
    {
        let inner = deeper(indent);
        match self {
            Expression::Constant(value) => {
                let mut out = String::from_str("Constant(");
                append_decimal(&mut out, *value);
                out.append(")");
                out
            },
            Expression::Unary(op, operand) => {
                let mut out = String::from_str("Unary(\n");
                out.append(inner.as_str());
                out.append(op.to_string().as_str());
                out.append(",\n");
                out.append(inner.as_str());
                out.append(operand.text(inner.as_str()).as_str());
                out.append("\n");
                out.append(indent);
                out.append(")");
                out
            },
            Expression::Binary(op, left, right) => {
                let mut out = String::from_str("Binary(\n");
                out.append(inner.as_str());
                out.append(op.to_string().as_str());
                out.append(",\n");
                out.append(inner.as_str());
                out.append(left.text(inner.as_str()).as_str());
                out.append(",\n");
                out.append(inner.as_str());
                out.append(right.text(inner.as_str()).as_str());
                out.append("\n");
                out.append(indent);
                out.append(")");
                out
            },
        }
    }

    /// The text of the expression.
    pub fn to_string(&self) -> (r: String)
        ensures
            r@ == expression_text(*self, Seq::empty()),
    {
        proof {
            reveal_strlit("");
        }
        self.text("")
    }
}

impl Statement {
    /// The text of the statement, whose first line starts after `indent`.
    fn text(&self, indent: &str) -> (r: String)
        ensures
            r@ == statement_text(*self, indent@),
    {
        let inner = deeper(indent);
        match self {
            Statement::Return(e) => {
                let mut out = String::from_str("Return(\n");
                out.append(inner.as_str());
                out.append(e.text(inner.as_str()).as_str());
                out.append("\n");
                out.append(indent);
                out.append(")");
                out
            },
        }
    }

    /// The text of the statement.
    pub fn to_string(&self) -> (r: String)
        ensures
            r@ == statement_text(*self, Seq::empty()),
    {
        proof {
            reveal_strlit("");
        }
        self.text("")
    }
}

impl FunctionDefinition {
    /// The text of the function, whose first line starts after `indent`.
    fn text(&self, indent: &str) -> (r: String)
        ensures
            r@ == function_text(self@, indent@),
    {
        let inner = deeper(indent);
        match self {
            FunctionDefinition::Function { name, body } => {
                let mut out = String::from_str("Function(\n");
                out.append(inner.as_str());
                out.append("name=\"");
                out.append(name.to_string().as_str());
                out.append("\",\n");
                out.append(inner.as_str());
                out.append("body=");
                out.append(body.text(inner.as_str()).as_str());
                out.append("\n");
                out.append(indent);
                out.append(")");
                out
            },
        }
    }

    /// The text of the function.
    pub fn to_string(&self) -> (r: String)
        ensures
            r@ == function_text(self@, Seq::empty()),
    {
        proof {
            reveal_strlit("");
        }
        self.text("")
    }
}

impl Program {
    /// The text of the program, a tree with one part to a line.
    pub fn to_string(&self) -> (r: String)
        ensures
            r@ == program_text(self@),
    {
        match self {
            Program::Program(function) => {
                let mut out = String::from_str("Program(\n  ");
                out.append(function.text("  ").as_str());
                out.append("\n)");
                out
            },
        }
    }
}

} // verus!
