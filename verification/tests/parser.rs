use minicc::lexer::{tokenize, Keyword, Token};
use minicc::parser::{
    expect, get_precedence, parse, parse_expression, parse_factor, parse_function,
    parse_identifier, parse_program, parse_statement, parse_unary_operation,
    token_to_binary_operator, BinaryOperator, Expression, FunctionDefinition, Identifier, Program,
    Statement, UnaryOperator,
};

fn constant(value: i32) -> Expression {
    Expression::Constant(value)
}

fn unary(op: UnaryOperator, operand: Expression) -> Expression {
    Expression::Unary(op, Box::new(operand))
}

fn binary(op: BinaryOperator, left: Expression, right: Expression) -> Expression {
    Expression::Binary(op, Box::new(left), Box::new(right))
}

fn main_returning(value: Expression) -> Program {
    Program::Program(FunctionDefinition::Function {
        name: Identifier::Identifier("main".to_string()),
        body: Statement::Return(value),
    })
}

fn expression_of(source: &str) -> Expression {
    let tokens = tokenize(source).unwrap();
    let (expression, end) = parse_expression(&tokens, 0, 0).unwrap();
    assert_eq!(end, tokens.len());
    expression
}

fn parse_source(source: &str) -> Result<Program, String> {
    parse(tokenize(source).unwrap())
}

#[test]
fn parses_the_smallest_program() {
    assert_eq!(
        parse_source("int main(void) { return 2; }").unwrap(),
        main_returning(constant(2))
    );
}

#[test]
fn the_function_may_have_any_name() {
    let program = parse_source("int start(void) { return 0; }").unwrap();
    assert_eq!(
        program,
        Program::Program(FunctionDefinition::Function {
            name: Identifier::Identifier("start".to_string()),
            body: Statement::Return(constant(0)),
        })
    );
}

#[test]
fn unary_operators_nest() {
    assert_eq!(
        expression_of("~(-3)"),
        unary(UnaryOperator::Complement, unary(UnaryOperator::Negate, constant(3)))
    );
    assert_eq!(
        expression_of("- -5"),
        unary(UnaryOperator::Negate, unary(UnaryOperator::Negate, constant(5)))
    );
    assert_eq!(
        expression_of("-~-1"),
        unary(
            UnaryOperator::Negate,
            unary(UnaryOperator::Complement, unary(UnaryOperator::Negate, constant(1)))
        )
    );
}

#[test]
fn multiplication_binds_tighter_than_addition() {
    assert_eq!(
        expression_of("1 + 2 * 3"),
        binary(
            BinaryOperator::Add,
            constant(1),
            binary(BinaryOperator::Multiply, constant(2), constant(3))
        )
    );
    assert_eq!(
        expression_of("1 * 2 + 3"),
        binary(
            BinaryOperator::Add,
            binary(BinaryOperator::Multiply, constant(1), constant(2)),
            constant(3)
        )
    );
}

#[test]
fn every_tighter_operator_takes_its_operands_first() {
    let low = [(BinaryOperator::Add, "+"), (BinaryOperator::Subtract, "-")];
    let high = [
        (BinaryOperator::Multiply, "*"),
        (BinaryOperator::Divide, "/"),
        (BinaryOperator::Remainder, "%"),
    ];
    for (low_op, low_text) in low {
        for (high_op, high_text) in high {
            let source = format!("7 {} 8 {} 9", low_text, high_text);
            assert_eq!(
                expression_of(&source),
                binary(low_op, constant(7), binary(high_op, constant(8), constant(9)))
            );
        }
    }
}

#[test]
fn binary_operators_associate_to_the_left() {
    assert_eq!(
        expression_of("1 - 2 - 3"),
        binary(
            BinaryOperator::Subtract,
            binary(BinaryOperator::Subtract, constant(1), constant(2)),
            constant(3)
        )
    );
    assert_eq!(
        expression_of("8 / 4 % 3 * 2"),
        binary(
            BinaryOperator::Multiply,
            binary(
                BinaryOperator::Remainder,
                binary(BinaryOperator::Divide, constant(8), constant(4)),
                constant(3)
            ),
            constant(2)
        )
    );
    assert_eq!(
        expression_of("1 + 2 - 3"),
        binary(
            BinaryOperator::Subtract,
            binary(BinaryOperator::Add, constant(1), constant(2)),
            constant(3)
        )
    );
}

#[test]
fn parentheses_override_precedence() {
    assert_eq!(
        expression_of("(1 + 2) * 3"),
        binary(
            BinaryOperator::Multiply,
            binary(BinaryOperator::Add, constant(1), constant(2)),
            constant(3)
        )
    );
    assert_eq!(expression_of("((4))"), constant(4));
}

#[test]
fn unary_minus_binds_tighter_than_any_binary_operator() {
    assert_eq!(
        expression_of("-1 * 2"),
        binary(
            BinaryOperator::Multiply,
            unary(UnaryOperator::Negate, constant(1)),
            constant(2)
        )
    );
    assert_eq!(
        expression_of("1 - -2"),
        binary(
            BinaryOperator::Subtract,
            constant(1),
            unary(UnaryOperator::Negate, constant(2))
        )
    );
}

#[test]
fn minimum_precedence_stops_the_expression() {
    let tokens = tokenize("1 * 2 + 3").unwrap();
    let (expression, end) = parse_expression(&tokens, 0, 46).unwrap();
    assert_eq!(expression, binary(BinaryOperator::Multiply, constant(1), constant(2)));
    assert_eq!(end, 3);
    let (expression, end) = parse_expression(&tokens, 0, 51).unwrap();
    assert_eq!(expression, constant(1));
    assert_eq!(end, 1);
}

#[test]
fn missing_operand_is_an_invalid_factor() {
    assert_eq!(
        parse_source("int main(void) { return 1 + ; }").unwrap_err(),
        "Expected valid factor"
    );
    assert_eq!(parse_source("int main(void) { return ; }").unwrap_err(), "Expected valid factor");
    assert_eq!(parse_source("int main(void) { return ").unwrap_err(), "Expected valid factor");
    assert_eq!(parse_source("int main(void) { return x; }").unwrap_err(), "Expected valid factor");
}

#[test]
fn mismatched_token_is_named() {
    assert_eq!(
        parse_source("int main(void) { return 2 }").unwrap_err(),
        "Expected Semicolon, found CloseBrace"
    );
    assert_eq!(
        parse_source("void main(void) { return 2; }").unwrap_err(),
        "Expected Keyword(Int), found Keyword(Void)"
    );
    assert_eq!(
        parse_source("int main(int) { return 2; }").unwrap_err(),
        "Expected Keyword(Void), found Keyword(Int)"
    );
    assert_eq!(
        parse_source("int main(void) { 2; }").unwrap_err(),
        "Expected Keyword(Return), found Constant(2)"
    );
    assert_eq!(
        parse_source("int main(void) { return (1 + 2; }").unwrap_err(),
        "Expected CloseParen, found Semicolon"
    );
    assert_eq!(
        parse_source("int main(void) { return 1 foo; }").unwrap_err(),
        "Expected Semicolon, found Identifier(\"foo\")"
    );
    assert_eq!(
        parse_source("int main(void) { return 1 -7 2; }").unwrap_err(),
        "Expected Semicolon, found Constant(2)"
    );
}

#[test]
fn premature_end_is_named() {
    assert_eq!(parse_source("").unwrap_err(), "Expected Keyword(Int), found EOF");
    assert_eq!(parse_source("int main").unwrap_err(), "Expected OpenParen, found EOF");
    assert_eq!(
        parse_source("int main(void) { return 2;").unwrap_err(),
        "Expected CloseBrace, found EOF"
    );
    assert_eq!(
        parse_source("int main(void) { return 2").unwrap_err(),
        "Expected Semicolon, found EOF"
    );
    assert_eq!(
        parse_source("int main(void) { return (2").unwrap_err(),
        "Expected CloseParen, found EOF"
    );
}

#[test]
fn missing_name_is_reported() {
    assert_eq!(parse_source("int (void) { return 2; }").unwrap_err(), "Expected identifier");
    assert_eq!(parse_source("int").unwrap_err(), "Expected identifier");
    assert_eq!(parse_source("int return").unwrap_err(), "Expected identifier");
}

#[test]
fn content_after_the_function_is_refused() {
    assert_eq!(
        parse_source("int main(void) { return 2; } int").unwrap_err(),
        "Unexpected content after main function"
    );
    assert_eq!(
        parse_source("int main(void) { return 2; } ;").unwrap_err(),
        "Unexpected content after main function"
    );
}

#[test]
fn the_same_tokens_give_the_same_result() {
    let accepted = tokenize("int main(void) { return 1 + 2 * -3; }").unwrap();
    assert_eq!(parse(accepted.clone()), parse(accepted));
    let refused = tokenize("int main(void) { return 1 + ; }").unwrap();
    assert_eq!(parse(refused.clone()), parse(refused));
}

#[test]
fn expect_reads_one_token() {
    let tokens = vec![Token::OpenParen, Token::Constant(4)];
    assert_eq!(expect(&tokens, 0, &Token::OpenParen), Ok(1));
    assert_eq!(expect(&tokens, 1, &Token::Constant(4)), Ok(2));
    assert_eq!(
        expect(&tokens, 1, &Token::Constant(5)).unwrap_err(),
        "Expected Constant(5), found Constant(4)"
    );
    assert_eq!(
        expect(&tokens, 0, &Token::Keyword(Keyword::Return)).unwrap_err(),
        "Expected Keyword(Return), found OpenParen"
    );
    assert_eq!(
        expect(&tokens, 2, &Token::CloseBrace).unwrap_err(),
        "Expected CloseBrace, found EOF"
    );
    assert_eq!(
        expect(&tokens, 9, &Token::Constant(-12)).unwrap_err(),
        "Expected Constant(-12), found EOF"
    );
}

#[test]
fn parse_identifier_reads_a_name() {
    let tokens = vec![Token::Identifier("f".to_string()), Token::Semicolon];
    assert_eq!(
        parse_identifier(&tokens, 0),
        Ok((Identifier::Identifier("f".to_string()), 1))
    );
    assert_eq!(parse_identifier(&tokens, 1).unwrap_err(), "Expected identifier");
    assert_eq!(parse_identifier(&tokens, 2).unwrap_err(), "Expected identifier");
}

#[test]
fn parse_factor_and_unary_operation_give_the_position_after() {
    let tokens = tokenize("~ 7 )").unwrap();
    assert_eq!(
        parse_factor(&tokens, 0),
        Ok((unary(UnaryOperator::Complement, constant(7)), 2))
    );
    assert_eq!(parse_factor(&tokens, 1), Ok((constant(7), 2)));
    assert_eq!(parse_factor(&tokens, 2).unwrap_err(), "Expected valid factor");
    assert_eq!(parse_factor(&tokens, 3).unwrap_err(), "Expected valid factor");
    assert_eq!(
        parse_unary_operation(UnaryOperator::Negate, &tokens, 1),
        Ok((unary(UnaryOperator::Negate, constant(7)), 2))
    );
}

#[test]
fn parse_statement_function_and_program_start_anywhere() {
    let tokens = tokenize("; return 3; int f(void) { return 4; }").unwrap();
    assert_eq!(parse_statement(&tokens, 1), Ok((Statement::Return(constant(3)), 4)));
    let function = FunctionDefinition::Function {
        name: Identifier::Identifier("f".to_string()),
        body: Statement::Return(constant(4)),
    };
    assert_eq!(parse_function(&tokens, 4), Ok((function.clone(), tokens.len())));
    assert_eq!(parse_program(&tokens, 4), Ok((Program::Program(function), tokens.len())));
    assert_eq!(
        parse_program(&tokens, 0).unwrap_err(),
        "Expected Keyword(Int), found Semicolon"
    );
}

#[test]
fn precedence_table() {
    assert_eq!(get_precedence(&BinaryOperator::Multiply), 50);
    assert_eq!(get_precedence(&BinaryOperator::Divide), 50);
    assert_eq!(get_precedence(&BinaryOperator::Remainder), 50);
    assert_eq!(get_precedence(&BinaryOperator::Add), 45);
    assert_eq!(get_precedence(&BinaryOperator::Subtract), 45);
}

#[test]
fn binary_operator_tokens() {
    assert_eq!(token_to_binary_operator(&Token::Multiplication), Some(BinaryOperator::Multiply));
    assert_eq!(token_to_binary_operator(&Token::Division), Some(BinaryOperator::Divide));
    assert_eq!(token_to_binary_operator(&Token::Remainder), Some(BinaryOperator::Remainder));
    assert_eq!(token_to_binary_operator(&Token::Addition), Some(BinaryOperator::Add));
    assert_eq!(token_to_binary_operator(&Token::Subtraction), Some(BinaryOperator::Subtract));
    assert_eq!(token_to_binary_operator(&Token::BitwiseComplement), None);
    assert_eq!(token_to_binary_operator(&Token::Constant(1)), None);
}

#[test]
fn tree_text_has_one_part_to_a_line() {
    let program = parse_source("int main(void) { return ~1 + 2; }").unwrap();
    let expected = "Program(\n  Function(\n    name=\"main\",\n    body=Return(\n      Binary(\n        Add,\n        Unary(\n          Complement,\n          Constant(1)\n        ),\n        Constant(2)\n      )\n    )\n  )\n)";
    assert_eq!(program.to_string(), expected);
}

#[test]
fn expression_text_starts_at_the_margin() {
    assert_eq!(constant(-5).to_string(), "Constant(-5)");
    assert_eq!(
        unary(UnaryOperator::Negate, constant(5)).to_string(),
        "Unary(\n  Negate,\n  Constant(5)\n)"
    );
    assert_eq!(
        Statement::Return(constant(0)).to_string(),
        "Return(\n  Constant(0)\n)"
    );
    assert_eq!(BinaryOperator::Remainder.to_string(), "Remainder");
    assert_eq!(UnaryOperator::Complement.to_string(), "Complement");
    assert_eq!(Identifier::Identifier("main".to_string()).to_string(), "main");
}

#[test]
fn cloning_an_expression_copies_the_tree() {
    let expression = expression_of("1 + -2 * (3 - 4)");
    assert_eq!(expression.clone(), expression);
}

fn written(e: &Expression, out: &mut Vec<Token>) {
    match e {
        Expression::Constant(value) => out.push(Token::Constant(*value)),
        Expression::Unary(op, operand) => {
            out.push(match op {
                UnaryOperator::Complement => Token::BitwiseComplement,
                UnaryOperator::Negate => Token::Subtraction,
            });
            written(operand, out);
        }
        Expression::Binary(op, left, right) => {
            out.push(Token::OpenParen);
            written(left, out);
            out.push(match op {
                BinaryOperator::Multiply => Token::Multiplication,
                BinaryOperator::Divide => Token::Division,
                BinaryOperator::Remainder => Token::Remainder,
                BinaryOperator::Add => Token::Addition,
                BinaryOperator::Subtract => Token::Subtraction,
            });
            written(right, out);
            out.push(Token::CloseParen);
        }
    }
}

fn trees(depth: u32) -> Vec<Expression> {
    if depth == 0 {
        return vec![constant(1), constant(-2)];
    }
    let smaller = trees(depth - 1);
    let mut all = smaller.clone();
    for operand in &smaller {
        all.push(unary(UnaryOperator::Negate, operand.clone()));
        all.push(unary(UnaryOperator::Complement, operand.clone()));
    }
    for (i, left) in smaller.iter().enumerate() {
        let right = &smaller[(i * 7 + 3) % smaller.len()];
        for op in [
            BinaryOperator::Add,
            BinaryOperator::Subtract,
            BinaryOperator::Multiply,
            BinaryOperator::Divide,
            BinaryOperator::Remainder,
        ] {
            all.push(binary(op, left.clone(), right.clone()));
        }
    }
    all
}

#[test]
fn every_tree_is_the_reading_of_its_text_in_parentheses() {
    for tree in trees(2) {
        let mut tokens = vec![
            Token::Keyword(Keyword::Int),
            Token::Identifier("main".to_string()),
            Token::OpenParen,
            Token::Keyword(Keyword::Void),
            Token::CloseParen,
            Token::OpenBrace,
            Token::Keyword(Keyword::Return),
        ];
        written(&tree, &mut tokens);
        tokens.push(Token::Semicolon);
        tokens.push(Token::CloseBrace);
        assert_eq!(parse(tokens), Ok(main_returning(tree)));
    }
}
