use minicc::generator::{
    generate, generate_expression, generate_function, generate_statement, indent,
    AssemblyConstruct, AssemblyFunction, AssemblyInstruction, AssemblyOperand, PrettyPrint,
};
use minicc::parser::{
    BinaryOperator, Expression, FunctionDefinition, Identifier, Program, Statement, UnaryOperator,
};

fn returning(value: Expression) -> FunctionDefinition {
    FunctionDefinition::Function {
        name: Identifier::Identifier("main".to_string()),
        body: Statement::Return(value),
    }
}

fn load(value: i32) -> AssemblyInstruction {
    AssemblyInstruction::Mov(
        AssemblyOperand::Immediate(value),
        AssemblyOperand::Register("eax".to_string()),
    )
}

fn direct(value: i32) -> AssemblyFunction {
    AssemblyFunction::Function {
        name: "main".to_string(),
        instructions: vec![load(value), AssemblyInstruction::Ret],
    }
}

#[test]
fn a_constant_is_moved_to_eax() {
    assert_eq!(generate_expression(&Expression::Constant(2)), Ok(vec![load(2)]));
    assert_eq!(
        generate_statement(&Statement::Return(Expression::Constant(-9))),
        Ok(vec![load(-9), AssemblyInstruction::Ret])
    );
    assert_eq!(generate_function(&returning(Expression::Constant(2))), Ok(direct(2)));
    assert_eq!(
        generate(&Program::Program(returning(Expression::Constant(2)))),
        Ok(AssemblyConstruct::Program(direct(2)))
    );
}

#[test]
fn anything_but_a_constant_is_refused() {
    let message = "Only a constant can be returned without a stack frame";
    let negated = Expression::Unary(UnaryOperator::Negate, Box::new(Expression::Constant(1)));
    let sum = Expression::Binary(
        BinaryOperator::Add,
        Box::new(Expression::Constant(1)),
        Box::new(Expression::Constant(2)),
    );
    assert_eq!(generate_expression(&negated).unwrap_err(), message);
    assert_eq!(generate_expression(&sum).unwrap_err(), message);
    assert_eq!(generate_statement(&Statement::Return(sum.clone())).unwrap_err(), message);
    assert_eq!(generate_function(&returning(sum.clone())).unwrap_err(), message);
    assert_eq!(generate(&Program::Program(returning(sum))).unwrap_err(), message);
}

#[test]
fn indentation_is_four_spaces_a_level() {
    assert_eq!(indent(0), "");
    assert_eq!(indent(1), "    ");
    assert_eq!(indent(3), "            ");
}

#[test]
fn direct_operand_text() {
    assert_eq!(AssemblyOperand::Register("eax".to_string()).to_string(), "%eax");
    assert_eq!(AssemblyOperand::Immediate(-2).to_string(), "$-2");
}

#[test]
fn instructions_are_indented_by_their_level() {
    assert_eq!(load(2).pretty_print(0), "movl $2, %eax\n");
    assert_eq!(load(2).pretty_print(2), "        movl $2, %eax\n");
    assert_eq!(AssemblyInstruction::Ret.pretty_print(1), "    ret\n");
}

#[test]
fn a_function_indents_its_instructions_one_level_further() {
    assert_eq!(
        direct(7).pretty_print(0),
        ".globl main\nmain:\n    movl $7, %eax\n    ret\n"
    );
    assert_eq!(
        direct(7).pretty_print(1),
        ".globl main\nmain:\n        movl $7, %eax\n        ret\n"
    );
}

#[test]
fn direct_program_text() {
    let program = AssemblyConstruct::Program(direct(2));
    let expected =
        ".globl main\nmain:\n    movl $2, %eax\n    ret\n.section .note.GNU-stack,\"\",@progbits\n";
    assert_eq!(program.pretty_print(0), expected);
    assert_eq!(program.to_string(), expected);
}
