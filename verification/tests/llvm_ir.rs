use minicc::llvm_ir_generator::{
    generate, generate_function, generate_statement, LLVMBinaryOp,
    LLVMConstruct, LLVMFunction, LLVMInstruction, LLVMUnaryOp, LLVMValue,
};
use minicc::parser::{
    BinaryOperator, Expression, FunctionDefinition, Identifier, Program, Statement, UnaryOperator,
};

fn constant(value: i32) -> Expression {
    Expression::Constant(value)
}

fn reg(n: usize) -> LLVMValue {
    LLVMValue::Register(format!("%{}", n))
}

fn name(n: usize) -> String {
    format!("%{}", n)
}

fn int_type() -> String {
    "i32".to_string()
}

fn constant_triple(value: i32, first: usize) -> Vec<LLVMInstruction> {
    vec![
        LLVMInstruction::Alloca(name(first), int_type()),
        LLVMInstruction::Store(LLVMValue::Immediate(value), reg(first)),
        LLVMInstruction::Load(name(first + 1), reg(first)),
    ]
}

fn main_returning(value: Expression) -> Program {
    Program::Program(FunctionDefinition::Function {
        name: Identifier::Identifier("main".to_string()),
        body: Statement::Return(value),
    })
}

fn instructions_of(module: &LLVMConstruct) -> &Vec<LLVMInstruction> {
    match module {
        LLVMConstruct::Module(LLVMFunction::Function { instructions, .. }) => instructions,
    }
}

#[test]
fn constant_goes_through_a_slot() {
    let module = generate(&main_returning(constant(2))).unwrap();
    let mut expected = constant_triple(2, 0);
    expected.push(LLVMInstruction::ReturnValue(reg(1)));
    assert_eq!(
        module,
        LLVMConstruct::Module(LLVMFunction::Function {
            name: "main".to_string(),
            instructions: expected,
        })
    );
}

#[test]
fn unary_operator_follows_its_operand() {
    let tree = Expression::Unary(
        UnaryOperator::Complement,
        Box::new(Expression::Unary(UnaryOperator::Negate, Box::new(constant(3)))),
    );
    let module = generate(&main_returning(tree)).unwrap();
    let mut expected = constant_triple(3, 0);
    expected.push(LLVMInstruction::UnaryOp(name(2), int_type(), LLVMUnaryOp::Neg, reg(1)));
    expected.push(LLVMInstruction::UnaryOp(name(3), int_type(), LLVMUnaryOp::Not, reg(2)));
    expected.push(LLVMInstruction::ReturnValue(reg(3)));
    assert_eq!(instructions_of(&module), &expected);
}

#[test]
fn left_operand_is_lowered_before_the_right() {
    let tree = Expression::Binary(
        BinaryOperator::Subtract,
        Box::new(constant(10)),
        Box::new(Expression::Binary(
            BinaryOperator::Multiply,
            Box::new(constant(2)),
            Box::new(constant(3)),
        )),
    );
    let module = generate(&main_returning(tree)).unwrap();
    let mut expected = constant_triple(10, 0);
    expected.extend(constant_triple(2, 2));
    expected.extend(constant_triple(3, 4));
    expected.push(LLVMInstruction::BinaryOp(
        name(6),
        int_type(),
        LLVMBinaryOp::Multiply,
        reg(3),
        reg(5),
    ));
    expected.push(LLVMInstruction::BinaryOp(
        name(7),
        int_type(),
        LLVMBinaryOp::Subtract,
        reg(1),
        reg(6),
    ));
    expected.push(LLVMInstruction::ReturnValue(reg(7)));
    assert_eq!(instructions_of(&module), &expected);
}

#[test]
fn every_binary_operator_has_its_counterpart() {
    let pairs = [
        (BinaryOperator::Add, LLVMBinaryOp::Add),
        (BinaryOperator::Subtract, LLVMBinaryOp::Subtract),
        (BinaryOperator::Multiply, LLVMBinaryOp::Multiply),
        (BinaryOperator::Divide, LLVMBinaryOp::Divide),
        (BinaryOperator::Remainder, LLVMBinaryOp::Remainder),
    ];
    for (source, target) in pairs {
        let tree = Expression::Binary(source, Box::new(constant(1)), Box::new(constant(2)));
        let module = generate(&main_returning(tree)).unwrap();
        assert_eq!(
            instructions_of(&module)[6],
            LLVMInstruction::BinaryOp(name(4), int_type(), target, reg(1), reg(3))
        );
    }
}

#[test]
fn registers_have_no_gap_and_each_is_defined_once() {
    let mut tree = constant(1);
    for i in 0..40 {
        tree = Expression::Binary(
            BinaryOperator::Add,
            Box::new(tree),
            Box::new(Expression::Unary(UnaryOperator::Negate, Box::new(constant(i)))),
        );
    }
    let module = generate(&main_returning(tree)).unwrap();
    let mut defined = Vec::new();
    for instruction in instructions_of(&module) {
        match instruction {
            LLVMInstruction::Alloca(d, _)
            | LLVMInstruction::Load(d, _)
            | LLVMInstruction::UnaryOp(d, _, _, _)
            | LLVMInstruction::BinaryOp(d, _, _, _, _) => defined.push(d.clone()),
            _ => {}
        }
    }
    let expected: Vec<String> = (0..defined.len()).map(name).collect();
    assert_eq!(defined, expected);
    assert_eq!(defined.len(), 2 + 40 * 4);
    assert_eq!(
        instructions_of(&module).last(),
        Some(&LLVMInstruction::ReturnValue(reg(defined.len() - 1)))
    );
}

#[test]
fn numbering_starts_again_for_each_function() {
    let first = generate(&main_returning(constant(1))).unwrap();
    let second = generate(&main_returning(constant(1))).unwrap();
    assert_eq!(first, second);
}

#[test]
fn generate_statement_and_function() {
    let statement = Statement::Return(constant(7));
    let mut expected = constant_triple(7, 0);
    expected.push(LLVMInstruction::ReturnValue(reg(1)));
    assert_eq!(generate_statement(&statement), Ok(expected.clone()));
    let function = FunctionDefinition::Function {
        name: Identifier::Identifier("f".to_string()),
        body: statement,
    };
    assert_eq!(
        generate_function(&function),
        Ok(LLVMFunction::Function { name: "f".to_string(), instructions: expected })
    );
}

#[test]
fn module_text_of_the_smallest_program() {
    let module = generate(&main_returning(constant(2))).unwrap();
    assert_eq!(
        module.to_string(),
        "define i32 @main() {\nentry:\n    %0 = alloca i32\n    store i32 2, i32* %0\n    %1 = load i32, i32* %0\n    ret i32 %1\n}\n\n"
    );
}

#[test]
fn linear_instruction_text() {
    assert_eq!(LLVMInstruction::ReturnValue(reg(4)).to_string(), "ret i32 %4\n");
    assert_eq!(
        LLVMInstruction::ReturnValue(LLVMValue::Immediate(-3)).to_string(),
        "ret i32 -3\n"
    );
    assert_eq!(
        LLVMInstruction::Store(LLVMValue::Immediate(i32::MIN), reg(0)).to_string(),
        "store i32 -2147483648, i32* %0\n"
    );
    assert_eq!(LLVMInstruction::Load(name(1), reg(0)).to_string(), "%1 = load i32, i32* %0\n");
    assert_eq!(LLVMInstruction::Alloca(name(0), int_type()).to_string(), "%0 = alloca i32\n");
    assert_eq!(
        LLVMInstruction::UnaryOp(name(2), int_type(), LLVMUnaryOp::Not, reg(1)).to_string(),
        "%2 = xor i32 %1, -1\n"
    );
    assert_eq!(
        LLVMInstruction::UnaryOp(name(2), int_type(), LLVMUnaryOp::Neg, reg(1)).to_string(),
        "%2 = sub i32 0, %1\n"
    );
    assert_eq!(
        LLVMInstruction::BinaryOp(name(4), int_type(), LLVMBinaryOp::Divide, reg(1), reg(3)).to_string(),
        "%4 = sdiv i32 %1, %3\n"
    );
}

#[test]
fn operator_and_value_text() {
    assert_eq!(LLVMBinaryOp::Add.to_string(), "add");
    assert_eq!(LLVMBinaryOp::Subtract.to_string(), "sub");
    assert_eq!(LLVMBinaryOp::Multiply.to_string(), "mul");
    assert_eq!(LLVMBinaryOp::Divide.to_string(), "sdiv");
    assert_eq!(LLVMBinaryOp::Remainder.to_string(), "srem");
    assert_eq!(reg(12).to_string(), "%12");
    assert_eq!(LLVMValue::Immediate(2147483647).to_string(), "2147483647");
    assert_eq!(LLVMValue::Immediate(0).to_string(), "0");
}

#[test]
fn function_text_of_an_empty_function() {
    let function = LLVMFunction::Function { name: "f".to_string(), instructions: vec![] };
    assert_eq!(function.to_string(), "define i32 @f() {\nentry:\n}\n");
}
