use minicc::driver::{parse_args, process_source, CompilerStage, StageOutput};
use minicc::lexer::{Keyword, Token};
use minicc::llvm_ir_generator::{LLVMConstruct, LLVMFunction, LLVMInstruction, LLVMValue};
use minicc::parser::{Expression, FunctionDefinition, Identifier, Program, Statement};
use minicc::x86_64_generator::{
    AssemblyBinaryOperator, AssemblyConstruct, AssemblyFunction, AssemblyInstruction,
    AssemblyOperand, AssemblyRegister, AssemblyUnaryOperator,
};

fn args(list: &[&str]) -> Vec<String> {
    list.iter().map(|s| s.to_string()).collect()
}

fn assembly_of(source: &str) -> AssemblyConstruct {
    match process_source(CompilerStage::Compile, source).unwrap() {
        StageOutput::Assembly(program) => program,
        other => panic!("no assembly: {:?}", other),
    }
}

fn slot(offset: i32) -> usize {
    assert!(offset < 0 && offset % 4 == 0);
    (-(offset as i64) / 4 - 1) as usize
}

fn read(operand: &AssemblyOperand, registers: &[i32; 4], stack: &[i32]) -> i32 {
    match operand {
        AssemblyOperand::Immediate(value) => *value,
        AssemblyOperand::Register(register) => registers[index(*register)],
        AssemblyOperand::StackPointer(offset) => stack[slot(*offset)],
        AssemblyOperand::PseudoRegister(name) => panic!("pseudo-register {} left", name),
    }
}

fn write(operand: &AssemblyOperand, value: i32, registers: &mut [i32; 4], stack: &mut Vec<i32>) {
    match operand {
        AssemblyOperand::Register(register) => registers[index(*register)] = value,
        AssemblyOperand::StackPointer(offset) => {
            let at = slot(*offset);
            if stack.len() <= at {
                stack.resize(at + 1, 0);
            }
            stack[at] = value;
        }
        other => panic!("cannot write to {:?}", other),
    }
}

fn index(register: AssemblyRegister) -> usize {
    match register {
        AssemblyRegister::AX => 0,
        AssemblyRegister::DX => 1,
        AssemblyRegister::R10 => 2,
        AssemblyRegister::R11 => 3,
    }
}

/// Runs the instructions as the processor would and gives the exit status of
/// the process: the low eight bits of `%eax` at the return.
fn exit_status(program: &AssemblyConstruct) -> u8 {
    let AssemblyConstruct::Program(AssemblyFunction::Function { instructions, .. }) = program;
    let mut registers = [0i32; 4];
    let mut stack: Vec<i32> = Vec::new();
    for instruction in instructions {
        match instruction {
            AssemblyInstruction::AllocateStack(_) => {}
            AssemblyInstruction::Mov(source, destination) => {
                assert!(!matches!(
                    (source, destination),
                    (AssemblyOperand::StackPointer(_), AssemblyOperand::StackPointer(_))
                ));
                let value = read(source, &registers, &stack);
                write(destination, value, &mut registers, &mut stack);
            }
            AssemblyInstruction::Unary(op, operand) => {
                let value = read(operand, &registers, &stack);
                let result = match op {
                    AssemblyUnaryOperator::Neg => value.wrapping_neg(),
                    AssemblyUnaryOperator::Not => !value,
                };
                write(operand, result, &mut registers, &mut stack);
            }
            AssemblyInstruction::Binary(op, source, destination) => {
                let right = read(source, &registers, &stack);
                let left = read(destination, &registers, &stack);
                let result = match op {
                    AssemblyBinaryOperator::Add => left.wrapping_add(right),
                    AssemblyBinaryOperator::Sub => left.wrapping_sub(right),
                    AssemblyBinaryOperator::Mult => {
                        assert!(matches!(destination, AssemblyOperand::Register(_)));
                        left.wrapping_mul(right)
                    }
                };
                write(destination, result, &mut registers, &mut stack);
            }
            AssemblyInstruction::Cdq => {
                registers[1] = if registers[0] < 0 { -1 } else { 0 };
            }
            AssemblyInstruction::Idiv(divisor) => {
                assert!(!matches!(divisor, AssemblyOperand::Immediate(_)));
                let dividend = ((registers[1] as i64) << 32) | (registers[0] as u32 as i64);
                let by = read(divisor, &registers, &stack) as i64;
                registers[0] = (dividend / by) as i32;
                registers[1] = (dividend % by) as i32;
            }
            AssemblyInstruction::Ret => return registers[0] as u8,
        }
    }
    panic!("no return");
}

#[test]
fn returning_a_constant() {
    assert_eq!(exit_status(&assembly_of("int main(void) { return 2; }")), 2);
}

#[test]
fn complement_of_a_negation() {
    assert_eq!(exit_status(&assembly_of("int main(void) { return ~(-3); }")), 2);
}

#[test]
fn product_before_sum() {
    assert_eq!(exit_status(&assembly_of("int main(void) { return 1 + 2 * 3; }")), 7);
}

#[test]
fn parentheses_first() {
    assert_eq!(exit_status(&assembly_of("int main(void) { return (1 + 2) * 3; }")), 9);
}

#[test]
fn quotient_and_remainder() {
    assert_eq!(exit_status(&assembly_of("int main(void) { return 10 / 3; }")), 3);
    assert_eq!(exit_status(&assembly_of("int main(void) { return 10 % 3; }")), 1);
}

#[test]
fn double_negation() {
    assert_eq!(exit_status(&assembly_of("int main(void) { return - -5; }")), 5);
}

#[test]
fn exit_status_is_the_value_modulo_256() {
    assert_eq!(exit_status(&assembly_of("int main(void) { return 1000; }")), 232);
    assert_eq!(exit_status(&assembly_of("int main(void) { return -1; }")), 255);
    assert_eq!(exit_status(&assembly_of("int main(void) { return -7 / 2; }")), 253);
    assert_eq!(exit_status(&assembly_of("int main(void) { return -7 % 2; }")), 255);
    assert_eq!(
        exit_status(&assembly_of("int main(void) { return (8 - 3 - 2) * (20 % 7) - 100 / -9; }")),
        29
    );
    assert_eq!(
        exit_status(&assembly_of("int main(void) { return 2147483647 + 1 - 2147483647; }")),
        1
    );
}

#[test]
fn decrement_is_a_lexing_failure() {
    let error = process_source(CompilerStage::Compile, "int main(void) { return 1 -- 2; }")
        .unwrap_err();
    assert_eq!(error, "Lexing failed: Decrement not supported: --");
    assert!(error.contains("--"));
    for stage in [
        CompilerStage::Lex,
        CompilerStage::Parse,
        CompilerStage::LLVMGen,
        CompilerStage::CodeGen,
    ] {
        assert_eq!(process_source(stage, "int main(void) { return 1 -- 2; }").unwrap_err(), error);
    }
}

#[test]
fn missing_operand_is_a_parsing_failure() {
    let source = "int main(void) { return 1 + ; }";
    assert_eq!(
        process_source(CompilerStage::Compile, source).unwrap_err(),
        "Parsing failed: Expected valid factor"
    );
    assert_eq!(
        process_source(CompilerStage::Parse, source).unwrap_err(),
        "Parsing failed: Expected valid factor"
    );
    assert!(matches!(process_source(CompilerStage::Lex, source), Ok(StageOutput::Tokens(_))));
}

#[test]
fn stopping_after_lexing_gives_the_tokens() {
    assert_eq!(
        process_source(CompilerStage::Lex, "return 2;"),
        Ok(StageOutput::Tokens(vec![
            Token::Keyword(Keyword::Return),
            Token::Constant(2),
            Token::Semicolon,
        ]))
    );
}

#[test]
fn stopping_after_parsing_gives_the_tree() {
    assert_eq!(
        process_source(CompilerStage::Parse, "int main(void) { return 2; }"),
        Ok(StageOutput::Tree(Program::Program(FunctionDefinition::Function {
            name: Identifier::Identifier("main".to_string()),
            body: Statement::Return(Expression::Constant(2)),
        })))
    );
}

#[test]
fn linear_form_of_the_smallest_program() {
    let output = process_source(CompilerStage::LLVMGen, "int main(void) { return 2; }").unwrap();
    let expected = LLVMConstruct::Module(LLVMFunction::Function {
        name: "main".to_string(),
        instructions: vec![
            LLVMInstruction::Alloca("%0".to_string(), "i32".to_string()),
            LLVMInstruction::Store(LLVMValue::Immediate(2), LLVMValue::Register("%0".to_string())),
            LLVMInstruction::Load("%1".to_string(), LLVMValue::Register("%0".to_string())),
            LLVMInstruction::ReturnValue(LLVMValue::Register("%1".to_string())),
        ],
    });
    assert_eq!(output, StageOutput::LinearForm(expected.clone()));
    let text = expected.to_string();
    let lines: Vec<&str> = text.lines().map(|line| line.trim()).collect();
    let wanted = ["%0 = alloca i32", "store i32 2, i32* %0", "%1 = load i32, i32* %0", "ret i32 %1"];
    let mut from = 0;
    for line in wanted {
        let at = lines[from..].iter().position(|l| *l == line).unwrap();
        from += at + 1;
    }
}

#[test]
fn assembly_of_the_smallest_program() {
    let program = assembly_of("int main(void) { return 2; }");
    assert_eq!(
        program.to_string(),
        ".globl main\nmain:\n    pushq %rbp\n    movq %rsp, %rbp\n    subq $16, %rsp\n    movl $2, -4(%rbp)\n    movl -4(%rbp), %r10d\n    movl %r10d, -8(%rbp)\n    movl -8(%rbp), %eax\n    movq %rbp, %rsp\n    popq %rbp\n    ret\n\n.section .note.GNU-stack,\"\",@progbits"
    );
    assert_eq!(
        process_source(CompilerStage::CodeGen, "int main(void) { return 2; }"),
        Ok(StageOutput::Assembly(program))
    );
}

#[test]
fn no_instruction_of_an_accepted_program_needs_fixing() {
    let program = assembly_of("int main(void) { return ~(1 + 2 * 3) / (4 - 5) % -6 * 7; }");
    let AssemblyConstruct::Program(AssemblyFunction::Function { instructions, .. }) = &program;
    let memory = |o: &AssemblyOperand| matches!(o, AssemblyOperand::StackPointer(_));
    let pseudo = |o: &AssemblyOperand| matches!(o, AssemblyOperand::PseudoRegister(_));
    assert_eq!(instructions[0], AssemblyInstruction::AllocateStack(16));
    assert_eq!(instructions.last(), Some(&AssemblyInstruction::Ret));
    for instruction in instructions {
        match instruction {
            AssemblyInstruction::Mov(s, d) => {
                assert!(!pseudo(s) && !pseudo(d));
                assert!(!(memory(s) && memory(d)));
            }
            AssemblyInstruction::Unary(_, o) => assert!(!pseudo(o)),
            AssemblyInstruction::Binary(op, s, d) => {
                assert!(!pseudo(s) && !pseudo(d));
                if *op == AssemblyBinaryOperator::Mult {
                    assert!(!memory(d));
                } else {
                    assert!(!(memory(s) && memory(d)));
                }
            }
            AssemblyInstruction::Idiv(o) => {
                assert!(!pseudo(o));
                assert!(!matches!(o, AssemblyOperand::Immediate(_)));
            }
            _ => {}
        }
    }
}

#[test]
fn one_argument_asks_for_a_full_compile() {
    assert_eq!(
        parse_args(&args(&["cc", "main.c"])),
        Ok((CompilerStage::Compile, "main.c".to_string()))
    );
    assert_eq!(
        parse_args(&args(&["cc", "--lex"])),
        Ok((CompilerStage::Compile, "--lex".to_string()))
    );
}

#[test]
fn an_option_names_the_last_stage() {
    assert_eq!(
        parse_args(&args(&["cc", "--lex", "a.c"])),
        Ok((CompilerStage::Lex, "a.c".to_string()))
    );
    assert_eq!(
        parse_args(&args(&["cc", "--parse", "a.c"])),
        Ok((CompilerStage::Parse, "a.c".to_string()))
    );
    assert_eq!(
        parse_args(&args(&["cc", "--llvm", "a.c"])),
        Ok((CompilerStage::LLVMGen, "a.c".to_string()))
    );
    assert_eq!(
        parse_args(&args(&["cc", "--codegen", "a.c"])),
        Ok((CompilerStage::CodeGen, "a.c".to_string()))
    );
}

#[test]
fn an_unknown_option_is_named() {
    assert_eq!(
        parse_args(&args(&["cc", "--asm", "a.c"])).unwrap_err(),
        "Unknown option: --asm"
    );
    assert_eq!(parse_args(&args(&["cc", "a.c", "--lex"])).unwrap_err(), "Unknown option: a.c");
}

#[test]
fn any_other_number_of_arguments_is_answered_by_the_usage() {
    let usage = "Usage: cc [--lex|--parse|--llvm|--codegen] <input_file>";
    assert_eq!(parse_args(&args(&["cc"])).unwrap_err(), usage);
    assert_eq!(parse_args(&args(&["cc", "--lex", "a.c", "b.c"])).unwrap_err(), usage);
}
