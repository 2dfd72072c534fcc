//! The generator of the linear intermediate form: from the syntax tree to a
//! straight line of three-address instructions over numbered registers.
//!
//! [`lower_expression`] states which instructions an expression becomes when
//! its registers are numbered from a given first one, and [`generate`] is
//! proved to produce exactly those. [`law_registers_are_numbered`] states
//! that the registers of a generated function are `%0`, `%1`, ... with no gap,
//! each defined once and before it is used.

use crate::parser::{
    BinaryOperator, Expression, FunctionDefinition, FunctionView, Identifier, Program, Statement,
    UnaryOperator,
};
use crate::text::{
    all_digits, append_digits, decimal, decimal_digits, decimal_string, digits_value,
    lemma_decimal_digits_are_digits, lemma_decimal_round_trip,
};
use vstd::prelude::*;

verus! {

/// A module: exactly one function.
#[derive(Debug, Clone, PartialEq, Eq)]
pub enum LLVMConstruct {
    Module(LLVMFunction),
}

/// A function: its name and its instructions, in order.
#[derive(Debug, Clone, PartialEq, Eq)]
pub enum LLVMFunction {
    Function { name: String, instructions: Vec<LLVMInstruction> },
}

/// One instruction. A destination is the name of the register that the
/// instruction defines; the second field of `Alloca`, `UnaryOp` and `BinaryOp`
/// is the name of the type, always `i32`.
#[derive(Debug, Clone, PartialEq, Eq)]
pub enum LLVMInstruction {
    ReturnValue(LLVMValue),
    Store(LLVMValue, LLVMValue),
    Load(String, LLVMValue),
    Alloca(String, String),
    UnaryOp(String, String, LLVMUnaryOp, LLVMValue),
    BinaryOp(String, String, LLVMBinaryOp, LLVMValue, LLVMValue),
}

#[derive(Debug, Clone, Copy, PartialEq, Eq, Structural)]
pub enum LLVMUnaryOp {
    Not,
    Neg,
}

#[derive(Debug, Clone, Copy, PartialEq, Eq, Structural)]
pub enum LLVMBinaryOp {
    Add,
    Subtract,
    Multiply,
    Divide,
    Remainder,
}

/// An operand: a register, by name, or a number.
#[derive(Debug, Clone, PartialEq, Eq)]
pub enum LLVMValue {
    Register(String),
    Immediate(i32),
}

/// The mathematical model of an [`LLVMValue`].
pub enum LLVMValueView {
    Register(Seq<char>),
    Immediate(i32),
}

/// The mathematical model of an [`LLVMInstruction`].
pub enum LLVMInstructionView {
    ReturnValue(LLVMValueView),
    Store(LLVMValueView, LLVMValueView),
    Load(Seq<char>, LLVMValueView),
    Alloca(Seq<char>, Seq<char>),
    UnaryOp(Seq<char>, Seq<char>, LLVMUnaryOp, LLVMValueView),
    BinaryOp(Seq<char>, Seq<char>, LLVMBinaryOp, LLVMValueView, LLVMValueView),
}

/// The mathematical model of an [`LLVMFunction`], and of the module that
/// holds it.
pub struct LLVMFunctionView {
    pub name: Seq<char>,
    pub instructions: Seq<LLVMInstructionView>,
}

impl View for LLVMValue {
    type V = LLVMValueView;

    open spec fn view(&self) -> LLVMValueView {
        match self {
            LLVMValue::Register(name) => LLVMValueView::Register(name@),
            LLVMValue::Immediate(value) => LLVMValueView::Immediate(*value),
        }
    }
}

impl View for LLVMInstruction {
    type V = LLVMInstructionView;

    open spec fn view(&self) -> LLVMInstructionView {
        match self {
            LLVMInstruction::ReturnValue(value) => LLVMInstructionView::ReturnValue(value@),
            LLVMInstruction::Store(source, slot) => LLVMInstructionView::Store(source@, slot@),
            LLVMInstruction::Load(destination, slot) => LLVMInstructionView::Load(
                destination@,
                slot@,
            ),
            LLVMInstruction::Alloca(destination, ty) => LLVMInstructionView::Alloca(
                destination@,
                ty@,
            ),
            LLVMInstruction::UnaryOp(destination, ty, op, operand) => LLVMInstructionView::UnaryOp(
                destination@,
                ty@,
                *op,
                operand@,
            ),
            LLVMInstruction::BinaryOp(destination, ty, op, left, right) => {
                LLVMInstructionView::BinaryOp(destination@, ty@, *op, left@, right@)
            },
        }
    }
}

/// The models of a sequence of instructions, in order.
pub open spec fn instruction_views(instructions: Seq<LLVMInstruction>) -> Seq<LLVMInstructionView> {
    instructions.map_values(|i: LLVMInstruction| i@)
}

impl View for LLVMFunction {
    type V = LLVMFunctionView;

    open spec fn view(&self) -> LLVMFunctionView {
        match self {
            LLVMFunction::Function { name, instructions } => LLVMFunctionView {
                name: name@,
                instructions: instruction_views(instructions@),
            },
        }
    }
}

impl View for LLVMConstruct {
    type V = LLVMFunctionView;

    open spec fn view(&self) -> LLVMFunctionView {
        match self {
            LLVMConstruct::Module(function) => function@,
        }
    }
}

//
// Register names
//

/// The name of register number `n`: `%` and the numeral of `n`.
pub open spec fn register_name(n: nat) -> Seq<char> {
    seq!['%'] + decimal_digits(n)
}

/// The register number `n` as an operand.
pub open spec fn register(n: nat) -> LLVMValueView {
    LLVMValueView::Register(register_name(n))
}

/// The number that a register name holds, if the name is `%` followed by
/// digits.
pub open spec fn register_index(name: Seq<char>) -> Option<nat> {
    if name.len() >= 2 && name[0] == '%' && all_digits(name.skip(1)) {
        Some(digits_value(name.skip(1)))
    } else {
        None
    }
}

/// The name of a register holds its number.
pub proof fn lemma_register_index_of_name(n: nat)
    ensures
        register_index(register_name(n)) == Some(n),
{
    lemma_decimal_digits_are_digits(n);
    lemma_decimal_round_trip(n);
    assert(register_name(n).skip(1) =~= decimal_digits(n));
}

//
// Lowering
//

/// The name of the only type.
pub open spec fn int_type() -> Seq<char> {
    "i32"@
}

pub open spec fn lower_unary(op: UnaryOperator) -> LLVMUnaryOp {
    match op {
        UnaryOperator::Complement => LLVMUnaryOp::Not,
        UnaryOperator::Negate => LLVMUnaryOp::Neg,
    }
}

pub open spec fn lower_binary(op: BinaryOperator) -> LLVMBinaryOp {
    match op {
        BinaryOperator::Add => LLVMBinaryOp::Add,
        BinaryOperator::Subtract => LLVMBinaryOp::Subtract,
        BinaryOperator::Multiply => LLVMBinaryOp::Multiply,
        BinaryOperator::Divide => LLVMBinaryOp::Divide,
        BinaryOperator::Remainder => LLVMBinaryOp::Remainder,
    }
}

/// The number of registers that the instructions of an expression define:
/// two for a constant, the slot and the value loaded from it, and one for
/// the result of each operator.
pub open spec fn register_count(e: Expression) -> nat
    decreases e,
{
    match e {
        Expression::Constant(_) => 2,
        Expression::Unary(_, operand) => register_count(*operand) + 1,
        Expression::Binary(_, left, right) => register_count(*left) + register_count(*right) + 1,
    }
}

/// The number of the register that holds the value of `e`, when the
/// registers of `e` are numbered from `first`: the last of them.
pub open spec fn result_register(e: Expression, first: nat) -> nat {
    (first + register_count(e) - 1) as nat
}

/// The instructions of `e`, with its registers numbered from `first`.
///
/// A constant is stored to a fresh slot and loaded back, so that every
/// operand of an operator is a register. The operand of a unary operator
/// comes first, then the operator. Of a binary operator the left operand
/// comes first, then the right one, whose registers follow those of the
/// left, then the operator.
pub open spec fn lower_expression(e: Expression, first: nat) -> Seq<LLVMInstructionView>
    decreases e,
{
    match e {
        Expression::Constant(value) => seq![
            LLVMInstructionView::Alloca(register_name(first), int_type()),
            LLVMInstructionView::Store(LLVMValueView::Immediate(value), register(first)),
            LLVMInstructionView::Load(register_name(first + 1), register(first)),
        ],
        Expression::Unary(op, operand) => lower_expression(*operand, first).push(
            LLVMInstructionView::UnaryOp(
                register_name(first + register_count(*operand)),
                int_type(),
                lower_unary(op),
                register(result_register(*operand, first)),
            ),
        ),
        Expression::Binary(op, left, right) => {
            let second = first + register_count(*left);
            (lower_expression(*left, first) + lower_expression(*right, second)).push(
                LLVMInstructionView::BinaryOp(
                    register_name(second + register_count(*right)),
                    int_type(),
                    lower_binary(op),
                    register(result_register(*left, first)),
                    register(result_register(*right, second)),
                ),
            )
        },
    }
}

/// The instructions of a statement: those of the expression, numbered from
/// 0, then the return of its value.
pub open spec fn lower_statement(s: Statement) -> Seq<LLVMInstructionView> {
    match s {
        Statement::Return(e) => lower_expression(e, 0).push(
            LLVMInstructionView::ReturnValue(register(result_register(e, 0))),
        ),
    }
}

/// The function in linear form: the same name, and the instructions of the
/// body.
pub open spec fn lower_function(f: FunctionView) -> LLVMFunctionView {
    LLVMFunctionView { name: f.name, instructions: lower_statement(f.body) }
}

//
// The shape of generated code
//

/// The operand `v` is a number, or the register `%n` for some `n < defined`.
pub open spec fn operand_defined(v: LLVMValueView, defined: nat) -> bool {
    match v {
        LLVMValueView::Immediate(_) => true,
        LLVMValueView::Register(name) => slot_defined(v, defined),
    }
}

/// The operand `v` is the register `%n` for some `n < defined`.
pub open spec fn slot_defined(v: LLVMValueView, defined: nat) -> bool {
    match v {
        LLVMValueView::Immediate(_) => false,
        LLVMValueView::Register(name) => match register_index(name) {
            Some(n) => n < defined && name == register_name(n),
            None => false,
        },
    }
}

/// The name of the register that an instruction defines, if it defines one.
pub open spec fn defined_by(i: LLVMInstructionView) -> Option<Seq<char>> {
    match i {
        LLVMInstructionView::ReturnValue(_) => None,
        LLVMInstructionView::Store(_, _) => None,
        LLVMInstructionView::Load(destination, _) => Some(destination),
        LLVMInstructionView::Alloca(destination, _) => Some(destination),
        LLVMInstructionView::UnaryOp(destination, _, _, _) => Some(destination),
        LLVMInstructionView::BinaryOp(destination, _, _, _, _) => Some(destination),
    }
}

/// Every register that the instruction reads is one of `%0` to
/// `%(defined - 1)`, and what it writes to or reads from as a slot is such a
/// register.
pub open spec fn uses_defined(i: LLVMInstructionView, defined: nat) -> bool {
    match i {
        LLVMInstructionView::ReturnValue(value) => operand_defined(value, defined),
        LLVMInstructionView::Store(source, slot) => operand_defined(source, defined)
            && slot_defined(slot, defined),
        LLVMInstructionView::Load(_, slot) => slot_defined(slot, defined),
        LLVMInstructionView::Alloca(_, _) => true,
        LLVMInstructionView::UnaryOp(_, _, _, operand) => operand_defined(operand, defined),
        LLVMInstructionView::BinaryOp(_, _, _, left, right) => operand_defined(left, defined)
            && operand_defined(right, defined),
    }
}

/// Walks the instructions with `defined` registers defined before them, and
/// gives the number of registers defined after them, provided that every
/// instruction reads only registers defined before it and that the registers
/// are defined in the order of their numbers: the next one defined is always
/// `%defined`. Gives `None` where an instruction breaks this.
pub open spec fn numbered_from(instructions: Seq<LLVMInstructionView>, defined: nat) -> Option<nat>
    decreases instructions.len(),
{
    if instructions.len() == 0 {
        Some(defined)
    } else if !uses_defined(instructions[0], defined) {
        None
    } else {
        match defined_by(instructions[0]) {
            None => numbered_from(instructions.skip(1), defined),
            Some(name) => if name == register_name(defined) {
                numbered_from(instructions.skip(1), defined + 1)
            } else {
                None
            },
        }
    }
}

/// Walking two runs of instructions one after the other is walking their
/// concatenation.
pub proof fn lemma_numbered_concat(
    a: Seq<LLVMInstructionView>,
    b: Seq<LLVMInstructionView>,
    defined: nat,
)
    ensures
        numbered_from(a + b, defined) == match numbered_from(a, defined) {
            Some(middle) => numbered_from(b, middle),
            None => None,
        },
    decreases a.len(),
{
    if a.len() > 0 {
        assert((a + b).skip(1) =~= a.skip(1) + b);
        if uses_defined(a[0], defined) {
            match defined_by(a[0]) {
                None => lemma_numbered_concat(a.skip(1), b, defined),
                Some(name) => if name == register_name(defined) {
                    lemma_numbered_concat(a.skip(1), b, defined + 1);
                },
            }
        }
    }
}

/// Walking one instruction.
proof fn lemma_numbered_single(i: LLVMInstructionView, defined: nat)
    ensures
        numbered_from(seq![i], defined) == if !uses_defined(i, defined) {
            None
        } else {
            match defined_by(i) {
                None => Some(defined),
                Some(name) => if name == register_name(defined) {
                    Some((defined + 1) as nat)
                } else {
                    None
                },
            }
        },
{
    reveal_with_fuel(numbered_from, 2);
}

/// The instructions of an expression define exactly its registers, in the
/// order of their numbers, and read only registers defined before.
pub proof fn lemma_expression_is_numbered(e: Expression, first: nat)
    ensures
        numbered_from(lower_expression(e, first), first) == Some(first + register_count(e)),
        register_count(e) >= 2,
    decreases e,
{
    match e {
        Expression::Constant(value) => {
            let slot = LLVMInstructionView::Alloca(register_name(first), int_type());
            let store = LLVMInstructionView::Store(LLVMValueView::Immediate(value), register(first));
            let load = LLVMInstructionView::Load(register_name(first + 1), register(first));
            lemma_register_index_of_name(first);
            lemma_numbered_single(slot, first);
            lemma_numbered_single(store, first + 1);
            lemma_numbered_single(load, first + 1);
            lemma_numbered_concat(seq![slot], seq![store], first);
            lemma_numbered_concat(seq![slot] + seq![store], seq![load], first);
            assert(lower_expression(e, first) =~= (seq![slot] + seq![store]) + seq![load]);
        },
        Expression::Unary(op, operand) => {
            let inner = lower_expression(*operand, first);
            let last = LLVMInstructionView::UnaryOp(
                register_name(first + register_count(*operand)),
                int_type(),
                lower_unary(op),
                register(result_register(*operand, first)),
            );
            lemma_expression_is_numbered(*operand, first);
            lemma_register_index_of_name(result_register(*operand, first));
            lemma_numbered_single(last, first + register_count(*operand));
            lemma_numbered_concat(inner, seq![last], first);
            assert(lower_expression(e, first) =~= inner + seq![last]);
        },
        Expression::Binary(op, left, right) => {
            let second = first + register_count(*left);
            let third = second + register_count(*right);
            let a = lower_expression(*left, first);
            let b = lower_expression(*right, second);
            let last = LLVMInstructionView::BinaryOp(
                register_name(third),
                int_type(),
                lower_binary(op),
                register(result_register(*left, first)),
                register(result_register(*right, second)),
            );
            lemma_expression_is_numbered(*left, first);
            lemma_expression_is_numbered(*right, second);
            lemma_register_index_of_name(result_register(*left, first));
            lemma_register_index_of_name(result_register(*right, second));
            lemma_numbered_single(last, third);
            lemma_numbered_concat(a, b, first);
            lemma_numbered_concat(a + b, seq![last], first);
            assert(lower_expression(e, first) =~= (a + b) + seq![last]);
        },
    }
}

/// In the code of every function, the registers are `%0`, `%1`, ... up to
/// the last one defined, with no gap: each is defined once, in the order of
/// the numbers, every register that is read was defined before, and the
/// code ends by returning the last one.
pub proof fn law_registers_are_numbered(f: FunctionView)
    ensures
        numbered_from(lower_function(f).instructions, 0) == Some(
            register_count(f.body->Return_0),
        ),
        lower_function(f).instructions.last() == LLVMInstructionView::ReturnValue(
            register((register_count(f.body->Return_0) - 1) as nat),
        ),
{
    let e = f.body->Return_0;
    let body = lower_expression(e, 0);
    let last = LLVMInstructionView::ReturnValue(register(result_register(e, 0)));
    lemma_expression_is_numbered(e, 0);
    lemma_register_index_of_name(result_register(e, 0));
    lemma_numbered_single(last, register_count(e));
    lemma_numbered_concat(body, seq![last], 0);
    assert(lower_function(f).instructions =~= body + seq![last]);
}

//
// The generator
//

/// The name of register number `n`.
fn register_string(n: usize) -> (r: String)
    ensures
        r@ == register_name(n as nat),
{
    let mut name = String::from_str("%");
    proof {
        reveal_strlit("%");
    }
    append_digits(&mut name, n as u64);
    name
}

/// Takes the next register: gives its name and moves the counter on.
fn next_register(counter: &mut usize) -> (r: String)
    requires
        *old(counter) < usize::MAX,
    ensures
        r@ == register_name(*old(counter) as nat),
        *final(counter) == *old(counter) + 1,
{
    let name = register_string(*counter);
    *counter = *counter + 1;
    name
}

/// Appends the instructions of `expr` to `instructions`, with its registers
/// numbered from the counter on, and gives the name of the register that
/// holds its value.
///
/// The counter never runs past the number of instructions, so it cannot
/// overflow.
fn generate_expression(
    expr: &Expression,
    instructions: &mut Vec<LLVMInstruction>,
    counter: &mut usize,
) -> (result: String)
    requires
        *old(counter) <= old(instructions)@.len(),
    ensures
        instruction_views(final(instructions)@) == instruction_views(old(instructions)@)
            + lower_expression(*expr, *old(counter) as nat),
        *final(counter) == *old(counter) + register_count(*expr),
        *final(counter) < final(instructions)@.len(),
        result@ == register_name(result_register(*expr, *old(counter) as nat)),
    decreases expr,
{
    let ghost first = *counter as nat;
    match expr {
        Expression::Constant(value) => {
            let slot = register_string(*counter);
            instructions.push(LLVMInstruction::Alloca(slot.clone(), String::from_str("i32")));
            instructions.push(
                LLVMInstruction::Store(
                    LLVMValue::Immediate(*value),
                    LLVMValue::Register(slot.clone()),
                ),
            );
            // The counter is below the length of the vector, which fits in `usize`.
            assert(instructions@.len() == instructions.len());
            *counter = *counter + 1;
            let loaded = next_register(counter);
            instructions.push(LLVMInstruction::Load(loaded.clone(), LLVMValue::Register(slot)));
            loaded
        },
        Expression::Unary(op, operand) => {
            let source = generate_expression(operand, instructions, counter);
            let ghost inner = instruction_views(instructions@);
            assert(instructions@.len() == instructions.len());
            let destination = next_register(counter);
            let operation = match op {
                UnaryOperator::Complement => LLVMUnaryOp::Not,
                UnaryOperator::Negate => LLVMUnaryOp::Neg,
            };
            instructions.push(
                LLVMInstruction::UnaryOp(
                    destination.clone(),
                    String::from_str("i32"),
                    operation,
                    LLVMValue::Register(source),
                ),
            );
            assert(instruction_views(instructions@) =~= inner.push(
                lower_expression(*expr, first).last(),
            ));
            destination
        },
        Expression::Binary(op, left, right) => {
            let left_register = generate_expression(left, instructions, counter);
            let right_register = generate_expression(right, instructions, counter);
            let ghost inner = instruction_views(instructions@);
            assert(instructions@.len() == instructions.len());
            let destination = next_register(counter);
            let operation = match op {
                BinaryOperator::Add => LLVMBinaryOp::Add,
                BinaryOperator::Subtract => LLVMBinaryOp::Subtract,
                BinaryOperator::Multiply => LLVMBinaryOp::Multiply,
                BinaryOperator::Divide => LLVMBinaryOp::Divide,
                BinaryOperator::Remainder => LLVMBinaryOp::Remainder,
            };
            instructions.push(
                LLVMInstruction::BinaryOp(
                    destination.clone(),
                    String::from_str("i32"),
                    operation,
                    LLVMValue::Register(left_register),
                    LLVMValue::Register(right_register),
                ),
            );
            assert(instruction_views(instructions@) =~= inner.push(
                lower_expression(*expr, first).last(),
            ));
            destination
        },
    }
}

/// The instructions of a statement, with the registers numbered from 0.
pub fn generate_statement(statement: &Statement) -> (r: Result<Vec<LLVMInstruction>, String>)
    ensures
        r matches Ok(instructions) && instruction_views(instructions@) == lower_statement(
            *statement,
        ),
{
    let mut counter: usize = 0;
    let mut instructions: Vec<LLVMInstruction> = Vec::new();
    match statement {
        Statement::Return(expr) => {
            let result = generate_expression(expr, &mut instructions, &mut counter);
            instructions.push(LLVMInstruction::ReturnValue(LLVMValue::Register(result)));
            Ok(instructions)
        },
    }
}

/// The function in linear form.
pub fn generate_function(function: &FunctionDefinition) -> (r: Result<LLVMFunction, String>)
    ensures
        r matches Ok(lowered) && lowered@ == lower_function(function@),
{
    match function {
        FunctionDefinition::Function { name, body } => {
            let instructions = match generate_statement(body) {
                Ok(instructions) => instructions,
                Err(e) => {
                    return Err(e);
                },
            };
            let name = match name {
                Identifier::Identifier(name) => name.clone(),
            };
            Ok(LLVMFunction::Function { name, instructions })
        },
    }
}

/// Lowers a program to linear form.
///
/// Always succeeds, and the module is [`lower_function`] of the program: the
/// function keeps its name, and its instructions are those of its body, with
/// the registers numbered from 0.
pub fn generate(program: &Program) -> (r: Result<LLVMConstruct, String>)
    ensures
        r matches Ok(module) && module@ == lower_function(program@),
{
    match program {
        Program::Program(function) => match generate_function(function) {
            Ok(lowered) => Ok(LLVMConstruct::Module(lowered)),
            Err(e) => Err(e),
        },
    }
}

//
// The text of a module
//

/// An operand as it is written: the name of a register, or the numeral of a
/// number.
pub open spec fn value_text(v: LLVMValueView) -> Seq<char> {
    match v {
        LLVMValueView::Register(name) => name,
        LLVMValueView::Immediate(value) => decimal(value as int),
    }
}

/// The mnemonic of a binary operator; division and remainder are the signed
/// ones.
pub open spec fn binary_op_text(op: LLVMBinaryOp) -> Seq<char> {
    match op {
        LLVMBinaryOp::Add => "add"@,
        LLVMBinaryOp::Subtract => "sub"@,
        LLVMBinaryOp::Multiply => "mul"@,
        LLVMBinaryOp::Divide => "sdiv"@,
        LLVMBinaryOp::Remainder => "srem"@,
    }
}

/// The line of an instruction, with the line feed that ends it. Complement
/// is written as an exclusive or with -1, negation as a subtraction from 0.
pub open spec fn instruction_text(i: LLVMInstructionView) -> Seq<char> {
    match i {
        LLVMInstructionView::ReturnValue(value) => "ret i32 "@ + value_text(value) + "\n"@,
        LLVMInstructionView::Store(source, slot) => "store i32 "@ + value_text(source)
            + ", i32* "@ + value_text(slot) + "\n"@,
        LLVMInstructionView::Load(destination, slot) => destination + " = load i32, i32* "@
            + value_text(slot) + "\n"@,
        LLVMInstructionView::Alloca(destination, ty) => destination + " = alloca "@ + ty + "\n"@,
        LLVMInstructionView::UnaryOp(destination, ty, LLVMUnaryOp::Not, operand) => destination
            + " = xor "@ + ty + " "@ + value_text(operand) + ", -1\n"@,
        LLVMInstructionView::UnaryOp(destination, ty, LLVMUnaryOp::Neg, operand) => destination
            + " = sub "@ + ty + " 0, "@ + value_text(operand) + "\n"@,
        LLVMInstructionView::BinaryOp(destination, ty, op, left, right) => destination + " = "@
            + binary_op_text(op) + " "@ + ty + " "@ + value_text(left) + ", "@ + value_text(right)
            + "\n"@,
    }
}

/// The lines of a run of instructions, each indented by four spaces.
pub open spec fn body_text(instructions: Seq<LLVMInstructionView>) -> Seq<char>
    decreases instructions.len(),
{
    if instructions.len() == 0 {
        Seq::empty()
    } else {
        body_text(instructions.drop_last()) + "    "@ + instruction_text(instructions.last())
    }
}

/// The text of a function: the line that defines it, the label of its only
/// block, its instructions, and the closing brace.
pub open spec fn function_text(f: LLVMFunctionView) -> Seq<char> {
    "define i32 @"@ + f.name + "() {\n"@ + "entry:\n"@ + body_text(f.instructions) + "}\n"@
}

/// The text of a module: that of its function, and an empty line.
pub open spec fn module_text(f: LLVMFunctionView) -> Seq<char> {
    function_text(f) + "\n"@
}

impl LLVMValue {
    /// The operand as it is written.
    pub fn to_string(&self) -> (r: String)
        ensures
            r@ == value_text(self@),
    {
        match self {
            LLVMValue::Register(name) => name.clone(),
            LLVMValue::Immediate(value) => decimal_string(*value),
        }
    }
}

impl LLVMBinaryOp {
    /// The mnemonic of the operator.
    pub fn to_string(&self) -> (r: String)
        ensures
            r@ == binary_op_text(*self),
    {
        match self {
            LLVMBinaryOp::Add => String::from_str("add"),
            LLVMBinaryOp::Subtract => String::from_str("sub"),
            LLVMBinaryOp::Multiply => String::from_str("mul"),
            LLVMBinaryOp::Divide => String::from_str("sdiv"),
            LLVMBinaryOp::Remainder => String::from_str("srem"),
        }
    }
}

impl LLVMInstruction {
    /// The line of the instruction, with the line feed that ends it.
    pub fn to_string(&self) -> (r: String)
        ensures
            r@ == instruction_text(self@),
    {
        match self {
            LLVMInstruction::ReturnValue(value) => {
                let mut out = String::from_str("ret i32 ");
                out.append(value.to_string().as_str());
                out.append("\n");
                out
            },
            LLVMInstruction::Store(source, slot) => {
                let mut out = String::from_str("store i32 ");
                out.append(source.to_string().as_str());
                out.append(", i32* ");
                out.append(slot.to_string().as_str());
                out.append("\n");
                out
            },
            LLVMInstruction::Load(destination, slot) => {
                let mut out = destination.clone();
                out.append(" = load i32, i32* ");
                out.append(slot.to_string().as_str());
                out.append("\n");
                out
            },
            LLVMInstruction::Alloca(destination, ty) => {
                let mut out = destination.clone();
                out.append(" = alloca ");
                out.append(ty.as_str());
                out.append("\n");
                out
            },
            LLVMInstruction::UnaryOp(destination, ty, op, operand) => {
                let mut out = destination.clone();
                match op {
                    LLVMUnaryOp::Not => {
                        out.append(" = xor ");
                        out.append(ty.as_str());
                        out.append(" ");
                        out.append(operand.to_string().as_str());
                        out.append(", -1\n");
                    },
                    LLVMUnaryOp::Neg => {
                        out.append(" = sub ");
                        out.append(ty.as_str());
                        out.append(" 0, ");
                        out.append(operand.to_string().as_str());
                        out.append("\n");
                    },
                }
                out
            },
            LLVMInstruction::BinaryOp(destination, ty, op, left, right) => {
                let mut out = destination.clone();
                out.append(" = ");
                out.append(op.to_string().as_str());
                out.append(" ");
                out.append(ty.as_str());
                out.append(" ");
                out.append(left.to_string().as_str());
                out.append(", ");
                out.append(right.to_string().as_str());
                out.append("\n");
                out
            },
        }
    }
}

impl LLVMFunction {
    /// The text of the function.
    pub fn to_string(&self) -> (r: String)
        ensures
            r@ == function_text(self@),
    {
        match self {
            LLVMFunction::Function { name, instructions } => {
                let mut out = String::from_str("define i32 @");
                out.append(name.as_str());
                out.append("() {\n");
                out.append("entry:\n");
                let ghost head = out@;
                let ghost views = instruction_views(instructions@);
                let mut i: usize = 0;
                while i < instructions.len()
                    invariant
                        i <= instructions.len(),
                        views == instruction_views(instructions@),
                        out@ == head + body_text(views.take(i as int)),
                    decreases instructions.len() - i,
                {
                    out.append("    ");
                    out.append(instructions[i].to_string().as_str());
                    proof {
                        let next = views.take(i + 1);
                        assert(next.drop_last() =~= views.take(i as int));
                    }
                    i = i + 1;
                }
                assert(views.take(i as int) =~= views);
                out.append("}\n");
                out
            },
        }
    }
}

impl LLVMConstruct {
    /// The text of the module, as it is written to a file.
    pub fn to_string(&self) -> (r: String)
        ensures
            r@ == module_text(self@),
    {
        match self {
            LLVMConstruct::Module(function) => {
                let mut out = function.to_string();
                out.append("\n");
                out
            },
        }
    }
}

} // verus!
