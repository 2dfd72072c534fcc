//! The x86-64 backend: from the linear intermediate form to assembly.
//!
//! The backend works in three passes, each stated as a spec function on the
//! models of the instructions: [`select_function`] picks instructions and
//! keeps every register of the intermediate form as a pseudo-register;
//! [`spill_function`] gives each pseudo-register its slot on the stack;
//! [`legalize_function`] reserves the frame and splits the instructions whose
//! operands the processor does not take. [`generate`] is proved to compute
//! their composition, and [`law_legalized_is_encodable`] states what holds of
//! every instruction that leaves the last pass.

use crate::llvm_ir_generator::{
    defined_by, lemma_register_index_of_name, numbered_from, register_index, slot_defined, uses_defined, value_text, LLVMBinaryOp, LLVMConstruct, LLVMFunction,
    LLVMFunctionView, LLVMInstruction, LLVMInstructionView, LLVMUnaryOp, LLVMValue, LLVMValueView,
};
use crate::text::{append_decimal, decimal, parse_digits};
use vstd::pervasive::unreached;
use vstd::prelude::*;

verus! {

/// A program: exactly one function.
#[derive(Debug, Clone, PartialEq, Eq)]
pub enum AssemblyConstruct {
    Program(AssemblyFunction),
}

/// A function: its name and its instructions, in order.
#[derive(Debug, Clone, PartialEq, Eq)]
pub enum AssemblyFunction {
    Function { name: String, instructions: Vec<AssemblyInstruction> },
}

/// One instruction; of two operands the first is the source and the second
/// the destination.
#[derive(Debug, Clone, PartialEq, Eq)]
pub enum AssemblyInstruction {
    Mov(AssemblyOperand, AssemblyOperand),
    Unary(AssemblyUnaryOperator, AssemblyOperand),
    Binary(AssemblyBinaryOperator, AssemblyOperand, AssemblyOperand),
    Idiv(AssemblyOperand),
    Cdq,
    AllocateStack(i32),
    Ret,
}

#[derive(Debug, Clone, Copy, PartialEq, Eq, Structural)]
pub enum AssemblyUnaryOperator {
    Neg,
    Not,
}

#[derive(Debug, Clone, Copy, PartialEq, Eq, Structural)]
pub enum AssemblyBinaryOperator {
    Add,
    Sub,
    Mult,
}

/// An operand: a hardware register, a number, a pseudo-register by the name
/// of the register it stands for, or the slot at an offset from `%rbp`.
#[derive(Debug, Clone, PartialEq, Eq)]
pub enum AssemblyOperand {
    Register(AssemblyRegister),
    Immediate(i32),
    PseudoRegister(String),
    StackPointer(i32),
}

#[derive(Debug, Clone, Copy, PartialEq, Eq, Structural)]
pub enum AssemblyRegister {
    AX,
    DX,
    R10,
    R11,
}

/// The mathematical model of an [`AssemblyOperand`].
pub enum AssemblyOperandView {
    Register(AssemblyRegister),
    Immediate(i32),
    PseudoRegister(Seq<char>),
    StackPointer(i32),
}

/// The mathematical model of an [`AssemblyInstruction`].
pub enum AssemblyInstructionView {
    Mov(AssemblyOperandView, AssemblyOperandView),
    Unary(AssemblyUnaryOperator, AssemblyOperandView),
    Binary(AssemblyBinaryOperator, AssemblyOperandView, AssemblyOperandView),
    Idiv(AssemblyOperandView),
    Cdq,
    AllocateStack(i32),
    Ret,
}

/// The mathematical model of an [`AssemblyFunction`], and of the program
/// that holds it.
pub struct AssemblyFunctionView {
    pub name: Seq<char>,
    pub instructions: Seq<AssemblyInstructionView>,
}

impl View for AssemblyOperand {
    type V = AssemblyOperandView;

    open spec fn view(&self) -> AssemblyOperandView {
        match self {
            AssemblyOperand::Register(register) => AssemblyOperandView::Register(*register),
            AssemblyOperand::Immediate(value) => AssemblyOperandView::Immediate(*value),
            AssemblyOperand::PseudoRegister(name) => AssemblyOperandView::PseudoRegister(name@),
            AssemblyOperand::StackPointer(offset) => AssemblyOperandView::StackPointer(*offset),
        }
    }
}

impl View for AssemblyInstruction {
    type V = AssemblyInstructionView;

    open spec fn view(&self) -> AssemblyInstructionView {
        match self {
            AssemblyInstruction::Mov(source, destination) => AssemblyInstructionView::Mov(
                source@,
                destination@,
            ),
            AssemblyInstruction::Unary(op, operand) => AssemblyInstructionView::Unary(
                *op,
                operand@,
            ),
            AssemblyInstruction::Binary(op, source, destination) => AssemblyInstructionView::Binary(
                *op,
                source@,
                destination@,
            ),
            AssemblyInstruction::Idiv(divisor) => AssemblyInstructionView::Idiv(divisor@),
            AssemblyInstruction::Cdq => AssemblyInstructionView::Cdq,
            AssemblyInstruction::AllocateStack(size) => AssemblyInstructionView::AllocateStack(
                *size,
            ),
            AssemblyInstruction::Ret => AssemblyInstructionView::Ret,
        }
    }
}

/// The models of a sequence of instructions, in order.
pub open spec fn assembly_views(instructions: Seq<AssemblyInstruction>) -> Seq<
    AssemblyInstructionView,
> {
    instructions.map_values(|i: AssemblyInstruction| i@)
}

impl View for AssemblyFunction {
    type V = AssemblyFunctionView;

    open spec fn view(&self) -> AssemblyFunctionView {
        match self {
            AssemblyFunction::Function { name, instructions } => AssemblyFunctionView {
                name: name@,
                instructions: assembly_views(instructions@),
            },
        }
    }
}

impl View for AssemblyConstruct {
    type V = AssemblyFunctionView;

    open spec fn view(&self) -> AssemblyFunctionView {
        match self {
            AssemblyConstruct::Program(function) => function@,
        }
    }
}

//
// The first pass: selection
//

/// The operand for a value of the intermediate form: a number stays a
/// number, a register becomes the pseudo-register of its name.
pub open spec fn select_value(v: LLVMValueView) -> AssemblyOperandView {
    match v {
        LLVMValueView::Register(name) => AssemblyOperandView::PseudoRegister(name),
        LLVMValueView::Immediate(value) => AssemblyOperandView::Immediate(value),
    }
}

/// The pseudo-register for the slot that a store or a load names.
pub open spec fn select_slot(v: LLVMValueView) -> AssemblyOperandView {
    AssemblyOperandView::PseudoRegister(value_text(v))
}

pub open spec fn select_unary(op: LLVMUnaryOp) -> AssemblyUnaryOperator {
    match op {
        LLVMUnaryOp::Not => AssemblyUnaryOperator::Not,
        LLVMUnaryOp::Neg => AssemblyUnaryOperator::Neg,
    }
}

/// The hardware register `r` as an operand.
pub open spec fn hardware(r: AssemblyRegister) -> AssemblyOperandView {
    AssemblyOperandView::Register(r)
}

/// The instructions that compute `left op right` into the pseudo-register
/// `destination`. Sums, differences and products are computed in place after
/// a move of the left operand. Quotients and remainders go through `%eax`
/// and `%edx`: the dividend is moved to `%eax` and sign-extended, and the
/// quotient is then in `%eax`, the remainder in `%edx`.
pub open spec fn select_binary(
    destination: Seq<char>,
    op: LLVMBinaryOp,
    left: LLVMValueView,
    right: LLVMValueView,
) -> Seq<AssemblyInstructionView> {
    let target = AssemblyOperandView::PseudoRegister(destination);
    match op {
        LLVMBinaryOp::Add => seq![
            AssemblyInstructionView::Mov(select_value(left), target),
            AssemblyInstructionView::Binary(AssemblyBinaryOperator::Add, select_value(right), target),
        ],
        LLVMBinaryOp::Subtract => seq![
            AssemblyInstructionView::Mov(select_value(left), target),
            AssemblyInstructionView::Binary(AssemblyBinaryOperator::Sub, select_value(right), target),
        ],
        LLVMBinaryOp::Multiply => seq![
            AssemblyInstructionView::Mov(select_value(left), target),
            AssemblyInstructionView::Binary(
                AssemblyBinaryOperator::Mult,
                select_value(right),
                target,
            ),
        ],
        LLVMBinaryOp::Divide => seq![
            AssemblyInstructionView::Mov(select_value(left), hardware(AssemblyRegister::AX)),
            AssemblyInstructionView::Cdq,
            AssemblyInstructionView::Idiv(select_value(right)),
            AssemblyInstructionView::Mov(hardware(AssemblyRegister::AX), target),
        ],
        LLVMBinaryOp::Remainder => seq![
            AssemblyInstructionView::Mov(select_value(left), hardware(AssemblyRegister::AX)),
            AssemblyInstructionView::Cdq,
            AssemblyInstructionView::Idiv(select_value(right)),
            AssemblyInstructionView::Mov(hardware(AssemblyRegister::DX), target),
        ],
    }
}

/// The instructions selected for one instruction of the intermediate form.
/// A slot needs none: the slot of a register is found from its name.
pub open spec fn select_instruction(i: LLVMInstructionView) -> Seq<AssemblyInstructionView> {
    match i {
        LLVMInstructionView::ReturnValue(value) => seq![
            AssemblyInstructionView::Mov(select_value(value), hardware(AssemblyRegister::AX)),
        ],
        LLVMInstructionView::Store(source, slot) => seq![
            AssemblyInstructionView::Mov(select_value(source), select_slot(slot)),
        ],
        LLVMInstructionView::Load(destination, slot) => seq![
            AssemblyInstructionView::Mov(
                select_slot(slot),
                AssemblyOperandView::PseudoRegister(destination),
            ),
        ],
        LLVMInstructionView::Alloca(_, _) => Seq::empty(),
        LLVMInstructionView::UnaryOp(destination, _, op, operand) => seq![
            AssemblyInstructionView::Mov(
                select_value(operand),
                AssemblyOperandView::PseudoRegister(destination),
            ),
            AssemblyInstructionView::Unary(
                select_unary(op),
                AssemblyOperandView::PseudoRegister(destination),
            ),
        ],
        LLVMInstructionView::BinaryOp(destination, _, op, left, right) => select_binary(
            destination,
            op,
            left,
            right,
        ),
    }
}

/// The instructions selected for a run of instructions, in order.
pub open spec fn select_all(instructions: Seq<LLVMInstructionView>) -> Seq<AssemblyInstructionView>
    decreases instructions.len(),
{
    if instructions.len() == 0 {
        Seq::empty()
    } else {
        select_all(instructions.drop_last()) + select_instruction(instructions.last())
    }
}

/// The function after selection: the same name, the instructions selected
/// for its body, and the return.
pub open spec fn select_function(f: LLVMFunctionView) -> AssemblyFunctionView {
    AssemblyFunctionView {
        name: f.name,
        instructions: select_all(f.instructions).push(AssemblyInstructionView::Ret),
    }
}

//
// The second pass: pseudo-registers to stack slots
//

/// The greatest register number that has a slot: the offset of the slot of
/// a greater one would not fit in 32 bits.
pub const MAX_SLOT_INDEX: u64 = 536870911;

/// The size of the frame that a function reserves, in bytes.
pub const FRAME_SIZE: i32 = 16;

/// The offset from `%rbp` of the slot of register number `n`: slots are four
/// bytes wide and the stack grows down.
pub open spec fn slot_offset(n: nat) -> int {
    -4 * (n + 1)
}

/// A pseudo-register of this name has a slot: the name is `%` and the
/// numeral of a number that is not greater than [`MAX_SLOT_INDEX`].
pub open spec fn has_slot(name: Seq<char>) -> bool {
    match register_index(name) {
        Some(n) => n <= MAX_SLOT_INDEX,
        None => false,
    }
}

/// The operand, if it is a pseudo-register, has a slot.
pub open spec fn operand_has_slot(o: AssemblyOperandView) -> bool {
    match o {
        AssemblyOperandView::PseudoRegister(name) => has_slot(name),
        _ => true,
    }
}

/// Every pseudo-register among the operands of the instruction has a slot.
pub open spec fn instruction_has_slots(i: AssemblyInstructionView) -> bool {
    match i {
        AssemblyInstructionView::Mov(source, destination) => operand_has_slot(source)
            && operand_has_slot(destination),
        AssemblyInstructionView::Unary(_, operand) => operand_has_slot(operand),
        AssemblyInstructionView::Binary(_, source, destination) => operand_has_slot(source)
            && operand_has_slot(destination),
        AssemblyInstructionView::Idiv(divisor) => operand_has_slot(divisor),
        _ => true,
    }
}

/// Every pseudo-register in the instructions has a slot.
pub open spec fn all_have_slots(instructions: Seq<AssemblyInstructionView>) -> bool {
    forall|k: int| 0 <= k < instructions.len() ==> instruction_has_slots(#[trigger] instructions[k])
}

/// The operand with a pseudo-register replaced by its slot.
pub open spec fn spill_operand(o: AssemblyOperandView) -> AssemblyOperandView {
    match o {
        AssemblyOperandView::PseudoRegister(name) => AssemblyOperandView::StackPointer(
            slot_offset(register_index(name)->0) as i32,
        ),
        other => other,
    }
}

/// The instruction with every pseudo-register replaced by its slot.
pub open spec fn spill_instruction(i: AssemblyInstructionView) -> AssemblyInstructionView {
    match i {
        AssemblyInstructionView::Mov(source, destination) => AssemblyInstructionView::Mov(
            spill_operand(source),
            spill_operand(destination),
        ),
        AssemblyInstructionView::Unary(op, operand) => AssemblyInstructionView::Unary(
            op,
            spill_operand(operand),
        ),
        AssemblyInstructionView::Binary(op, source, destination) => AssemblyInstructionView::Binary(
            op,
            spill_operand(source),
            spill_operand(destination),
        ),
        AssemblyInstructionView::Idiv(divisor) => AssemblyInstructionView::Idiv(
            spill_operand(divisor),
        ),
        other => other,
    }
}

/// The function with every pseudo-register replaced by its slot.
pub open spec fn spill_function(f: AssemblyFunctionView) -> AssemblyFunctionView {
    AssemblyFunctionView {
        name: f.name,
        instructions: f.instructions.map_values(|i: AssemblyInstructionView| spill_instruction(i)),
    }
}

//
// The third pass: legalization
//

/// The scratch register for a source operand.
pub open spec fn source_scratch() -> AssemblyOperandView {
    hardware(AssemblyRegister::R10)
}

/// The scratch register for a destination operand.
pub open spec fn destination_scratch() -> AssemblyOperandView {
    hardware(AssemblyRegister::R11)
}

/// The instructions that stand for `i` once its operands are ones that the
/// processor takes:
/// - a move from memory to memory goes through the source scratch register;
/// - a division by a number has the number moved to the source scratch
///   register first;
/// - a product into memory is computed in the destination scratch register
///   and moved back;
/// - a sum or a difference of memory into memory has its source moved to the
///   source scratch register first.
/// Every other instruction stays as it is.
pub open spec fn legalize_instruction(i: AssemblyInstructionView) -> Seq<AssemblyInstructionView> {
    match i {
        AssemblyInstructionView::Mov(source, destination) => if source is StackPointer
            && destination is StackPointer {
            seq![
                AssemblyInstructionView::Mov(source, source_scratch()),
                AssemblyInstructionView::Mov(source_scratch(), destination),
            ]
        } else {
            seq![i]
        },
        AssemblyInstructionView::Idiv(divisor) => if divisor is Immediate {
            seq![
                AssemblyInstructionView::Mov(divisor, source_scratch()),
                AssemblyInstructionView::Idiv(source_scratch()),
            ]
        } else {
            seq![i]
        },
        AssemblyInstructionView::Binary(op, source, destination) => if op
            == AssemblyBinaryOperator::Mult {
            if destination is StackPointer {
                seq![
                    AssemblyInstructionView::Mov(destination, destination_scratch()),
                    AssemblyInstructionView::Binary(op, source, destination_scratch()),
                    AssemblyInstructionView::Mov(destination_scratch(), destination),
                ]
            } else {
                seq![i]
            }
        } else if source is StackPointer && destination is StackPointer {
            seq![
                AssemblyInstructionView::Mov(source, source_scratch()),
                AssemblyInstructionView::Binary(op, source_scratch(), destination),
            ]
        } else {
            seq![i]
        },
        _ => seq![i],
    }
}

/// The legalized instructions of a run of instructions, in order.
pub open spec fn legalize_all(instructions: Seq<AssemblyInstructionView>) -> Seq<
    AssemblyInstructionView,
>
    decreases instructions.len(),
{
    if instructions.len() == 0 {
        Seq::empty()
    } else {
        legalize_all(instructions.drop_last()) + legalize_instruction(instructions.last())
    }
}

/// The function after legalization: the same name, the reservation of
/// `frame` bytes, and the legalized instructions.
pub open spec fn legalize_function(f: AssemblyFunctionView, frame: i32) -> AssemblyFunctionView {
    AssemblyFunctionView {
        name: f.name,
        instructions: seq![AssemblyInstructionView::AllocateStack(frame)] + legalize_all(
            f.instructions,
        ),
    }
}

/// The assembly of a function of the intermediate form: the three passes,
/// one after the other.
pub open spec fn assemble(f: LLVMFunctionView) -> AssemblyFunctionView {
    legalize_function(spill_function(select_function(f)), FRAME_SIZE)
}

//
// What holds of legalized code
//

/// The instruction is one that the processor takes: it does not move from
/// memory to memory, does not divide by a number, does not multiply into
/// memory, and does not add or subtract memory to or from memory.
pub open spec fn encodable(i: AssemblyInstructionView) -> bool {
    match i {
        AssemblyInstructionView::Mov(source, destination) => !(source is StackPointer
            && destination is StackPointer),
        AssemblyInstructionView::Idiv(divisor) => !(divisor is Immediate),
        AssemblyInstructionView::Binary(op, source, destination) => if op
            == AssemblyBinaryOperator::Mult {
            !(destination is StackPointer)
        } else {
            !(source is StackPointer && destination is StackPointer)
        },
        _ => true,
    }
}

/// No operand of the instruction is a pseudo-register.
pub open spec fn free_of_pseudo(i: AssemblyInstructionView) -> bool {
    match i {
        AssemblyInstructionView::Mov(source, destination) => !(source is PseudoRegister)
            && !(destination is PseudoRegister),
        AssemblyInstructionView::Unary(_, operand) => !(operand is PseudoRegister),
        AssemblyInstructionView::Binary(_, source, destination) => !(source is PseudoRegister)
            && !(destination is PseudoRegister),
        AssemblyInstructionView::Idiv(divisor) => !(divisor is PseudoRegister),
        _ => true,
    }
}

/// Every instruction is encodable.
pub open spec fn all_encodable(instructions: Seq<AssemblyInstructionView>) -> bool {
    forall|k: int| 0 <= k < instructions.len() ==> encodable(#[trigger] instructions[k])
}

/// No instruction has a pseudo-register among its operands.
pub open spec fn all_free_of_pseudo(instructions: Seq<AssemblyInstructionView>) -> bool {
    forall|k: int| 0 <= k < instructions.len() ==> free_of_pseudo(#[trigger] instructions[k])
}

/// Legalizing keeps the pseudo-registers out and makes every instruction
/// encodable.
pub proof fn lemma_legalize_all(instructions: Seq<AssemblyInstructionView>)
    ensures
        all_encodable(legalize_all(instructions)),
        all_free_of_pseudo(instructions) ==> all_free_of_pseudo(legalize_all(instructions)),
    decreases instructions.len(),
{
    if instructions.len() > 0 {
        let rest = instructions.drop_last();
        lemma_legalize_all(rest);
    }
}

/// After the last pass, whatever function went in: no instruction moves from
/// memory to memory, none divides by a number, none multiplies into memory.
/// Where the function that went in came from the second pass, no operand is
/// a pseudo-register either.
pub proof fn law_legalized_is_encodable(f: AssemblyFunctionView, frame: i32)
    ensures
        all_encodable(legalize_function(f, frame).instructions),
        all_encodable(legalize_function(spill_function(f), frame).instructions),
        all_free_of_pseudo(legalize_function(spill_function(f), frame).instructions),
{
    lemma_legalize_all(f.instructions);
    lemma_legalize_all(spill_function(f).instructions);
}

//
// Code with numbered registers has slots
//

/// Every register that the instruction names, read or defined, is one of
/// `%0` to `%(limit - 1)`.
pub open spec fn names_below(i: LLVMInstructionView, limit: nat) -> bool {
    &&& uses_defined(i, limit)
    &&& match defined_by(i) {
        Some(name) => slot_defined(LLVMValueView::Register(name), limit),
        None => true,
    }
}

/// Where the registers of a run of instructions are numbered in order up to
/// `limit`, every register that it names is below `limit`.
pub proof fn lemma_numbered_names(instructions: Seq<LLVMInstructionView>, defined: nat)
    ensures
        numbered_from(instructions, defined) matches Some(limit) ==> defined <= limit && forall|
            k: int,
        |
            0 <= k < instructions.len() ==> names_below(#[trigger] instructions[k], limit),
    decreases instructions.len(),
{
    if let Some(limit) = numbered_from(instructions, defined) {
        if instructions.len() > 0 {
            let rest = instructions.skip(1);
            let next = if defined_by(instructions[0]) is Some {
                defined + 1
            } else {
                defined
            };
            lemma_numbered_names(rest, next as nat);
            lemma_register_index_of_name(defined);
            assert forall|k: int| 0 <= k < instructions.len() implies names_below(
                #[trigger] instructions[k],
                limit,
            ) by {
                if k > 0 {
                    assert(instructions[k] == rest[k - 1]);
                }
            }
        }
    }
}

/// The instructions selected for a run of instructions have slots for all
/// their pseudo-registers where those selected for each one have.
pub proof fn lemma_select_all_has_slots(instructions: Seq<LLVMInstructionView>)
    requires
        forall|k: int|
            0 <= k < instructions.len() ==> all_have_slots(
                select_instruction(#[trigger] instructions[k]),
            ),
    ensures
        all_have_slots(select_all(instructions)),
    decreases instructions.len(),
{
    if instructions.len() > 0 {
        let rest = instructions.drop_last();
        lemma_select_all_has_slots(rest);
    }
}

/// Code whose registers are numbered in order, as the generator of the
/// intermediate form numbers them, can be assembled as long as the last
/// register has a slot.
pub proof fn lemma_numbered_has_slots(f: LLVMFunctionView, count: nat)
    requires
        numbered_from(f.instructions, 0) == Some(count),
        count <= MAX_SLOT_INDEX + 1,
    ensures
        all_have_slots(select_function(f).instructions),
{
    lemma_numbered_names(f.instructions, 0);
    lemma_select_all_has_slots(f.instructions);
}

//
// The backend
//

/// The operand for a value of the intermediate form.
pub fn generate_value(value: &LLVMValue) -> (r: AssemblyOperand)
    ensures
        r@ == select_value(value@),
{
    match value {
        LLVMValue::Register(name) => AssemblyOperand::PseudoRegister(name.clone()),
        LLVMValue::Immediate(number) => AssemblyOperand::Immediate(*number),
    }
}

/// The pseudo-register of the given name.
fn pseudo(name: &String) -> (r: AssemblyOperand)
    ensures
        r@ == AssemblyOperandView::PseudoRegister(name@),
{
    AssemblyOperand::PseudoRegister(name.clone())
}

/// The instructions selected for one instruction of the intermediate form,
/// or `None` for the one that needs none, the reservation of a slot.
pub fn generate_instruction(instruction: &LLVMInstruction) -> (r: Result<
    Option<Vec<AssemblyInstruction>>,
    String,
>)
    ensures
        r matches Ok(selected) && match selected {
            Some(list) => !(instruction@ is Alloca) && assembly_views(list@) == select_instruction(
                instruction@,
            ),
            None => instruction@ is Alloca,
        },
{
    let mut list: Vec<AssemblyInstruction> = Vec::new();
    match instruction {
        LLVMInstruction::ReturnValue(value) => {
            list.push(
                AssemblyInstruction::Mov(
                    generate_value(value),
                    AssemblyOperand::Register(AssemblyRegister::AX),
                ),
            );
        },
        LLVMInstruction::UnaryOp(destination, _, op, operand) => {
            let operator = match op {
                LLVMUnaryOp::Not => AssemblyUnaryOperator::Not,
                LLVMUnaryOp::Neg => AssemblyUnaryOperator::Neg,
            };
            list.push(AssemblyInstruction::Mov(generate_value(operand), pseudo(destination)));
            list.push(AssemblyInstruction::Unary(operator, pseudo(destination)));
        },
        LLVMInstruction::BinaryOp(destination, _, op, left, right) => {
            match op {
                LLVMBinaryOp::Add | LLVMBinaryOp::Subtract | LLVMBinaryOp::Multiply => {
                    let operator = match op {
                        LLVMBinaryOp::Add => AssemblyBinaryOperator::Add,
                        LLVMBinaryOp::Subtract => AssemblyBinaryOperator::Sub,
                        _ => AssemblyBinaryOperator::Mult,
                    };
                    list.push(AssemblyInstruction::Mov(generate_value(left), pseudo(destination)));
                    list.push(
                        AssemblyInstruction::Binary(
                            operator,
                            generate_value(right),
                            pseudo(destination),
                        ),
                    );
                },
                LLVMBinaryOp::Divide | LLVMBinaryOp::Remainder => {
                    let result = match op {
                        LLVMBinaryOp::Divide => AssemblyRegister::AX,
                        _ => AssemblyRegister::DX,
                    };
                    list.push(
                        AssemblyInstruction::Mov(
                            generate_value(left),
                            AssemblyOperand::Register(AssemblyRegister::AX),
                        ),
                    );
                    list.push(AssemblyInstruction::Cdq);
                    list.push(AssemblyInstruction::Idiv(generate_value(right)));
                    list.push(
                        AssemblyInstruction::Mov(
                            AssemblyOperand::Register(result),
                            pseudo(destination),
                        ),
                    );
                },
            }
        },
        LLVMInstruction::Store(source, slot) => {
            list.push(
                AssemblyInstruction::Mov(
                    generate_value(source),
                    AssemblyOperand::PseudoRegister(slot.to_string()),
                ),
            );
        },
        LLVMInstruction::Load(destination, slot) => {
            list.push(
                AssemblyInstruction::Mov(
                    AssemblyOperand::PseudoRegister(slot.to_string()),
                    pseudo(destination),
                ),
            );
        },
        LLVMInstruction::Alloca(_, _) => {
            return Ok(None);
        },
    }
    Ok(Some(list))
}

/// The first pass: selects the instructions of a function.
pub fn generate_function(function: &LLVMFunction) -> (r: Result<AssemblyFunction, String>)
    ensures
        r matches Ok(selected) && selected@ == select_function(function@),
{
    match function {
        LLVMFunction::Function { name, instructions } => {
            let ghost source = function@.instructions;
            let mut output: Vec<AssemblyInstruction> = Vec::new();
            let mut i: usize = 0;
            while i < instructions.len()
                invariant
                    i <= instructions.len(),
                    source == function@.instructions,
                    function == (LLVMFunction::Function { name: *name, instructions: *instructions }),
                    assembly_views(output@) == select_all(source.take(i as int)),
                decreases instructions.len() - i,
            {
                proof {
                    let next = source.take(i + 1);
                    assert(next.drop_last() =~= source.take(i as int));
                }
                match generate_instruction(&instructions[i]) {
                    Ok(Some(mut list)) => {
                        output.append(&mut list);
                    },
                    Ok(None) => {},
                    Err(e) => {
                        return Err(e);
                    },
                }
                i = i + 1;
            }
            assert(source.take(i as int) =~= source);
            let ghost body = assembly_views(output@);
            output.push(AssemblyInstruction::Ret);
            assert(assembly_views(output@) =~= body.push(AssemblyInstructionView::Ret));
            Ok(AssemblyFunction::Function { name: name.clone(), instructions: output })
        },
    }
}

/// A copy of an operand.
fn copy_operand(operand: &AssemblyOperand) -> (r: AssemblyOperand)
    ensures
        r@ == operand@,
{
    match operand {
        AssemblyOperand::Register(register) => AssemblyOperand::Register(*register),
        AssemblyOperand::Immediate(number) => AssemblyOperand::Immediate(*number),
        AssemblyOperand::PseudoRegister(name) => AssemblyOperand::PseudoRegister(name.clone()),
        AssemblyOperand::StackPointer(offset) => AssemblyOperand::StackPointer(*offset),
    }
}

/// The operand with a pseudo-register replaced by its slot on the stack.
pub fn replace_pseudo(operand: &AssemblyOperand) -> (r: AssemblyOperand)
    requires
        operand_has_slot(operand@),
    ensures
        r@ == spill_operand(operand@),
{
    match operand {
        AssemblyOperand::PseudoRegister(name) => {
            match parse_digits(name.as_str(), 1, MAX_SLOT_INDEX) {
                Some(index) => AssemblyOperand::StackPointer((-4 * (index as i64 + 1)) as i32),
                None => unreached(),
            }
        },
        other => copy_operand(other),
    }
}

/// The instruction with every pseudo-register replaced by its slot.
fn replace_pseudo_in(instruction: &AssemblyInstruction) -> (r: AssemblyInstruction)
    requires
        instruction_has_slots(instruction@),
    ensures
        r@ == spill_instruction(instruction@),
{
    match instruction {
        AssemblyInstruction::Mov(source, destination) => AssemblyInstruction::Mov(
            replace_pseudo(source),
            replace_pseudo(destination),
        ),
        AssemblyInstruction::Unary(op, operand) => AssemblyInstruction::Unary(
            *op,
            replace_pseudo(operand),
        ),
        AssemblyInstruction::Binary(op, source, destination) => AssemblyInstruction::Binary(
            *op,
            replace_pseudo(source),
            replace_pseudo(destination),
        ),
        AssemblyInstruction::Idiv(divisor) => AssemblyInstruction::Idiv(replace_pseudo(divisor)),
        AssemblyInstruction::Cdq => AssemblyInstruction::Cdq,
        AssemblyInstruction::AllocateStack(size) => AssemblyInstruction::AllocateStack(*size),
        AssemblyInstruction::Ret => AssemblyInstruction::Ret,
    }
}

/// The second pass: replaces every pseudo-register of a function by its slot,
/// and gives with the function the offset of the end of its frame.
pub fn compute_stack_allocation(func: &AssemblyFunction) -> (r: Result<
    (AssemblyFunction, i32),
    String,
>)
    requires
        all_have_slots(func@.instructions),
    ensures
        r matches Ok((spilled, offset)) && spilled@ == spill_function(func@) && offset
            == -FRAME_SIZE,
{
    match func {
        AssemblyFunction::Function { name, instructions } => {
            let ghost source = func@.instructions;
            let mut output: Vec<AssemblyInstruction> = Vec::new();
            let mut i: usize = 0;
            while i < instructions.len()
                invariant
                    i <= instructions.len(),
                    source == assembly_views(instructions@),
                    all_have_slots(source),
                    output@.len() == i,
                    forall|k: int|
                        0 <= k < i ==> (#[trigger] output@[k])@ == spill_instruction(source[k]),
                decreases instructions.len() - i,
            {
                assert(instruction_has_slots(source[i as int]));
                output.push(replace_pseudo_in(&instructions[i]));
                i = i + 1;
            }
            assert(assembly_views(output@) =~= spill_function(func@).instructions);
            Ok((AssemblyFunction::Function { name: name.clone(), instructions: output }, -FRAME_SIZE))
        },
    }
}

/// Appends to `output` the instructions that stand for `instruction` once
/// its operands are ones that the processor takes.
fn fix_instruction(instruction: &AssemblyInstruction, output: &mut Vec<AssemblyInstruction>)
    ensures
        assembly_views(final(output)@) == assembly_views(old(output)@) + legalize_instruction(
            instruction@,
        ),
{
    match instruction {
        AssemblyInstruction::Mov(source, destination) => {
            match (source, destination) {
                (AssemblyOperand::StackPointer(_), AssemblyOperand::StackPointer(_)) => {
                    output.push(
                        AssemblyInstruction::Mov(
                            copy_operand(source),
                            AssemblyOperand::Register(AssemblyRegister::R10),
                        ),
                    );
                    output.push(
                        AssemblyInstruction::Mov(
                            AssemblyOperand::Register(AssemblyRegister::R10),
                            copy_operand(destination),
                        ),
                    );
                },
                _ => {
                    output.push(
                        AssemblyInstruction::Mov(copy_operand(source), copy_operand(destination)),
                    );
                },
            }
        },
        AssemblyInstruction::Idiv(divisor) => {
            match divisor {
                AssemblyOperand::Immediate(_) => {
                    output.push(
                        AssemblyInstruction::Mov(
                            copy_operand(divisor),
                            AssemblyOperand::Register(AssemblyRegister::R10),
                        ),
                    );
                    output.push(
                        AssemblyInstruction::Idiv(AssemblyOperand::Register(AssemblyRegister::R10)),
                    );
                },
                _ => {
                    output.push(AssemblyInstruction::Idiv(copy_operand(divisor)));
                },
            }
        },
        AssemblyInstruction::Binary(op, source, destination) => {
            match (op, source, destination) {
                (AssemblyBinaryOperator::Mult, _, AssemblyOperand::StackPointer(_)) => {
                    output.push(
                        AssemblyInstruction::Mov(
                            copy_operand(destination),
                            AssemblyOperand::Register(AssemblyRegister::R11),
                        ),
                    );
                    output.push(
                        AssemblyInstruction::Binary(
                            *op,
                            copy_operand(source),
                            AssemblyOperand::Register(AssemblyRegister::R11),
                        ),
                    );
                    output.push(
                        AssemblyInstruction::Mov(
                            AssemblyOperand::Register(AssemblyRegister::R11),
                            copy_operand(destination),
                        ),
                    );
                },
                (AssemblyBinaryOperator::Mult, _, _) => {
                    output.push(
                        AssemblyInstruction::Binary(
                            *op,
                            copy_operand(source),
                            copy_operand(destination),
                        ),
                    );
                },
                (_, AssemblyOperand::StackPointer(_), AssemblyOperand::StackPointer(_)) => {
                    output.push(
                        AssemblyInstruction::Mov(
                            copy_operand(source),
                            AssemblyOperand::Register(AssemblyRegister::R10),
                        ),
                    );
                    output.push(
                        AssemblyInstruction::Binary(
                            *op,
                            AssemblyOperand::Register(AssemblyRegister::R10),
                            copy_operand(destination),
                        ),
                    );
                },
                _ => {
                    output.push(
                        AssemblyInstruction::Binary(
                            *op,
                            copy_operand(source),
                            copy_operand(destination),
                        ),
                    );
                },
            }
        },
        AssemblyInstruction::Unary(op, operand) => {
            output.push(AssemblyInstruction::Unary(*op, copy_operand(operand)));
        },
        AssemblyInstruction::Cdq => {
            output.push(AssemblyInstruction::Cdq);
        },
        AssemblyInstruction::AllocateStack(size) => {
            output.push(AssemblyInstruction::AllocateStack(*size));
        },
        AssemblyInstruction::Ret => {
            output.push(AssemblyInstruction::Ret);
        },
    }
}

/// The third pass on a function: reserves `stack_size` bytes, then replaces
/// each instruction whose operands the processor does not take.
pub fn fix_instructions_operands(function: AssemblyFunction, stack_size: i32) -> (r: Result<
    AssemblyFunction,
    String,
>)
    ensures
        r matches Ok(fixed) && fixed@ == legalize_function(function@, stack_size),
{
    match function {
        AssemblyFunction::Function { name, instructions } => {
            let ghost source = assembly_views(instructions@);
            let ghost reserve = seq![AssemblyInstructionView::AllocateStack(stack_size)];
            let mut output: Vec<AssemblyInstruction> = Vec::new();
            output.push(AssemblyInstruction::AllocateStack(stack_size));
            let mut i: usize = 0;
            while i < instructions.len()
                invariant
                    i <= instructions.len(),
                    source == assembly_views(instructions@),
                    reserve == seq![AssemblyInstructionView::AllocateStack(stack_size)],
                    assembly_views(output@) == reserve + legalize_all(source.take(i as int)),
                decreases instructions.len() - i,
            {
                proof {
                    let next = source.take(i + 1);
                    assert(next.drop_last() =~= source.take(i as int));
                }
                fix_instruction(&instructions[i], &mut output);
                i = i + 1;
            }
            assert(source.take(i as int) =~= source);
            Ok(AssemblyFunction::Function { name, instructions: output })
        },
    }
}

/// The third pass on a program.
pub fn fix_memory_constraints(program: AssemblyConstruct, stack_size: i32) -> (r: Result<
    AssemblyConstruct,
    String,
>)
    ensures
        r matches Ok(fixed) && fixed@ == legalize_function(program@, stack_size),
{
    match program {
        AssemblyConstruct::Program(function) => {
            match fix_instructions_operands(function, stack_size) {
                Ok(fixed) => Ok(AssemblyConstruct::Program(fixed)),
                Err(e) => Err(e),
            }
        },
    }
}

/// Whether the operand, if it is a pseudo-register, has a slot, so that
/// [`replace_pseudo`] can take it.
pub fn operand_is_placed(operand: &AssemblyOperand) -> (r: bool)
    ensures
        r == operand_has_slot(operand@),
{
    match operand {
        AssemblyOperand::PseudoRegister(name) => {
            let text = name.as_str();
            text.unicode_len() >= 2 && text.get_char(0) == '%' && parse_digits(
                text,
                1,
                MAX_SLOT_INDEX,
            ).is_some()
        },
        _ => true,
    }
}

/// Whether every pseudo-register among the operands of the instruction has
/// a slot.
fn instruction_is_placed(instruction: &AssemblyInstruction) -> (r: bool)
    ensures
        r == instruction_has_slots(instruction@),
{
    match instruction {
        AssemblyInstruction::Mov(source, destination) => operand_is_placed(source)
            && operand_is_placed(destination),
        AssemblyInstruction::Unary(_, operand) => operand_is_placed(operand),
        AssemblyInstruction::Binary(_, source, destination) => operand_is_placed(source)
            && operand_is_placed(destination),
        AssemblyInstruction::Idiv(divisor) => operand_is_placed(divisor),
        _ => true,
    }
}

/// Whether every pseudo-register of the function has a slot, so that the
/// second pass can take it.
pub fn has_slots(func: &AssemblyFunction) -> (r: bool)
    ensures
        r == all_have_slots(func@.instructions),
{
    match func {
        AssemblyFunction::Function { instructions, .. } => {
            let mut i: usize = 0;
            while i < instructions.len()
                invariant
                    i <= instructions.len(),
                    func@.instructions == assembly_views(instructions@),
                    forall|k: int| 0 <= k < i ==> instruction_has_slots(#[trigger] func@.instructions[k]),
                decreases instructions.len() - i,
            {
                if !instruction_is_placed(&instructions[i]) {
                    assert(!instruction_has_slots(func@.instructions[i as int]));
                    return false;
                }
                i = i + 1;
            }
            true
        },
    }
}

/// Assembles a module of the intermediate form, if every register that it
/// names has a slot on the stack; gives `None` if one has not.
pub fn generate_checked(llvm_ir: &LLVMConstruct) -> (r: Option<AssemblyConstruct>)
    ensures
        match r {
            Some(program) => all_have_slots(select_function(llvm_ir@).instructions) && program@
                == assemble(llvm_ir@) && all_encodable(program@.instructions)
                && all_free_of_pseudo(program@.instructions),
            None => !all_have_slots(select_function(llvm_ir@).instructions),
        },
{
    match llvm_ir {
        LLVMConstruct::Module(function) => {
            let selected = match generate_function(function) {
                Ok(selected) => selected,
                Err(_) => {
                    return None;
                },
            };
            if !has_slots(&selected) {
                return None;
            }
            let (spilled, offset) = match compute_stack_allocation(&selected) {
                Ok(pair) => pair,
                Err(_) => {
                    return None;
                },
            };
            proof {
                law_legalized_is_encodable(selected@, FRAME_SIZE);
            }
            match fix_memory_constraints(AssemblyConstruct::Program(spilled), -offset) {
                Ok(program) => Some(program),
                Err(_) => None,
            }
        },
    }
}

/// Assembles a module of the intermediate form.
///
/// Every register that the module names must have a slot on the stack; the
/// code that [`crate::llvm_ir_generator::generate`] gives does, as long as
/// its last register is no greater than [`MAX_SLOT_INDEX`], by
/// [`lemma_numbered_has_slots`]. The assembly always succeeds and is
/// [`assemble`] of the module; in it every instruction is one that the
/// processor takes, and no operand is a pseudo-register.
pub fn generate(llvm_ir: &LLVMConstruct) -> (r: Result<AssemblyConstruct, String>)
    requires
        all_have_slots(select_function(llvm_ir@).instructions),
    ensures
        r matches Ok(program) && program@ == assemble(llvm_ir@) && all_encodable(
            program@.instructions,
        ) && all_free_of_pseudo(program@.instructions),
{
    match llvm_ir {
        LLVMConstruct::Module(function) => {
            let selected = match generate_function(function) {
                Ok(selected) => selected,
                Err(e) => {
                    return Err(e);
                },
            };
            let (spilled, offset) = match compute_stack_allocation(&selected) {
                Ok(pair) => pair,
                Err(e) => {
                    return Err(e);
                },
            };
            proof {
                law_legalized_is_encodable(selected@, FRAME_SIZE);
            }
            fix_memory_constraints(AssemblyConstruct::Program(spilled), -offset)
        },
    }
}

//
// The assembly text
//

/// The name of a hardware register, in its 32-bit form.
pub open spec fn register_text(r: AssemblyRegister) -> Seq<char> {
    match r {
        AssemblyRegister::AX => "%eax"@,
        AssemblyRegister::DX => "%edx"@,
        AssemblyRegister::R10 => "%r10d"@,
        AssemblyRegister::R11 => "%r11d"@,
    }
}

/// An operand as it is written: a register by its name, a number after `$`,
/// a slot as its offset from `%rbp`.
pub open spec fn operand_text(o: AssemblyOperandView) -> Seq<char> {
    match o {
        AssemblyOperandView::Register(r) => register_text(r),
        AssemblyOperandView::Immediate(value) => "$"@ + decimal(value as int),
        AssemblyOperandView::PseudoRegister(name) => "pseudo("@ + name + ")"@,
        AssemblyOperandView::StackPointer(offset) => decimal(offset as int) + "(%rbp)"@,
    }
}

pub open spec fn unary_operator_text(op: AssemblyUnaryOperator) -> Seq<char> {
    match op {
        AssemblyUnaryOperator::Neg => "negl"@,
        AssemblyUnaryOperator::Not => "notl"@,
    }
}

pub open spec fn binary_operator_text(op: AssemblyBinaryOperator) -> Seq<char> {
    match op {
        AssemblyBinaryOperator::Add => "addl"@,
        AssemblyBinaryOperator::Sub => "subl"@,
        AssemblyBinaryOperator::Mult => "imull"@,
    }
}

/// The lines of an instruction, with the line feed that ends them. The
/// return is written with the epilogue that restores the frame of the caller.
pub open spec fn assembly_instruction_text(i: AssemblyInstructionView) -> Seq<char> {
    match i {
        AssemblyInstructionView::Mov(source, destination) => "movl "@ + operand_text(source)
            + ", "@ + operand_text(destination) + "\n"@,
        AssemblyInstructionView::Unary(op, operand) => unary_operator_text(op) + " "@
            + operand_text(operand) + "\n"@,
        AssemblyInstructionView::Binary(op, source, destination) => binary_operator_text(op)
            + " "@ + operand_text(source) + ", "@ + operand_text(destination) + "\n"@,
        AssemblyInstructionView::Idiv(divisor) => "idivl "@ + operand_text(divisor) + "\n"@,
        AssemblyInstructionView::Cdq => "cdq\n"@,
        AssemblyInstructionView::AllocateStack(size) => "subq $"@ + decimal(size as int)
            + ", %rsp\n"@,
        AssemblyInstructionView::Ret => "movq %rbp, %rsp\n    popq %rbp\n    ret\n"@,
    }
}

/// The lines of a run of instructions, each indented by four spaces.
pub open spec fn assembly_body_text(instructions: Seq<AssemblyInstructionView>) -> Seq<char>
    decreases instructions.len(),
{
    if instructions.len() == 0 {
        Seq::empty()
    } else {
        assembly_body_text(instructions.drop_last()) + "    "@ + assembly_instruction_text(
            instructions.last(),
        )
    }
}

/// The text of a function: the directive that exports its name, its label,
/// the prologue that sets up its frame, and its instructions.
pub open spec fn assembly_function_text(f: AssemblyFunctionView) -> Seq<char> {
    ".globl "@ + f.name + "\n"@ + f.name + ":\n"@ + "    pushq %rbp\n"@ + "    movq %rsp, %rbp\n"@
        + assembly_body_text(f.instructions)
}

/// The text of a program: that of its function, then the directive that
/// marks the stack as not executable.
pub open spec fn assembly_text(f: AssemblyFunctionView) -> Seq<char> {
    assembly_function_text(f) + "\n.section .note.GNU-stack,\"\",@progbits"@
}

impl AssemblyRegister {
    /// The name of the register.
    pub fn to_string(&self) -> (r: String)
        ensures
            r@ == register_text(*self),
    {
        match self {
            AssemblyRegister::AX => String::from_str("%eax"),
            AssemblyRegister::DX => String::from_str("%edx"),
            AssemblyRegister::R10 => String::from_str("%r10d"),
            AssemblyRegister::R11 => String::from_str("%r11d"),
        }
    }
}

impl AssemblyOperand {
    /// The operand as it is written.
    pub fn to_string(&self) -> (r: String)
        ensures
            r@ == operand_text(self@),
    {
        match self {
            AssemblyOperand::Register(register) => register.to_string(),
            AssemblyOperand::Immediate(value) => {
                let mut out = String::from_str("$");
                append_decimal(&mut out, *value);
                out
            },
            AssemblyOperand::PseudoRegister(name) => {
                let mut out = String::from_str("pseudo(");
                out.append(name.as_str());
                out.append(")");
                out
            },
            AssemblyOperand::StackPointer(offset) => {
                let mut out = String::new();
                append_decimal(&mut out, *offset);
                out.append("(%rbp)");
                out
            },
        }
    }
}

impl AssemblyUnaryOperator {
    /// The mnemonic of the operator.
    pub fn to_string(&self) -> (r: String)
        ensures
            r@ == unary_operator_text(*self),
    {
        match self {
            AssemblyUnaryOperator::Neg => String::from_str("negl"),
            AssemblyUnaryOperator::Not => String::from_str("notl"),
        }
    }
}

impl AssemblyBinaryOperator {
    /// The mnemonic of the operator.
    pub fn to_string(&self) -> (r: String)
        ensures
            r@ == binary_operator_text(*self),
    {
        match self {
            AssemblyBinaryOperator::Add => String::from_str("addl"),
            AssemblyBinaryOperator::Sub => String::from_str("subl"),
            AssemblyBinaryOperator::Mult => String::from_str("imull"),
        }
    }
}

impl AssemblyInstruction {
    /// The lines of the instruction, with the line feed that ends them.
    pub fn to_string(&self) -> (r: String)
        ensures
            r@ == assembly_instruction_text(self@),
    {
        match self {
            AssemblyInstruction::Mov(source, destination) => {
                let mut out = String::from_str("movl ");
                out.append(source.to_string().as_str());
                out.append(", ");
                out.append(destination.to_string().as_str());
                out.append("\n");
                out
            },
            AssemblyInstruction::Unary(op, operand) => {
                let mut out = op.to_string();
                out.append(" ");
                out.append(operand.to_string().as_str());
                out.append("\n");
                out
            },
            AssemblyInstruction::Binary(op, source, destination) => {
                let mut out = op.to_string();
                out.append(" ");
                out.append(source.to_string().as_str());
                out.append(", ");
                out.append(destination.to_string().as_str());
                out.append("\n");
                out
            },
            AssemblyInstruction::Idiv(divisor) => {
                let mut out = String::from_str("idivl ");
                out.append(divisor.to_string().as_str());
                out.append("\n");
                out
            },
            AssemblyInstruction::Cdq => String::from_str("cdq\n"),
            AssemblyInstruction::AllocateStack(size) => {
                let mut out = String::from_str("subq $");
                append_decimal(&mut out, *size);
                out.append(", %rsp\n");
                out
            },
            AssemblyInstruction::Ret => String::from_str(
                "movq %rbp, %rsp\n    popq %rbp\n    ret\n",
            ),
        }
    }
}

impl AssemblyFunction {
    /// The text of the function.
    pub fn to_string(&self) -> (r: String)
        ensures
            r@ == assembly_function_text(self@),
    {
        match self {
            AssemblyFunction::Function { name, instructions } => {
                let mut out = String::from_str(".globl ");
                out.append(name.as_str());
                out.append("\n");
                out.append(name.as_str());
                out.append(":\n");
                out.append("    pushq %rbp\n");
                out.append("    movq %rsp, %rbp\n");
                let ghost head = out@;
                let ghost views = assembly_views(instructions@);
                let mut i: usize = 0;
                while i < instructions.len()
                    invariant
                        i <= instructions.len(),
                        views == assembly_views(instructions@),
                        out@ == head + assembly_body_text(views.take(i as int)),
                    decreases instructions.len() - i,
                {
                    out.append("    ");
                    out.append(instructions[i].to_string().as_str());
                    proof {
                        let next = views.take(i + 1);
                        assert(next.drop_last() =~= views.take(i as int));
                    }
                    i = i + 1;
                }
                assert(views.take(i as int) =~= views);
                out
            },
        }
    }
}

impl AssemblyConstruct {
    /// The text of the program, as it is written to a file for the assembler.
    pub fn to_string(&self) -> (r: String)
        ensures
            r@ == assembly_text(self@),
    {
        match self {
            AssemblyConstruct::Program(function) => {
                let mut out = function.to_string();
                out.append("\n.section .note.GNU-stack,\"\",@progbits");
                out
            },
        }
    }
}

} // verus!
