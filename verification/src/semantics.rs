//! What programs mean, and that the compiler keeps it.
//!
//! [`evaluate`] gives the value of an expression in 32-bit arithmetic, and
//! [`run`] gives the outcome of a sequence of instructions on a model of the
//! processor. [`law_compiled_code_computes_the_value`] states that the
//! assembly of every program returns the value of its expression, and faults
//! exactly where the expression has no value.
//!
//! The model of the processor holds the four registers that the backend uses
//! and the stack as a map from offsets to 32-bit values. Slots are four
//! bytes apart, so that no two of them overlap; the stack pointer is not
//! modelled, and reserving the frame changes nothing in the model.

use crate::llvm_ir_generator::{
    int_type, lemma_register_index_of_name, lower_binary, lower_expression, lower_function,
    lower_unary, register, register_count, register_name, result_register, LLVMInstructionView,
    LLVMValueView,
};
use crate::parser::{BinaryOperator, Expression, FunctionView, UnaryOperator};
use crate::x86_64_generator::{
    assemble, encodable, hardware, legalize_all, legalize_instruction, select_all,
    select_instruction, select_unary, slot_offset, spill_instruction, AssemblyBinaryOperator,
    AssemblyInstructionView, AssemblyOperandView, AssemblyRegister, AssemblyUnaryOperator,
    FRAME_SIZE, MAX_SLOT_INDEX,
};
use vstd::prelude::*;

verus! {

//
// Arithmetic in 32 bits
//

/// The 32-bit value of an integer: the one that differs from it by a
/// multiple of 2^32.
pub open spec fn wrap(x: int) -> i32 {
    let low = x % 0x1_0000_0000;
    if low >= 0x8000_0000 {
        (low - 0x1_0000_0000) as i32
    } else {
        low as i32
    }
}

/// The bitwise complement of a 32-bit value.
pub open spec fn complement(v: i32) -> i32 {
    (-v - 1) as i32
}

/// The quotient of a division that rounds toward zero.
pub open spec fn quotient(a: int, b: int) -> int {
    let magnitude = (if a < 0 {
        -a
    } else {
        a
    }) / (if b < 0 {
        -b
    } else {
        b
    });
    if (a < 0) == (b < 0) {
        magnitude
    } else {
        -magnitude
    }
}

/// The remainder of a division that rounds toward zero; it has the sign of
/// the dividend.
pub open spec fn remainder(a: int, b: int) -> int {
    a - b * quotient(a, b)
}

/// A division has a result when the divisor is not zero and the quotient
/// fits in 32 bits.
pub open spec fn divisible(a: int, b: int) -> bool {
    b != 0 && i32::MIN <= quotient(a, b) <= i32::MAX
}

//
// The value of an expression
//

pub open spec fn apply_unary(op: UnaryOperator, v: i32) -> i32 {
    match op {
        UnaryOperator::Complement => complement(v),
        UnaryOperator::Negate => wrap(-v),
    }
}

/// The result of a binary operator. Sums, differences and products wrap
/// around; a division by zero has no result, nor has one whose quotient
/// does not fit.
pub open spec fn apply_binary(op: BinaryOperator, a: i32, b: i32) -> Option<i32> {
    match op {
        BinaryOperator::Add => Some(wrap(a + b)),
        BinaryOperator::Subtract => Some(wrap(a - b)),
        BinaryOperator::Multiply => Some(wrap(a * b)),
        BinaryOperator::Divide => if divisible(a as int, b as int) {
            Some(quotient(a as int, b as int) as i32)
        } else {
            None
        },
        BinaryOperator::Remainder => if divisible(a as int, b as int) {
            Some(remainder(a as int, b as int) as i32)
        } else {
            None
        },
    }
}

/// The value of an expression, if every division in it has a result.
pub open spec fn evaluate(e: Expression) -> Option<i32>
    decreases e,
{
    match e {
        Expression::Constant(value) => Some(value),
        Expression::Unary(op, operand) => match evaluate(*operand) {
            Some(v) => Some(apply_unary(op, v)),
            None => None,
        },
        Expression::Binary(op, left, right) => match evaluate(*left) {
            Some(a) => match evaluate(*right) {
                Some(b) => apply_binary(op, a, b),
                None => None,
            },
            None => None,
        },
    }
}

//
// The processor
//

/// The state of the processor: the registers `%eax`, `%edx`, `%r10d` and
/// `%r11d`, and the stack, by offset from `%rbp`.
pub struct Machine {
    pub ax: i32,
    pub dx: i32,
    pub r10: i32,
    pub r11: i32,
    pub stack: Map<int, i32>,
}

/// How a run of instructions ends: at its end, with the machine as it then
/// is; at a return, with the value of `%eax`; or with a fault.
pub enum Outcome {
    Finished(Machine),
    Returned(i32),
    Fault,
}

/// The value of a register.
pub open spec fn register_value(m: Machine, r: AssemblyRegister) -> i32 {
    match r {
        AssemblyRegister::AX => m.ax,
        AssemblyRegister::DX => m.dx,
        AssemblyRegister::R10 => m.r10,
        AssemblyRegister::R11 => m.r11,
    }
}

/// The value that an operand holds; a pseudo-register holds none.
pub open spec fn read(m: Machine, o: AssemblyOperandView) -> Option<i32> {
    match o {
        AssemblyOperandView::Register(r) => Some(register_value(m, r)),
        AssemblyOperandView::Immediate(value) => Some(value),
        AssemblyOperandView::StackPointer(offset) => Some(m.stack[offset as int]),
        AssemblyOperandView::PseudoRegister(_) => None,
    }
}

/// The machine after `v` is written to an operand; only a register and a
/// slot can be written to.
pub open spec fn write(m: Machine, o: AssemblyOperandView, v: i32) -> Option<Machine> {
    match o {
        AssemblyOperandView::Register(AssemblyRegister::AX) => Some(Machine { ax: v, ..m }),
        AssemblyOperandView::Register(AssemblyRegister::DX) => Some(Machine { dx: v, ..m }),
        AssemblyOperandView::Register(AssemblyRegister::R10) => Some(Machine { r10: v, ..m }),
        AssemblyOperandView::Register(AssemblyRegister::R11) => Some(Machine { r11: v, ..m }),
        AssemblyOperandView::StackPointer(offset) => Some(
            Machine { stack: m.stack.insert(offset as int, v), ..m },
        ),
        _ => None,
    }
}

/// The machine after `v` is written to `o`, where there is a value.
pub open spec fn write_value(m: Machine, o: AssemblyOperandView, v: Option<i32>) -> Option<Machine> {
    match v {
        Some(value) => write(m, o, value),
        None => None,
    }
}

/// The 64-bit dividend that `%edx` and `%eax` hold together.
pub open spec fn dividend(m: Machine) -> int {
    m.dx * 0x1_0000_0000 + (if m.ax < 0 {
        m.ax + 0x1_0000_0000
    } else {
        m.ax as int
    })
}

/// The machine after one instruction other than the return, or `None` where
/// the processor faults or does not take the instruction.
pub open spec fn step(i: AssemblyInstructionView, m: Machine) -> Option<Machine> {
    if !encodable(i) {
        None
    } else {
        match i {
            AssemblyInstructionView::Mov(source, destination) => write_value(
                m,
                destination,
                read(m, source),
            ),
            AssemblyInstructionView::Unary(op, operand) => match read(m, operand) {
                Some(v) => write(
                    m,
                    operand,
                    match op {
                        AssemblyUnaryOperator::Neg => wrap(-v),
                        AssemblyUnaryOperator::Not => complement(v),
                    },
                ),
                None => None,
            },
            AssemblyInstructionView::Binary(op, source, destination) => match (
                read(m, source),
                read(m, destination),
            ) {
                (Some(s), Some(d)) => write(
                    m,
                    destination,
                    match op {
                        AssemblyBinaryOperator::Add => wrap(d + s),
                        AssemblyBinaryOperator::Sub => wrap(d - s),
                        AssemblyBinaryOperator::Mult => wrap(d * s),
                    },
                ),
                _ => None,
            },
            AssemblyInstructionView::Idiv(divisor) => match read(m, divisor) {
                Some(by) => if divisible(dividend(m), by as int) {
                    Some(
                        Machine {
                            ax: quotient(dividend(m), by as int) as i32,
                            dx: remainder(dividend(m), by as int) as i32,
                            ..m
                        },
                    )
                } else {
                    None
                },
                None => None,
            },
            AssemblyInstructionView::Cdq => Some(
                Machine {
                    dx: if m.ax < 0 {
                        -1i32
                    } else {
                        0i32
                    },
                    ..m
                },
            ),
            AssemblyInstructionView::AllocateStack(_) => Some(m),
            AssemblyInstructionView::Ret => None,
        }
    }
}

/// The outcome of running the instructions in order from the machine `m`.
pub open spec fn run(instructions: Seq<AssemblyInstructionView>, m: Machine) -> Outcome
    decreases instructions.len(),
{
    if instructions.len() == 0 {
        Outcome::Finished(m)
    } else if instructions[0] is Ret {
        Outcome::Returned(m.ax)
    } else {
        match step(instructions[0], m) {
            Some(next) => run(instructions.skip(1), next),
            None => Outcome::Fault,
        }
    }
}

/// Running one run of instructions after another is running the first and,
/// where it comes to its end, the second from there.
pub proof fn lemma_run_concat(
    a: Seq<AssemblyInstructionView>,
    b: Seq<AssemblyInstructionView>,
    m: Machine,
)
    ensures
        run(a + b, m) == match run(a, m) {
            Outcome::Finished(next) => run(b, next),
            other => other,
        },
    decreases a.len(),
{
    if a.len() > 0 {
        assert((a + b).skip(1) =~= a.skip(1) + b);
        if !(a[0] is Ret) {
            if let Some(next) = step(a[0], m) {
                lemma_run_concat(a.skip(1), b, next);
            }
        }
    }
}

//
// The code of an expression
//

/// The slot of register number `n` as an operand.
pub open spec fn slot(n: nat) -> AssemblyOperandView {
    AssemblyOperandView::StackPointer(slot_offset(n) as i32)
}

/// A move from one operand to another.
pub open spec fn mov(source: AssemblyOperandView, destination: AssemblyOperandView) -> AssemblyInstructionView {
    AssemblyInstructionView::Mov(source, destination)
}

/// The assembly of a constant whose slot is that of register `first`: the
/// constant goes to the slot and from there, through a scratch register, to
/// the slot of the next register.
pub open spec fn compiled_constant(value: i32, first: nat) -> Seq<AssemblyInstructionView> {
    seq![
        mov(AssemblyOperandView::Immediate(value), slot(first)),
        mov(slot(first), hardware(AssemblyRegister::R10)),
        mov(hardware(AssemblyRegister::R10), slot(first + 1)),
    ]
}

/// The assembly of a unary operator from the slot `source` into the slot
/// `destination`.
pub open spec fn compiled_unary(op: UnaryOperator, source: nat, destination: nat) -> Seq<
    AssemblyInstructionView,
> {
    seq![
        mov(slot(source), hardware(AssemblyRegister::R10)),
        mov(hardware(AssemblyRegister::R10), slot(destination)),
        AssemblyInstructionView::Unary(select_unary(lower_unary(op)), slot(destination)),
    ]
}

/// The assembly of a sum or a difference of the slots `left` and `right`
/// into the slot `destination`.
pub open spec fn compiled_sum(
    op: AssemblyBinaryOperator,
    left: nat,
    right: nat,
    destination: nat,
) -> Seq<AssemblyInstructionView> {
    seq![
        mov(slot(left), hardware(AssemblyRegister::R10)),
        mov(hardware(AssemblyRegister::R10), slot(destination)),
        mov(slot(right), hardware(AssemblyRegister::R10)),
        AssemblyInstructionView::Binary(op, hardware(AssemblyRegister::R10), slot(destination)),
    ]
}

/// The assembly of a product of the slots `left` and `right` into the slot
/// `destination`.
pub open spec fn compiled_product(left: nat, right: nat, destination: nat) -> Seq<
    AssemblyInstructionView,
> {
    seq![
        mov(slot(left), hardware(AssemblyRegister::R10)),
        mov(hardware(AssemblyRegister::R10), slot(destination)),
        mov(slot(destination), hardware(AssemblyRegister::R11)),
        AssemblyInstructionView::Binary(
            AssemblyBinaryOperator::Mult,
            slot(right),
            hardware(AssemblyRegister::R11),
        ),
        mov(hardware(AssemblyRegister::R11), slot(destination)),
    ]
}

/// The assembly of a division of the slot `left` by the slot `right`, of
/// which the register `result` goes to the slot `destination`.
pub open spec fn compiled_division(
    result: AssemblyRegister,
    left: nat,
    right: nat,
    destination: nat,
) -> Seq<AssemblyInstructionView> {
    seq![
        mov(slot(left), hardware(AssemblyRegister::AX)),
        AssemblyInstructionView::Cdq,
        AssemblyInstructionView::Idiv(slot(right)),
        mov(hardware(result), slot(destination)),
    ]
}

/// The assembly of a binary operator on the slots `left` and `right` into
/// the slot `destination`.
pub open spec fn compiled_binary(op: BinaryOperator, left: nat, right: nat, destination: nat) -> Seq<
    AssemblyInstructionView,
> {
    match op {
        BinaryOperator::Add => compiled_sum(AssemblyBinaryOperator::Add, left, right, destination),
        BinaryOperator::Subtract => compiled_sum(
            AssemblyBinaryOperator::Sub,
            left,
            right,
            destination,
        ),
        BinaryOperator::Multiply => compiled_product(left, right, destination),
        BinaryOperator::Divide => compiled_division(AssemblyRegister::AX, left, right, destination),
        BinaryOperator::Remainder => compiled_division(
            AssemblyRegister::DX,
            left,
            right,
            destination,
        ),
    }
}

/// The assembly of an expression whose registers are numbered from `first`:
/// what the three passes of the backend make of its linear form, by
/// [`lemma_compiled_expression_is_assembled`].
pub open spec fn compiled_expression(e: Expression, first: nat) -> Seq<AssemblyInstructionView>
    decreases e,
{
    match e {
        Expression::Constant(value) => compiled_constant(value, first),
        Expression::Unary(op, operand) => compiled_expression(*operand, first) + compiled_unary(
            op,
            result_register(*operand, first),
            first + register_count(*operand),
        ),
        Expression::Binary(op, left, right) => {
            let second = first + register_count(*left);
            compiled_expression(*left, first) + compiled_expression(*right, second)
                + compiled_binary(
                op,
                result_register(*left, first),
                result_register(*right, second),
                second + register_count(*right),
            )
        },
    }
}

/// What running the code of an expression does to the machine `before`: it
/// ends in a machine that holds the value `v` in the slot `result` and has
/// left the slots of the registers below `first` as they were.
pub open spec fn computes(outcome: Outcome, before: Machine, first: nat, result: nat, v: i32) -> bool {
    &&& outcome matches Outcome::Finished(after)
    &&& after.stack[slot_offset(result)] == v
    &&& forall|k: nat| k < first ==> after.stack[slot_offset(k)] == before.stack[slot_offset(k)]
}

proof fn lemma_constant_runs(value: i32, first: nat, m: Machine)
    requires
        first + 1 <= MAX_SLOT_INDEX,
    ensures
        computes(run(compiled_constant(value, first), m), m, first, first + 1, value),
{
    reveal_with_fuel(run, 4);
}

/// What running the code of an operator does to the machine `before`: where
/// the operator has the result `v`, it ends in a machine that holds `v` in
/// the slot `destination` and has left the slots of the registers below it
/// as they were; where it has none, it faults.
pub open spec fn applies(outcome: Outcome, before: Machine, destination: nat, v: Option<i32>) -> bool {
    match v {
        Some(value) => computes(outcome, before, destination, destination, value),
        None => outcome is Fault,
    }
}

proof fn lemma_unary_runs(op: UnaryOperator, source: nat, destination: nat, m: Machine)
    requires
        source < destination <= MAX_SLOT_INDEX,
    ensures
        applies(
            run(compiled_unary(op, source, destination), m),
            m,
            destination,
            Some(apply_unary(op, m.stack[slot_offset(source)])),
        ),
{
    reveal_with_fuel(run, 4);
}

proof fn lemma_sum_runs(op: AssemblyBinaryOperator, left: nat, right: nat, destination: nat, m: Machine)
    requires
        left < destination <= MAX_SLOT_INDEX,
        right < destination,
        op != AssemblyBinaryOperator::Mult,
    ensures
        computes(
            run(compiled_sum(op, left, right, destination), m),
            m,
            destination,
            destination,
            if op == AssemblyBinaryOperator::Add {
                wrap(m.stack[slot_offset(left)] + m.stack[slot_offset(right)])
            } else {
                wrap(m.stack[slot_offset(left)] - m.stack[slot_offset(right)])
            },
        ),
{
    reveal_with_fuel(run, 5);
}

proof fn lemma_product_runs(left: nat, right: nat, destination: nat, m: Machine)
    requires
        left < destination <= MAX_SLOT_INDEX,
        right < destination,
    ensures
        computes(
            run(compiled_product(left, right, destination), m),
            m,
            destination,
            destination,
            wrap(m.stack[slot_offset(left)] * m.stack[slot_offset(right)]),
        ),
{
    reveal_with_fuel(run, 6);
}

proof fn lemma_division_runs(
    result: AssemblyRegister,
    left: nat,
    right: nat,
    destination: nat,
    m: Machine,
)
    requires
        left < destination <= MAX_SLOT_INDEX,
        right < destination,
        result == AssemblyRegister::AX || result == AssemblyRegister::DX,
    ensures
        ({
            let a = m.stack[slot_offset(left)] as int;
            let b = m.stack[slot_offset(right)] as int;
            applies(
                run(compiled_division(result, left, right, destination), m),
                m,
                destination,
                if divisible(a, b) {
                    Some(
                        if result == AssemblyRegister::AX {
                            quotient(a, b) as i32
                        } else {
                            remainder(a, b) as i32
                        },
                    )
                } else {
                    None
                },
            )
        }),
{
    reveal_with_fuel(run, 5);
}

proof fn lemma_binary_runs(op: BinaryOperator, left: nat, right: nat, destination: nat, m: Machine)
    requires
        left < destination <= MAX_SLOT_INDEX,
        right < destination,
    ensures
        applies(
            run(compiled_binary(op, left, right, destination), m),
            m,
            destination,
            apply_binary(op, m.stack[slot_offset(left)], m.stack[slot_offset(right)]),
        ),
{
    match op {
        BinaryOperator::Add => lemma_sum_runs(
            AssemblyBinaryOperator::Add,
            left,
            right,
            destination,
            m,
        ),
        BinaryOperator::Subtract => lemma_sum_runs(
            AssemblyBinaryOperator::Sub,
            left,
            right,
            destination,
            m,
        ),
        BinaryOperator::Multiply => lemma_product_runs(left, right, destination, m),
        BinaryOperator::Divide => lemma_division_runs(
            AssemblyRegister::AX,
            left,
            right,
            destination,
            m,
        ),
        BinaryOperator::Remainder => lemma_division_runs(
            AssemblyRegister::DX,
            left,
            right,
            destination,
            m,
        ),
    }
}

/// Running the code of an expression leaves its value in the slot of its
/// result register and the slots below its first register as they were;
/// where the expression has no value, the code faults.
pub proof fn lemma_compiled_expression_runs(e: Expression, first: nat, m: Machine)
    requires
        first + register_count(e) <= MAX_SLOT_INDEX + 1,
    ensures
        match evaluate(e) {
            Some(v) => computes(
                run(compiled_expression(e, first), m),
                m,
                first,
                result_register(e, first),
                v,
            ),
            None => run(compiled_expression(e, first), m) is Fault,
        },
    decreases e,
{
    match e {
        Expression::Constant(value) => {
            lemma_constant_runs(value, first, m);
        },
        Expression::Unary(op, operand) => {
            let inner = compiled_expression(*operand, first);
            let source = result_register(*operand, first);
            let destination = first + register_count(*operand);
            lemma_compiled_expression_runs(*operand, first, m);
            lemma_run_concat(inner, compiled_unary(op, source, destination), m);
            if let Outcome::Finished(middle) = run(inner, m) {
                lemma_unary_runs(op, source, destination, middle);
            }
        },
        Expression::Binary(op, left, right) => {
            let second = first + register_count(*left);
            let destination = second + register_count(*right);
            let a = compiled_expression(*left, first);
            let b = compiled_expression(*right, second);
            let c = compiled_binary(
                op,
                result_register(*left, first),
                result_register(*right, second),
                destination,
            );
            lemma_compiled_expression_runs(*left, first, m);
            lemma_run_concat(a, b, m);
            lemma_run_concat(a + b, c, m);
            if let Outcome::Finished(middle) = run(a, m) {
                lemma_compiled_expression_runs(*right, second, middle);
                if let Outcome::Finished(last) = run(b, middle) {
                    lemma_binary_runs(
                        op,
                        result_register(*left, first),
                        result_register(*right, second),
                        destination,
                        last,
                    );
                }
            }
        },
    }
}

//
// The code of an expression is what the backend makes
//

/// The instructions with every pseudo-register replaced by its slot.
pub open spec fn spill_all(instructions: Seq<AssemblyInstructionView>) -> Seq<AssemblyInstructionView> {
    instructions.map_values(|i: AssemblyInstructionView| spill_instruction(i))
}

/// What the three passes of the backend make of a run of instructions of
/// the linear form.
pub open spec fn assembled(instructions: Seq<LLVMInstructionView>) -> Seq<AssemblyInstructionView> {
    legalize_all(spill_all(select_all(instructions)))
}

proof fn lemma_select_concat(a: Seq<LLVMInstructionView>, b: Seq<LLVMInstructionView>)
    ensures
        select_all(a + b) == select_all(a) + select_all(b),
    decreases b.len(),
{
    if b.len() > 0 {
        assert((a + b).drop_last() =~= a + b.drop_last());
        lemma_select_concat(a, b.drop_last());
    }
}

proof fn lemma_legalize_concat(a: Seq<AssemblyInstructionView>, b: Seq<AssemblyInstructionView>)
    ensures
        legalize_all(a + b) == legalize_all(a) + legalize_all(b),
    decreases b.len(),
{
    if b.len() > 0 {
        assert((a + b).drop_last() =~= a + b.drop_last());
        lemma_legalize_concat(a, b.drop_last());
    }
}

proof fn lemma_legalize_one(i: AssemblyInstructionView)
    ensures
        legalize_all(seq![i]) == legalize_instruction(i),
{
    assert(legalize_all(seq![i].drop_last()) + legalize_instruction(i) =~= legalize_instruction(i));
}

/// The backend works through a run of instructions piece by piece.
proof fn lemma_assembled_concat(a: Seq<LLVMInstructionView>, b: Seq<LLVMInstructionView>)
    ensures
        assembled(a + b) == assembled(a) + assembled(b),
{
    lemma_select_concat(a, b);
    assert(spill_all(select_all(a) + select_all(b)) =~= spill_all(select_all(a)) + spill_all(
        select_all(b),
    ));
    lemma_legalize_concat(spill_all(select_all(a)), spill_all(select_all(b)));
}

/// What the backend makes of one instruction of the linear form: its selection,
/// spilled and legalized.
proof fn lemma_assembled_one(i: LLVMInstructionView)
    ensures
        assembled(seq![i]) == legalize_all(spill_all(select_instruction(i))),
{
    assert(select_all(seq![i].drop_last()) + select_instruction(i) =~= select_instruction(i));
}

/// The pseudo-register of register number `n` is spilled to its slot.
proof fn lemma_spill_register(n: nat)
    ensures
        crate::x86_64_generator::spill_operand(
            AssemblyOperandView::PseudoRegister(register_name(n)),
        ) == slot(n),
{
    lemma_register_index_of_name(n);
}

proof fn lemma_legalize_two(a: AssemblyInstructionView, b: AssemblyInstructionView)
    ensures
        legalize_all(seq![a, b]) == legalize_instruction(a) + legalize_instruction(b),
{
    assert(seq![a, b] =~= seq![a] + seq![b]);
    lemma_legalize_concat(seq![a], seq![b]);
    lemma_legalize_one(a);
    lemma_legalize_one(b);
}

proof fn lemma_legalize_four(
    a: AssemblyInstructionView,
    b: AssemblyInstructionView,
    c: AssemblyInstructionView,
    d: AssemblyInstructionView,
)
    ensures
        legalize_all(seq![a, b, c, d]) == legalize_instruction(a) + legalize_instruction(b)
            + legalize_instruction(c) + legalize_instruction(d),
{
    assert(seq![a, b, c, d] =~= seq![a, b] + seq![c, d]);
    lemma_legalize_concat(seq![a, b], seq![c, d]);
    lemma_legalize_two(a, b);
    lemma_legalize_two(c, d);
}

proof fn lemma_assembled_constant(value: i32, first: nat)
    requires
        first + 1 <= MAX_SLOT_INDEX,
    ensures
        assembled(lower_expression(Expression::Constant(value), first)) == compiled_constant(
            value,
            first,
        ),
{
    let reserve = LLVMInstructionView::Alloca(register_name(first), int_type());
    let store = LLVMInstructionView::Store(LLVMValueView::Immediate(value), register(first));
    let load = LLVMInstructionView::Load(register_name(first + 1), register(first));
    let lowered = lower_expression(Expression::Constant(value), first);
    assert(lowered =~= (seq![reserve] + seq![store]) + seq![load]);
    lemma_assembled_concat(seq![reserve], seq![store]);
    lemma_assembled_concat(seq![reserve] + seq![store], seq![load]);
    lemma_assembled_one(reserve);
    lemma_assembled_one(store);
    lemma_assembled_one(load);
    lemma_spill_register(first);
    lemma_spill_register(first + 1);
    let stored = mov(AssemblyOperandView::Immediate(value), slot(first));
    let loaded = mov(slot(first), slot(first + 1));
    assert(spill_all(select_instruction(store)) =~= seq![stored]);
    assert(spill_all(select_instruction(load)) =~= seq![loaded]);
    lemma_legalize_one(stored);
    lemma_legalize_one(loaded);
}

proof fn lemma_assembled_unary(op: UnaryOperator, source: nat, destination: nat)
    requires
        source < destination <= MAX_SLOT_INDEX,
    ensures
        assembled(
            seq![
                LLVMInstructionView::UnaryOp(
                    register_name(destination),
                    int_type(),
                    lower_unary(op),
                    register(source),
                ),
            ],
        ) == compiled_unary(op, source, destination),
{
    let i = LLVMInstructionView::UnaryOp(
        register_name(destination),
        int_type(),
        lower_unary(op),
        register(source),
    );
    lemma_assembled_one(i);
    lemma_spill_register(source);
    lemma_spill_register(destination);
    let moved = mov(slot(source), slot(destination));
    let applied = AssemblyInstructionView::Unary(select_unary(lower_unary(op)), slot(destination));
    assert(spill_all(select_instruction(i)) =~= seq![moved, applied]);
    lemma_legalize_two(moved, applied);
}

proof fn lemma_assembled_binary(op: BinaryOperator, left: nat, right: nat, destination: nat)
    requires
        left < destination <= MAX_SLOT_INDEX,
        right < destination,
    ensures
        assembled(
            seq![
                LLVMInstructionView::BinaryOp(
                    register_name(destination),
                    int_type(),
                    lower_binary(op),
                    register(left),
                    register(right),
                ),
            ],
        ) == compiled_binary(op, left, right, destination),
{
    let i = LLVMInstructionView::BinaryOp(
        register_name(destination),
        int_type(),
        lower_binary(op),
        register(left),
        register(right),
    );
    lemma_assembled_one(i);
    lemma_spill_register(left);
    lemma_spill_register(right);
    lemma_spill_register(destination);
    let moved = mov(slot(left), slot(destination));
    match op {
        BinaryOperator::Add | BinaryOperator::Subtract | BinaryOperator::Multiply => {
            let operator = match op {
                BinaryOperator::Add => AssemblyBinaryOperator::Add,
                BinaryOperator::Subtract => AssemblyBinaryOperator::Sub,
                _ => AssemblyBinaryOperator::Mult,
            };
            let applied = AssemblyInstructionView::Binary(operator, slot(right), slot(destination));
            assert(spill_all(select_instruction(i)) =~= seq![moved, applied]);
            lemma_legalize_two(moved, applied);
        },
        BinaryOperator::Divide | BinaryOperator::Remainder => {
            let result = if op == BinaryOperator::Divide {
                AssemblyRegister::AX
            } else {
                AssemblyRegister::DX
            };
            let a = mov(slot(left), hardware(AssemblyRegister::AX));
            let b = AssemblyInstructionView::Cdq;
            let c = AssemblyInstructionView::Idiv(slot(right));
            let d = mov(hardware(result), slot(destination));
            assert(spill_all(select_instruction(i)) =~= seq![a, b, c, d]);
            lemma_legalize_four(a, b, c, d);
        },
    }
}

/// The code of an expression is what the three passes of the backend make
/// of its linear form.
pub proof fn lemma_compiled_expression_is_assembled(e: Expression, first: nat)
    requires
        first + register_count(e) <= MAX_SLOT_INDEX + 1,
    ensures
        assembled(lower_expression(e, first)) == compiled_expression(e, first),
    decreases e,
{
    match e {
        Expression::Constant(value) => {
            lemma_assembled_constant(value, first);
        },
        Expression::Unary(op, operand) => {
            let inner = lower_expression(*operand, first);
            let source = result_register(*operand, first);
            let destination = first + register_count(*operand);
            let last = LLVMInstructionView::UnaryOp(
                register_name(destination),
                int_type(),
                lower_unary(op),
                register(source),
            );
            lemma_compiled_expression_is_assembled(*operand, first);
            assert(lower_expression(e, first) =~= inner + seq![last]);
            lemma_assembled_concat(inner, seq![last]);
            lemma_assembled_unary(op, source, destination);
        },
        Expression::Binary(op, left, right) => {
            let second = first + register_count(*left);
            let destination = second + register_count(*right);
            let a = lower_expression(*left, first);
            let b = lower_expression(*right, second);
            let last = LLVMInstructionView::BinaryOp(
                register_name(destination),
                int_type(),
                lower_binary(op),
                register(result_register(*left, first)),
                register(result_register(*right, second)),
            );
            lemma_compiled_expression_is_assembled(*left, first);
            lemma_compiled_expression_is_assembled(*right, second);
            assert(lower_expression(e, first) =~= (a + b) + seq![last]);
            lemma_assembled_concat(a, b);
            lemma_assembled_concat(a + b, seq![last]);
            lemma_assembled_binary(
                op,
                result_register(*left, first),
                result_register(*right, second),
                destination,
            );
        },
    }
}

//
// The law
//

/// The assembly of a function, whatever the machine it starts on, returns
/// the value of the expression of the function in `%eax`, and faults where
/// the expression has no value: where it divides by zero, or where a
/// quotient does not fit in 32 bits.
///
/// This holds of every function whose registers all have slots.
pub proof fn law_compiled_code_computes_the_value(f: FunctionView, m: Machine)
    requires
        register_count(f.body->Return_0) <= MAX_SLOT_INDEX + 1,
    ensures
        run(assemble(lower_function(f)).instructions, m) == match evaluate(f.body->Return_0) {
            Some(v) => Outcome::Returned(v),
            None => Outcome::Fault,
        },
{
    let e = f.body->Return_0;
    let result = result_register(e, 0);
    let body = lower_expression(e, 0);
    let give = LLVMInstructionView::ReturnValue(register(result));
    let linear = lower_function(f).instructions;
    assert(linear =~= body + seq![give]);
    // The selected instructions, the return included.
    lemma_select_concat(body, seq![give]);
    assert(select_all(seq![give].drop_last()) + select_instruction(give) =~= select_instruction(
        give,
    ));
    // The same, spilled.
    let spilled = crate::x86_64_generator::spill_function(
        crate::x86_64_generator::select_function(lower_function(f)),
    ).instructions;
    lemma_spill_register(result);
    let fetched = mov(slot(result), hardware(AssemblyRegister::AX));
    assert(spilled =~= spill_all(select_all(body)) + seq![fetched, AssemblyInstructionView::Ret]);
    // The same, legalized.
    lemma_legalize_concat(spill_all(select_all(body)), seq![fetched, AssemblyInstructionView::Ret]);
    lemma_legalize_two(fetched, AssemblyInstructionView::Ret);
    lemma_compiled_expression_is_assembled(e, 0);
    let code = compiled_expression(e, 0);
    let end = seq![fetched, AssemblyInstructionView::Ret];
    assert(legalize_instruction(fetched) + legalize_instruction(AssemblyInstructionView::Ret)
        =~= end);
    let reserve = seq![AssemblyInstructionView::AllocateStack(FRAME_SIZE)];
    // Running it.
    lemma_run_concat(reserve, code + end, m);
    assert(run(reserve, m) == Outcome::Finished(m)) by {
        reveal_with_fuel(run, 2);
    }
    lemma_run_concat(code, end, m);
    lemma_compiled_expression_runs(e, 0, m);
    if let Outcome::Finished(after) = run(code, m) {
        assert(run(end, after) == Outcome::Returned(after.stack[slot_offset(result)])) by {
            reveal_with_fuel(run, 3);
        }
    }
}

} // verus!
