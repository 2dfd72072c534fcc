//! A direct generator for the programs that return a constant: from the
//! syntax tree to assembly in one step, with no intermediate form and no
//! stack frame.
//!
//! [`direct_function`] states the assembly of such a program, and
//! [`generate`] is proved to produce it and to refuse every other program.
//! The text of the assembly is indented by levels, through [`PrettyPrint`].

use crate::parser::{Expression, FunctionDefinition, FunctionView, Program, Statement};
use crate::text::{append_decimal, decimal};
use vstd::prelude::*;

verus! {

/// A program: exactly one function.
#[derive(Debug, Clone, PartialEq, Eq)]
pub enum AssemblyConstruct {
    Program(AssemblyFunction),
}

/// A function: its name and its instructions, in order.
#[derive(Debug, Clone, PartialEq, Eq)]
pub enum AssemblyFunction {
    Function { name: String, instructions: Vec<AssemblyInstruction> },
}

/// One instruction; of the operands of a move the first is the source.
#[derive(Debug, Clone, PartialEq, Eq)]
pub enum AssemblyInstruction {
    Mov(AssemblyOperand, AssemblyOperand),
    Ret,
}

/// An operand: a register, by its name without the `%`, or a number.
#[derive(Debug, Clone, PartialEq, Eq)]
pub enum AssemblyOperand {
    Register(String),
    Immediate(i32),
}

/// The mathematical model of an [`AssemblyOperand`].
pub enum AssemblyOperandView {
    Register(Seq<char>),
    Immediate(i32),
}

/// The mathematical model of an [`AssemblyInstruction`].
pub enum AssemblyInstructionView {
    Mov(AssemblyOperandView, AssemblyOperandView),
    Ret,
}

/// The mathematical model of an [`AssemblyFunction`], and of the program
/// that holds it.
pub struct AssemblyFunctionView {
    pub name: Seq<char>,
    pub instructions: Seq<AssemblyInstructionView>,
}

impl View for AssemblyOperand {
    type V = AssemblyOperandView;

    open spec fn view(&self) -> AssemblyOperandView {
        match self {
            AssemblyOperand::Register(name) => AssemblyOperandView::Register(name@),
            AssemblyOperand::Immediate(value) => AssemblyOperandView::Immediate(*value),
        }
    }
}

impl View for AssemblyInstruction {
    type V = AssemblyInstructionView;

    open spec fn view(&self) -> AssemblyInstructionView {
        match self {
            AssemblyInstruction::Mov(source, destination) => AssemblyInstructionView::Mov(
                source@,
                destination@,
            ),
            AssemblyInstruction::Ret => AssemblyInstructionView::Ret,
        }
    }
}

/// The models of a sequence of instructions, in order.
pub open spec fn assembly_views(instructions: Seq<AssemblyInstruction>) -> Seq<
    AssemblyInstructionView,
> {
    instructions.map_values(|i: AssemblyInstruction| i@)
}

impl View for AssemblyFunction {
    type V = AssemblyFunctionView;

    open spec fn view(&self) -> AssemblyFunctionView {
        match self {
            AssemblyFunction::Function { name, instructions } => AssemblyFunctionView {
                name: name@,
                instructions: assembly_views(instructions@),
            },
        }
    }
}

impl View for AssemblyConstruct {
    type V = AssemblyFunctionView;

    open spec fn view(&self) -> AssemblyFunctionView {
        match self {
            AssemblyConstruct::Program(function) => function@,
        }
    }
}

//
// Generation
//

/// The message for an expression that is more than a constant.
pub open spec fn unsupported_message() -> Seq<char> {
    "Only a constant can be returned without a stack frame"@
}

/// The instructions that leave the value of a constant in `%eax`; no other
/// expression has any.
pub open spec fn direct_expression(e: Expression) -> Result<Seq<AssemblyInstructionView>, Seq<char>> {
    match e {
        Expression::Constant(value) => Ok(
            seq![
                AssemblyInstructionView::Mov(
                    AssemblyOperandView::Immediate(value),
                    AssemblyOperandView::Register("eax"@),
                ),
            ],
        ),
        _ => Err(unsupported_message()),
    }
}

/// The instructions of a statement: those of the expression, then the
/// return.
pub open spec fn direct_statement(s: Statement) -> Result<Seq<AssemblyInstructionView>, Seq<char>> {
    match s {
        Statement::Return(e) => match direct_expression(e) {
            Ok(instructions) => Ok(instructions.push(AssemblyInstructionView::Ret)),
            Err(message) => Err(message),
        },
    }
}

/// The assembly of a function: the same name, and the instructions of its
/// body.
pub open spec fn direct_function(f: FunctionView) -> Result<AssemblyFunctionView, Seq<char>> {
    match direct_statement(f.body) {
        Ok(instructions) => Ok(AssemblyFunctionView { name: f.name, instructions }),
        Err(message) => Err(message),
    }
}

/// The instructions of an expression.
pub fn generate_expression(expr: &Expression) -> (r: Result<Vec<AssemblyInstruction>, String>)
    ensures
        match direct_expression(*expr) {
            Ok(instructions) => r matches Ok(list) && assembly_views(list@) == instructions,
            Err(message) => r matches Err(e) && e@ == message,
        },
{
    match expr {
        Expression::Constant(value) => {
            let mut list: Vec<AssemblyInstruction> = Vec::new();
            list.push(
                AssemblyInstruction::Mov(
                    AssemblyOperand::Immediate(*value),
                    AssemblyOperand::Register(String::from_str("eax")),
                ),
            );
            Ok(list)
        },
        _ => Err(String::from_str("Only a constant can be returned without a stack frame")),
    }
}

/// The instructions of a statement.
pub fn generate_statement(statement: &Statement) -> (r: Result<Vec<AssemblyInstruction>, String>)
    ensures
        match direct_statement(*statement) {
            Ok(instructions) => r matches Ok(list) && assembly_views(list@) == instructions,
            Err(message) => r matches Err(e) && e@ == message,
        },
{
    match statement {
        Statement::Return(expr) => match generate_expression(expr) {
            Ok(mut list) => {
                list.push(AssemblyInstruction::Ret);
                Ok(list)
            },
            Err(e) => Err(e),
        },
    }
}

/// The assembly of a function.
pub fn generate_function(function: &FunctionDefinition) -> (r: Result<AssemblyFunction, String>)
    ensures
        match direct_function(function@) {
            Ok(assembly) => r matches Ok(f) && f@ == assembly,
            Err(message) => r matches Err(e) && e@ == message,
        },
{
    match function {
        FunctionDefinition::Function { name, body } => match generate_statement(body) {
            Ok(instructions) => Ok(
                AssemblyFunction::Function { name: name.to_string(), instructions },
            ),
            Err(e) => Err(e),
        },
    }
}

/// Assembles a program that returns a constant.
///
/// Succeeds exactly when the program returns a constant, with the function
/// that [`direct_function`] names, and otherwise fails with its message.
pub fn generate(program: &Program) -> (r: Result<AssemblyConstruct, String>)
    ensures
        match direct_function(program@) {
            Ok(assembly) => r matches Ok(p) && p@ == assembly,
            Err(message) => r matches Err(e) && e@ == message,
        },
{
    match program {
        Program::Program(function) => match generate_function(function) {
            Ok(assembly) => Ok(AssemblyConstruct::Program(assembly)),
            Err(e) => Err(e),
        },
    }
}

//
// The text
//

/// The indentation of `level` levels: four spaces each.
pub open spec fn indentation(level: nat) -> Seq<char>
    decreases level,
{
    if level == 0 {
        Seq::empty()
    } else {
        indentation((level - 1) as nat) + "    "@
    }
}

/// An operand as it is written: a register after `%`, a number after `$`.
pub open spec fn operand_text(o: AssemblyOperandView) -> Seq<char> {
    match o {
        AssemblyOperandView::Register(name) => "%"@ + name,
        AssemblyOperandView::Immediate(value) => "$"@ + decimal(value as int),
    }
}

/// The line of an instruction at `level` levels of indentation.
pub open spec fn instruction_text(i: AssemblyInstructionView, level: nat) -> Seq<char> {
    match i {
        AssemblyInstructionView::Mov(source, destination) => indentation(level) + "movl "@
            + operand_text(source) + ", "@ + operand_text(destination) + "\n"@,
        AssemblyInstructionView::Ret => indentation(level) + "ret\n"@,
    }
}

/// The lines of a run of instructions at `level` levels of indentation.
pub open spec fn body_text(instructions: Seq<AssemblyInstructionView>, level: nat) -> Seq<char>
    decreases instructions.len(),
{
    if instructions.len() == 0 {
        Seq::empty()
    } else {
        body_text(instructions.drop_last(), level) + instruction_text(instructions.last(), level)
    }
}

/// The text of a function at `level` levels of indentation: the directive
/// that exports its name and its label, both at the margin, and its
/// instructions one level further in.
pub open spec fn function_text(f: AssemblyFunctionView, level: nat) -> Seq<char> {
    ".globl "@ + f.name + "\n"@ + f.name + ":\n"@ + body_text(f.instructions, level + 1)
}

/// The text of a program at `level` levels of indentation: that of its
/// function, then the directive that marks the stack as not executable.
pub open spec fn program_text(f: AssemblyFunctionView, level: nat) -> Seq<char> {
    function_text(f, level) + ".section .note.GNU-stack,\"\",@progbits\n"@
}

/// A value that can be written as indented text.
pub trait PrettyPrint {
    /// The text of the value at `level` levels of indentation.
    spec fn pretty(&self, level: nat) -> Seq<char>;

    /// Writes the value at `level` levels of indentation. The level must
    /// leave room for one more.
    fn pretty_print(&self, level: usize) -> (r: String)
        requires
            level < usize::MAX,
        ensures
            r@ == self.pretty(level as nat),
    ;
}

/// The indentation of `level` levels.
pub fn indent(level: usize) -> (r: String)
    ensures
        r@ == indentation(level as nat),
{
    let mut out = String::new();
    let mut i: usize = 0;
    while i < level
        invariant
            i <= level,
            out@ == indentation(i as nat),
        decreases level - i,
    {
        out.append("    ");
        i = i + 1;
    }
    out
}

impl AssemblyOperand {
    /// The operand as it is written.
    pub fn to_string(&self) -> (r: String)
        ensures
            r@ == operand_text(self@),
    {
        match self {
            AssemblyOperand::Register(name) => String::from_str("%").concat(name.as_str()),
            AssemblyOperand::Immediate(value) => {
                let mut out = String::from_str("$");
                append_decimal(&mut out, *value);
                out
            },
        }
    }
}

impl AssemblyInstruction {
    /// The line of the instruction at `level` levels of indentation.
    fn line(&self, level: usize) -> (r: String)
        ensures
            r@ == instruction_text(self@, level as nat),
    {
        let mut out = indent(level);
        match self {
            AssemblyInstruction::Mov(source, destination) => {
                out.append("movl ");
                out.append(source.to_string().as_str());
                out.append(", ");
                out.append(destination.to_string().as_str());
                out.append("\n");
            },
            AssemblyInstruction::Ret => {
                out.append("ret\n");
            },
        }
        out
    }
}

impl PrettyPrint for AssemblyInstruction {
    open spec fn pretty(&self, level: nat) -> Seq<char> {
        instruction_text(self@, level)
    }

    fn pretty_print(&self, level: usize) -> (r: String) {
        self.line(level)
    }
}

impl PrettyPrint for AssemblyFunction {
    open spec fn pretty(&self, level: nat) -> Seq<char> {
        function_text(self@, level)
    }

    fn pretty_print(&self, level: usize) -> (r: String) {
        match self {
            AssemblyFunction::Function { name, instructions } => {
                let mut out = String::from_str(".globl ");
                out.append(name.as_str());
                out.append("\n");
                out.append(name.as_str());
                out.append(":\n");
                let ghost head = out@;
                let ghost views = assembly_views(instructions@);
                let ghost inner = (level + 1) as nat;
                let mut i: usize = 0;
                while i < instructions.len()
                    invariant
                        i <= instructions.len(),
                        level < usize::MAX,
                        inner == level + 1,
                        views == assembly_views(instructions@),
                        out@ == head + body_text(views.take(i as int), inner),
                    decreases instructions.len() - i,
                {
                    out.append(instructions[i].line(level + 1).as_str());
                    proof {
                        let next = views.take(i + 1);
                        assert(next.drop_last() =~= views.take(i as int));
                    }
                    i = i + 1;
                }
                assert(views.take(i as int) =~= views);
                out
            },
        }
    }
}

impl PrettyPrint for AssemblyConstruct {
    open spec fn pretty(&self, level: nat) -> Seq<char> {
        program_text(self@, level)
    }

    fn pretty_print(&self, level: usize) -> (r: String) {
        match self {
            AssemblyConstruct::Program(function) => {
                let mut out = function.pretty_print(level);
                out.append(".section .note.GNU-stack,\"\",@progbits\n");
                out
            },
        }
    }
}

impl AssemblyConstruct {
    /// The text of the program, starting at the margin.
    pub fn to_string(&self) -> (r: String)
        ensures
            r@ == program_text(self@, 0),
    {
        self.pretty_print(0)
    }
}

} // verus!
