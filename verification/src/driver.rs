//! The stages of the compiler, one after the other, and the reading of the
//! command line.
//!
//! [`staged`] states what a source text gives at each stage, and
//! [`process_source`] is proved to compute it. Reading the source and writing
//! the results is left to the caller. [`law_accepted_programs`] states what
//! holds of the code of every program that the compiler accepts, and
//! [`law_accepted_programs_return_their_value`] what running it gives.

use crate::lexer::{lex, token_views, tokenize, Token, TokenView};
use crate::llvm_ir_generator::{
    law_registers_are_numbered, lemma_register_index_of_name, lower_function, numbered_from,
    register_count, LLVMConstruct, LLVMFunctionView,
};
use crate::parser::{parse, parse_tokens, FunctionView, Program};
use crate::semantics::{evaluate, law_compiled_code_computes_the_value, run, Machine, Outcome};
use crate::text::str_equals;
use crate::x86_64_generator::{
    all_encodable, all_free_of_pseudo, all_have_slots, assemble, generate_checked,
    instruction_has_slots, law_legalized_is_encodable, lemma_numbered_has_slots, select_all,
    select_function, AssemblyConstruct, AssemblyFunctionView, FRAME_SIZE,
    MAX_SLOT_INDEX,
};
use vstd::prelude::*;

verus! {

/// The stage after which the compiler stops.
#[derive(Debug, Clone, Copy, PartialEq, Eq, Structural)]
pub enum CompilerStage {
    Lex,
    Parse,
    LLVMGen,
    CodeGen,
    Compile,
}

/// What the compiler has made of a source text when it stops: the tokens,
/// the syntax tree, the linear form, or the assembly.
#[derive(Debug, Clone, PartialEq, Eq)]
pub enum StageOutput {
    Tokens(Vec<Token>),
    Tree(Program),
    LinearForm(LLVMConstruct),
    Assembly(AssemblyConstruct),
}

/// The mathematical model of a [`StageOutput`].
pub enum StageOutputView {
    Tokens(Seq<TokenView>),
    Tree(FunctionView),
    LinearForm(LLVMFunctionView),
    Assembly(AssemblyFunctionView),
}

impl View for StageOutput {
    type V = StageOutputView;

    open spec fn view(&self) -> StageOutputView {
        match self {
            StageOutput::Tokens(tokens) => StageOutputView::Tokens(token_views(tokens@)),
            StageOutput::Tree(program) => StageOutputView::Tree(program@),
            StageOutput::LinearForm(module) => StageOutputView::LinearForm(module@),
            StageOutput::Assembly(program) => StageOutputView::Assembly(program@),
        }
    }
}

//
// The command line
//

/// The stage that an option of the command line asks for.
pub open spec fn stage_of_option(option: Seq<char>) -> Option<CompilerStage> {
    if option == "--lex"@ {
        Some(CompilerStage::Lex)
    } else if option == "--parse"@ {
        Some(CompilerStage::Parse)
    } else if option == "--llvm"@ {
        Some(CompilerStage::LLVMGen)
    } else if option == "--codegen"@ {
        Some(CompilerStage::CodeGen)
    } else {
        None
    }
}

/// The message that says how the program is called.
pub open spec fn usage_message(program: Seq<char>) -> Seq<char> {
    "Usage: "@ + program + " [--lex|--parse|--llvm|--codegen] <input_file>"@
}

/// What the arguments of the command line ask for, the name of the program
/// being the first of them: with one more argument, to compile that file;
/// with two more, an option and a file, to stop after the stage of the
/// option. Anything else is answered by the usage.
pub open spec fn requested(args: Seq<Seq<char>>) -> Result<(CompilerStage, Seq<char>), Seq<char>> {
    if args.len() == 2 {
        Ok((CompilerStage::Compile, args[1]))
    } else if args.len() == 3 {
        match stage_of_option(args[1]) {
            Some(stage) => Ok((stage, args[2])),
            None => Err("Unknown option: "@ + args[1]),
        }
    } else {
        Err(usage_message(args[0]))
    }
}

/// The characters of each argument.
pub open spec fn argument_views(args: Seq<String>) -> Seq<Seq<char>> {
    args.map_values(|s: String| s@)
}

/// Reads the arguments of the command line, the first of which is the name
/// of the program.
pub fn parse_args(args: &[String]) -> (r: Result<(CompilerStage, String), String>)
    requires
        args@.len() > 0,
    ensures
        match requested(argument_views(args@)) {
            Ok((stage, file)) => r matches Ok((s, f)) && s == stage && f@ == file,
            Err(message) => r matches Err(e) && e@ == message,
        },
{
    if args.len() == 2 {
        Ok((CompilerStage::Compile, args[1].clone()))
    } else if args.len() == 3 {
        let option = args[1].as_str();
        let stage = if str_equals(option, "--lex") {
            CompilerStage::Lex
        } else if str_equals(option, "--parse") {
            CompilerStage::Parse
        } else if str_equals(option, "--llvm") {
            CompilerStage::LLVMGen
        } else if str_equals(option, "--codegen") {
            CompilerStage::CodeGen
        } else {
            return Err(String::from_str("Unknown option: ").concat(option));
        };
        Ok((stage, args[2].clone()))
    } else {
        let mut message = String::from_str("Usage: ");
        message.append(args[0].as_str());
        message.append(" [--lex|--parse|--llvm|--codegen] <input_file>");
        Err(message)
    }
}

//
// The stages
//

/// The message for a function of which some register has no slot on the
/// stack.
pub open spec fn too_large_message() -> Seq<char> {
    "Code generation failed: the function is too large for its stack frame"@
}

/// What the source text gives when the compiler stops after `stage`.
///
/// The text is lexed, and the message of a failure is reported as that of
/// lexing. The tokens are parsed, and the message of a failure is reported as
/// that of parsing. The tree is lowered to linear form, which is assembled if
/// all its registers have slots on the stack. The stages `CodeGen` and
/// `Compile` both end with the assembly.
pub open spec fn staged(stage: CompilerStage, source: Seq<char>) -> Result<
    StageOutputView,
    Seq<char>,
> {
    match lex(source) {
        Err(message) => Err("Lexing failed: "@ + message),
        Ok(tokens) => if stage == CompilerStage::Lex {
            Ok(StageOutputView::Tokens(tokens))
        } else {
            match parse_tokens(tokens) {
                Err(message) => Err("Parsing failed: "@ + message),
                Ok(tree) => if stage == CompilerStage::Parse {
                    Ok(StageOutputView::Tree(tree))
                } else if stage == CompilerStage::LLVMGen {
                    Ok(StageOutputView::LinearForm(lower_function(tree)))
                } else if !all_have_slots(select_function(lower_function(tree)).instructions) {
                    Err(too_large_message())
                } else {
                    Ok(StageOutputView::Assembly(assemble(lower_function(tree))))
                },
            }
        },
    }
}

/// The registers of a program all have slots on the stack exactly when there
/// are no more of them than there are slots.
pub proof fn lemma_slots_suffice(tree: FunctionView)
    ensures
        all_have_slots(select_function(lower_function(tree)).instructions) <==> register_count(
            tree.body->Return_0,
        ) <= MAX_SLOT_INDEX + 1,
{
    let e = tree.body->Return_0;
    let count = register_count(e);
    let linear = lower_function(tree);
    law_registers_are_numbered(tree);
    if count <= MAX_SLOT_INDEX + 1 {
        lemma_numbered_has_slots(linear, count);
    }
    if all_have_slots(select_function(linear).instructions) {
        let body = linear.instructions.drop_last();
        let selected = select_function(linear).instructions;
        let at = select_all(body).len() as int;
        lemma_register_index_of_name((count - 1) as nat);
        assert(instruction_has_slots(selected[at]));
    }
}

/// In the code of every program that the compiler accepts, at whatever stage
/// it stops: the registers of the linear form are `%0`, `%1`, ... with no
/// gap, each defined before it is read; and in the assembly no operand is a
/// pseudo-register, no instruction moves from memory to memory, none divides
/// by a number, and none multiplies into memory.
pub proof fn law_accepted_programs(stage: CompilerStage, source: Seq<char>)
    ensures
        staged(stage, source) matches Ok(StageOutputView::LinearForm(linear)) ==> numbered_from(
            linear.instructions,
            0,
        ) is Some,
        staged(stage, source) matches Ok(StageOutputView::Assembly(code)) ==> all_free_of_pseudo(
            code.instructions,
        ) && all_encodable(code.instructions),
{
    if let Ok(tokens) = lex(source) {
        if let Ok(tree) = parse_tokens(tokens) {
            law_registers_are_numbered(tree);
            law_legalized_is_encodable(select_function(lower_function(tree)), FRAME_SIZE);
        }
    }
}

/// The assembly of every program that the compiler accepts returns the value
/// of the expression of the program, on whatever machine it starts; where
/// the expression has no value, because it divides by zero or a quotient
/// does not fit in 32 bits, the assembly faults.
pub proof fn law_accepted_programs_return_their_value(
    stage: CompilerStage,
    source: Seq<char>,
    m: Machine,
)
    ensures
        staged(stage, source) matches Ok(StageOutputView::Assembly(code)) ==> run(
            code.instructions,
            m,
        ) == match evaluate(parse_tokens(lex(source)->Ok_0)->Ok_0.body->Return_0) {
            Some(v) => Outcome::Returned(v),
            None => Outcome::Fault,
        },
{
    if let Ok(tokens) = lex(source) {
        if let Ok(tree) = parse_tokens(tokens) {
            lemma_slots_suffice(tree);
            if all_have_slots(select_function(lower_function(tree)).instructions) {
                law_compiled_code_computes_the_value(tree, m);
            }
        }
    }
}

/// Takes a source text through the stages of the compiler up to `stage`.
///
/// Succeeds exactly when [`staged`] does, with the result that it names, and
/// otherwise fails with its message.
pub fn process_source(stage: CompilerStage, source: &str) -> (r: Result<StageOutput, String>)
    ensures
        match staged(stage, source@) {
            Ok(output) => r matches Ok(o) && o@ == output,
            Err(message) => r matches Err(e) && e@ == message,
        },
{
    let tokens = match tokenize(source) {
        Ok(tokens) => tokens,
        Err(e) => {
            return Err(String::from_str("Lexing failed: ").concat(e.as_str()));
        },
    };
    if stage == CompilerStage::Lex {
        return Ok(StageOutput::Tokens(tokens));
    }
    let tree = match parse(tokens) {
        Ok(tree) => tree,
        Err(e) => {
            return Err(String::from_str("Parsing failed: ").concat(e.as_str()));
        },
    };
    if stage == CompilerStage::Parse {
        return Ok(StageOutput::Tree(tree));
    }
    let linear = match crate::llvm_ir_generator::generate(&tree) {
        Ok(linear) => linear,
        Err(e) => {
            return Err(String::from_str("LLVM IR generation failed: ").concat(e.as_str()));
        },
    };
    if stage == CompilerStage::LLVMGen {
        return Ok(StageOutput::LinearForm(linear));
    }
    match generate_checked(&linear) {
        Some(code) => Ok(StageOutput::Assembly(code)),
        None => Err(
            String::from_str(
                "Code generation failed: the function is too large for its stack frame",
            ),
        ),
    }
}

} // verus!
