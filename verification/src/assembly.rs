//! Lowering of the source tree to a target-instruction tree, and rendering of
//! that tree as textual assembly.
//!
//! A program whose body returns a constant `v` lowers to exactly two
//! instructions: a move of the immediate `v` into the accumulator register,
//! then a return. Rendering is deterministic and line oriented: a
//! global-symbol directive and a label, one line per instruction, and a fixed
//! trailing stack-note directive.

use crate::ast::{
    insts_view, AsmFunction, AsmFunctionModel, AsmInstruction, AsmInstructionModel, AsmOperand,
    AsmOperandModel, AsmProgram, AsmProgramModel, Exp, ExpModel, Program, ProgramModel, Statement,
    StatementModel,
};
use vstd::prelude::*;
use vstd::string::StringExecFns;

verus! {

/// The constant returned by the program's single statement.
pub open spec fn body_const(p: ProgramModel) -> i32 {
    match p.func.body {
        StatementModel::Return(ExpModel::Const(v)) => v,
    }
}

/// The lowering function: the instruction sequence is always a move of the
/// returned constant into the register, then a return.
pub open spec fn spec_generate(p: ProgramModel) -> AsmProgramModel {
    AsmProgramModel {
        function: AsmFunctionModel {
            name: p.func.name,
            instructions: seq![
                AsmInstructionModel::Mov(
                    AsmOperandModel::Imm(body_const(p)),
                    AsmOperandModel::Register,
                ),
                AsmInstructionModel::Ret,
            ],
        },
    }
}

/// Lowers a source tree to an assembly tree. Every well-formed program lowers
/// successfully; the error paths guard the tree shapes that the present
/// grammar cannot produce.
pub fn generate_assembly(ast: Program) -> (r: Result<AsmProgram, String>)
    ensures
        r matches Ok(rendered) && rendered@ == spec_generate(ast@),
{
    let mut instructions: Vec<AsmInstruction> = Vec::new();
    match ast.func.body {
        Statement::Return(exp) => {
            let operand = match generate_operand(exp) {
                Ok(op) => op,
                Err(e) => {
                    return Err(e);
                },
            };
            instructions.push(AsmInstruction::Mov(operand, AsmOperand::Register));
            instructions.push(AsmInstruction::Ret);
        },
    }
    proof {
        assert(insts_view(instructions@) =~= spec_generate(ast@).function.instructions);
    }
    Ok(AsmProgram { function: AsmFunction { name: ast.func.name, instructions } })
}

/// Lowers an expression to an operand: a constant becomes an immediate. Every
/// expression of the present grammar lowers successfully.
fn generate_operand(exp: Exp) -> (r: Result<AsmOperand, String>)
    ensures
        r matches Ok(op) && op@ == (match exp@ {
            ExpModel::Const(v) => AsmOperandModel::Imm(v),
        }),
{
    match exp {
        Exp::Const(value) => Ok(AsmOperand::Imm(value)),
    }
}

/// The decimal digit character for a value between 0 and 9.
pub open spec fn digit_char(d: int) -> char {
    if d == 0 {
        '0'
    } else if d == 1 {
        '1'
    } else if d == 2 {
        '2'
    } else if d == 3 {
        '3'
    } else if d == 4 {
        '4'
    } else if d == 5 {
        '5'
    } else if d == 6 {
        '6'
    } else if d == 7 {
        '7'
    } else if d == 8 {
        '8'
    } else {
        '9'
    }
}

/// The decimal digit string of a non-negative value.
pub open spec fn dec_digits_text(n: int) -> Seq<char>
    decreases n,
{
    if n < 10 {
        seq![digit_char(n)]
    } else {
        dec_digits_text(n / 10) + seq![digit_char(n % 10)]
    }
}

/// The decimal text of a signed value: a minus sign before the digit string
/// where the value is negative.
pub open spec fn int_text(v: int) -> Seq<char> {
    if v < 0 {
        seq!['-'] + dec_digits_text(-v)
    } else {
        dec_digits_text(v)
    }
}

/// The text of an operand: `$<decimal>` for an immediate, the accumulator
/// register name otherwise.
pub open spec fn operand_text(op: AsmOperandModel) -> Seq<char> {
    match op {
        AsmOperandModel::Imm(v) => "$"@ + int_text(v as int),
        AsmOperandModel::Register => "%eax"@,
    }
}

/// The line of one instruction, indentation and newline included.
pub open spec fn instr_text(i: AsmInstructionModel) -> Seq<char> {
    match i {
        AsmInstructionModel::Mov(src, dst) => "    movl "@ + operand_text(src) + ", "@
            + operand_text(dst) + "\n"@,
        AsmInstructionModel::Ret => "    ret\n"@,
    }
}

/// The lines of an instruction sequence, in order.
pub open spec fn instrs_text(is: Seq<AsmInstructionModel>) -> Seq<char>
    decreases is.len(),
{
    if is.len() == 0 {
        Seq::<char>::empty()
    } else {
        instr_text(is[0]) + instrs_text(is.skip(1))
    }
}

/// The rendering function: header, one line per instruction, trailer. This is
/// the specification that `assembly_to_string` is proved to implement.
pub open spec fn spec_render(p: AsmProgramModel) -> Seq<char> {
    " .globl "@ + p.function.name + "\n"@ + p.function.name + ":\n"@ + instrs_text(
        p.function.instructions,
    ) + "    .section .note.GNU-stack,\"\",@progbits"@
}

pub proof fn lemma_instrs_text_snoc(is: Seq<AsmInstructionModel>, k: int)
    requires
        0 <= k < is.len(),
    ensures
        instrs_text(is.take(k + 1)) == instrs_text(is.take(k)) + instr_text(is[k]),
    decreases k,
{
    if k == 0 {
        assert(is.take(1) =~= seq![is[0]]);
        assert(is.take(1).skip(1) =~= Seq::<AsmInstructionModel>::empty());
        assert(is.take(0) =~= Seq::<AsmInstructionModel>::empty());
        assert(instr_text(is[0]) + Seq::<char>::empty() =~= instr_text(is[0]));
        assert(Seq::<char>::empty() + instr_text(is[0]) =~= instr_text(is[0]));
    } else {
        assert(is.take(k + 1).skip(1) =~= is.skip(1).take(k));
        assert(is.take(k).skip(1) =~= is.skip(1).take(k - 1));
        lemma_instrs_text_snoc(is.skip(1), k - 1);
        assert(instr_text(is[0]) + (instrs_text(is.skip(1).take(k - 1)) + instr_text(is[k]))
            =~= (instr_text(is[0]) + instrs_text(is.skip(1).take(k - 1))) + instr_text(is[k]));
    }
}

/// The executable companion of `digit_char`: the one-character text of a
/// decimal digit.
fn digit_str(d: u32) -> (r: &'static str)
    requires
        d < 10,
    ensures
        r@ == seq![digit_char(d as int)],
{
    proof {
        reveal_strlit("0");
        reveal_strlit("1");
        reveal_strlit("2");
        reveal_strlit("3");
        reveal_strlit("4");
        reveal_strlit("5");
        reveal_strlit("6");
        reveal_strlit("7");
        reveal_strlit("8");
        reveal_strlit("9");
    }
    if d == 0 {
        proof {
            assert("0"@ =~= seq![digit_char(0)]);
        }
        "0"
    } else if d == 1 {
        proof {
            assert("1"@ =~= seq![digit_char(1)]);
        }
        "1"
    } else if d == 2 {
        proof {
            assert("2"@ =~= seq![digit_char(2)]);
        }
        "2"
    } else if d == 3 {
        proof {
            assert("3"@ =~= seq![digit_char(3)]);
        }
        "3"
    } else if d == 4 {
        proof {
            assert("4"@ =~= seq![digit_char(4)]);
        }
        "4"
    } else if d == 5 {
        proof {
            assert("5"@ =~= seq![digit_char(5)]);
        }
        "5"
    } else if d == 6 {
        proof {
            assert("6"@ =~= seq![digit_char(6)]);
        }
        "6"
    } else if d == 7 {
        proof {
            assert("7"@ =~= seq![digit_char(7)]);
        }
        "7"
    } else if d == 8 {
        proof {
            assert("8"@ =~= seq![digit_char(8)]);
        }
        "8"
    } else {
        proof {
            assert("9"@ =~= seq![digit_char(9)]);
        }
        "9"
    }
}

/// Appends the decimal digit string of `n` to `out`.
fn append_u32_decimal(out: &mut String, n: u32)
    ensures
        final(out)@ == old(out)@ + dec_digits_text(n as int),
    decreases n,
{
    if n < 10 {
        out.append(digit_str(n));
    } else {
        append_u32_decimal(out, n / 10);
        out.append(digit_str(n % 10));
        proof {
            assert((old(out)@ + dec_digits_text(n as int / 10)) + seq![digit_char(n as int % 10)]
                =~= old(out)@ + dec_digits_text(n as int));
        }
    }
}

/// Renders one operand: the executable companion of `operand_text`.
fn operand_to_str(operand: AsmOperand) -> (r: String)
    ensures
        r@ == operand_text(operand@),
{
    match operand {
        AsmOperand::Imm(value) => {
            let mut r = String::from_str("$");
            if value < 0 {
                r.append("-");
                let wide: i64 = -(value as i64);
                proof {
                    assert(0 < wide <= 0x8000_0000i64);
                }
                append_u32_decimal(&mut r, wide as u32);
                proof {
                    reveal_strlit("-");
                    assert("-"@ =~= seq!['-']);
                    assert(("$"@ + "-"@) + dec_digits_text(wide as int) =~= "$"@ + (seq!['-']
                        + dec_digits_text(-(value as int))));
                }
            } else {
                append_u32_decimal(&mut r, value as u32);
            }
            r
        },
        AsmOperand::Register => String::from_str("%eax"),
    }
}

/// Renders an assembly tree as textual assembly, exactly as `spec_render`
/// describes it.
pub fn assembly_to_string(assembly: AsmProgram) -> (r: String)
    ensures
        r@ == spec_render(assembly@),
{
    let mut rendered = String::from_str(" .globl ");
    rendered.append(assembly.function.name.as_str());
    rendered.append("\n");
    rendered.append(assembly.function.name.as_str());
    rendered.append(":\n");
    let ghost header = rendered@;
    let n = assembly.function.instructions.len();
    let mut idx: usize = 0;
    proof {
        assert(insts_view(assembly.function.instructions@).take(0)
            =~= Seq::<AsmInstructionModel>::empty());
        assert(header + Seq::<char>::empty() =~= header);
    }
    while idx < n
        invariant
            idx <= n,
            n == assembly.function.instructions.len(),
            rendered@ == header + instrs_text(insts_view(assembly.function.instructions@).take(
                idx as int,
            )),
        decreases n - idx,
    {
        let ghost models = insts_view(assembly.function.instructions@);
        let inst = assembly.function.instructions[idx];
        match inst {
            AsmInstruction::Mov(src, dst) => {
                rendered.append("    movl ");
                let src_text = operand_to_str(src);
                rendered.append(src_text.as_str());
                rendered.append(", ");
                let dst_text = operand_to_str(dst);
                rendered.append(dst_text.as_str());
                rendered.append("\n");
                proof {
                    assert(rendered@ =~= (header + instrs_text(models.take(idx as int))) + instr_text(
                        models[idx as int],
                    ));
                }
            },
            AsmInstruction::Ret => {
                rendered.append("    ret\n");
                proof {
                    assert(rendered@ =~= (header + instrs_text(models.take(idx as int))) + instr_text(
                        models[idx as int],
                    ));
                }
            },
        }
        proof {
            lemma_instrs_text_snoc(models, idx as int);
            assert(rendered@ =~= header + instrs_text(models.take(idx as int + 1)));
        }
        idx = idx + 1;
    }
    rendered.append("    .section .note.GNU-stack,\"\",@progbits");
    proof {
        let models = insts_view(assembly.function.instructions@);
        assert(models.take(n as int) =~= models);
        assert(rendered@ =~= spec_render(assembly@));
    }
    rendered
}

} // verus!
