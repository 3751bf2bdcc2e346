//! Token vocabulary, source abstract syntax tree and assembly abstract syntax
//! tree, together with the mathematical models that the contracts speak of.

use vstd::prelude::*;

verus! {

/// Mathematical model of a token: like `Token`, but the text carried by an
/// identifier or an integer literal is a sequence of characters.
pub enum TokenModel {
    OpenBrace,
    CloseBrace,
    OpenParenthesis,
    CloseParenthesis,
    Semicolon,
    IntKeyword,
    ReturnKeyword,
    VoidKeyword,
    Identifier(Seq<char>),
    IntegerLiteral(Seq<char>),
    Negation,
    BitwiseComplement,
    LogicalNegation,
    Decrement,
}

/// An atomic lexical unit. Identifiers and integer literals carry their exact
/// spelled text; every other token is a bare tag.
#[derive(Debug, Clone)]
pub enum Token {
    OpenBrace,
    CloseBrace,
    OpenParenthesis,
    CloseParenthesis,
    Semicolon,
    IntKeyword,
    ReturnKeyword,
    VoidKeyword,
    Identifier(String),
    IntegerLiteral(String),
    Negation,
    BitwiseComplement,
    LogicalNegation,
    Decrement,
}

impl View for Token {
    type V = TokenModel;

    open spec fn view(&self) -> TokenModel {
        match self {
            Token::OpenBrace => TokenModel::OpenBrace,
            Token::CloseBrace => TokenModel::CloseBrace,
            Token::OpenParenthesis => TokenModel::OpenParenthesis,
            Token::CloseParenthesis => TokenModel::CloseParenthesis,
            Token::Semicolon => TokenModel::Semicolon,
            Token::IntKeyword => TokenModel::IntKeyword,
            Token::ReturnKeyword => TokenModel::ReturnKeyword,
            Token::VoidKeyword => TokenModel::VoidKeyword,
            Token::Identifier(s) => TokenModel::Identifier(s@),
            Token::IntegerLiteral(s) => TokenModel::IntegerLiteral(s@),
            Token::Negation => TokenModel::Negation,
            Token::BitwiseComplement => TokenModel::BitwiseComplement,
            Token::LogicalNegation => TokenModel::LogicalNegation,
            Token::Decrement => TokenModel::Decrement,
        }
    }
}

impl PartialEq for Token {
    fn eq(&self, other: &Token) -> (r: bool) {
        match (self, other) {
            (Token::OpenBrace, Token::OpenBrace) => true,
            (Token::CloseBrace, Token::CloseBrace) => true,
            (Token::OpenParenthesis, Token::OpenParenthesis) => true,
            (Token::CloseParenthesis, Token::CloseParenthesis) => true,
            (Token::Semicolon, Token::Semicolon) => true,
            (Token::IntKeyword, Token::IntKeyword) => true,
            (Token::ReturnKeyword, Token::ReturnKeyword) => true,
            (Token::VoidKeyword, Token::VoidKeyword) => true,
            (Token::Identifier(a), Token::Identifier(b)) => *a == *b,
            (Token::IntegerLiteral(a), Token::IntegerLiteral(b)) => *a == *b,
            (Token::Negation, Token::Negation) => true,
            (Token::BitwiseComplement, Token::BitwiseComplement) => true,
            (Token::LogicalNegation, Token::LogicalNegation) => true,
            (Token::Decrement, Token::Decrement) => true,
            _ => false,
        }
    }
}

impl vstd::std_specs::cmp::PartialEqSpecImpl for Token {
    open spec fn obeys_eq_spec() -> bool {
        true
    }

    open spec fn eq_spec(&self, other: &Token) -> bool {
        self@ == other@
    }
}

/// The model of a token sequence: each token replaced by its model.
pub open spec fn toks_view(ts: Seq<Token>) -> Seq<TokenModel> {
    ts.map_values(|t: Token| t@)
}

pub proof fn lemma_toks_view_push(ts: Seq<Token>, t: Token)
    ensures
        toks_view(ts.push(t)) == toks_view(ts).push(t@),
{
    assert(toks_view(ts.push(t)) =~= toks_view(ts).push(t@));
}

/// A fatal lexical error: a character that no token rule matches.
#[derive(Debug, Clone, Copy, PartialEq, Eq)]
pub enum LexError {
    UnexpectedCharacter(char),
}

/// Mathematical model of a source program.
pub struct ProgramModel {
    pub func: FunDeclModel,
}

pub struct FunDeclModel {
    pub name: Seq<char>,
    pub body: StatementModel,
}

pub enum StatementModel {
    Return(ExpModel),
}

pub enum ExpModel {
    Const(i32),
}

/// A parsed translation unit: exactly one function declaration.
#[derive(Debug)]
pub struct Program {
    pub func: FunDecl,
}

/// A function declaration: a name and a single-statement body.
#[derive(Debug)]
pub struct FunDecl {
    pub name: String,
    pub body: Statement,
}

/// The only statement of the grammar: return an expression.
#[derive(Debug)]
pub enum Statement {
    Return(Exp),
}

/// The only expression of the grammar: a signed 32-bit constant.
#[derive(Debug)]
pub enum Exp {
    Const(i32),
}

impl View for Exp {
    type V = ExpModel;

    open spec fn view(&self) -> ExpModel {
        match self {
            Exp::Const(v) => ExpModel::Const(*v),
        }
    }
}

impl View for Statement {
    type V = StatementModel;

    open spec fn view(&self) -> StatementModel {
        match self {
            Statement::Return(e) => StatementModel::Return(e@),
        }
    }
}

impl View for FunDecl {
    type V = FunDeclModel;

    open spec fn view(&self) -> FunDeclModel {
        FunDeclModel { name: self.name@, body: self.body@ }
    }
}

impl View for Program {
    type V = ProgramModel;

    open spec fn view(&self) -> ProgramModel {
        ProgramModel { func: self.func@ }
    }
}

/// Mathematical model of an assembly program.
pub struct AsmProgramModel {
    pub function: AsmFunctionModel,
}

pub struct AsmFunctionModel {
    pub name: Seq<char>,
    pub instructions: Seq<AsmInstructionModel>,
}

pub enum AsmInstructionModel {
    Mov(AsmOperandModel, AsmOperandModel),
    Ret,
}

pub enum AsmOperandModel {
    Imm(i32),
    Register,
}

/// An assembly program: exactly one assembly function.
#[derive(Debug)]
pub struct AsmProgram {
    pub function: AsmFunction,
}

/// An assembly function: a label name and its instruction sequence.
#[derive(Debug)]
pub struct AsmFunction {
    pub name: String,
    pub instructions: Vec<AsmInstruction>,
}

/// A target instruction: a move between operands, or a return.
#[derive(Debug, Clone, Copy)]
pub enum AsmInstruction {
    Mov(AsmOperand, AsmOperand),
    Ret,
}

/// A target operand: an immediate constant, or the accumulator register.
#[derive(Debug, Clone, Copy)]
pub enum AsmOperand {
    Imm(i32),
    Register,
}

impl View for AsmOperand {
    type V = AsmOperandModel;

    open spec fn view(&self) -> AsmOperandModel {
        match self {
            AsmOperand::Imm(v) => AsmOperandModel::Imm(*v),
            AsmOperand::Register => AsmOperandModel::Register,
        }
    }
}

impl View for AsmInstruction {
    type V = AsmInstructionModel;

    open spec fn view(&self) -> AsmInstructionModel {
        match self {
            AsmInstruction::Mov(src, dst) => AsmInstructionModel::Mov(src@, dst@),
            AsmInstruction::Ret => AsmInstructionModel::Ret,
        }
    }
}

/// The model of an instruction sequence: each instruction replaced by its model.
pub open spec fn insts_view(is: Seq<AsmInstruction>) -> Seq<AsmInstructionModel> {
    is.map_values(|i: AsmInstruction| i@)
}

impl View for AsmFunction {
    type V = AsmFunctionModel;

    open spec fn view(&self) -> AsmFunctionModel {
        AsmFunctionModel { name: self.name@, instructions: insts_view(self.instructions@) }
    }
}

impl View for AsmProgram {
    type V = AsmProgramModel;

    open spec fn view(&self) -> AsmProgramModel {
        AsmProgramModel { function: self.function@ }
    }
}

} // verus!
