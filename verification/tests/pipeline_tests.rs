use minicc::assembly::{assembly_to_string, generate_assembly};
use minicc::ast::{
    AsmFunction, AsmInstruction, AsmOperand, AsmProgram, Exp, Statement, Token,
};
use minicc::lex::lex;
use minicc::parse::parse;

#[test]
fn test_full_pipeline_on_void_program() {
    let source = "int main(void) { return 42; }";
    let tokens = lex(source).unwrap();
    let expected = vec![
        Token::IntKeyword,
        Token::Identifier("main".to_string()),
        Token::OpenParenthesis,
        Token::Identifier("void".to_string()),
        Token::CloseParenthesis,
        Token::OpenBrace,
        Token::ReturnKeyword,
        Token::IntegerLiteral("42".to_string()),
        Token::Semicolon,
        Token::CloseBrace,
    ];
    assert_eq!(tokens, expected);

    let program = parse(tokens).unwrap();
    assert_eq!(program.func.name, "main");
    let Statement::Return(Exp::Const(value)) = program.func.body;
    assert_eq!(value, 42);

    let asm_program = generate_assembly(program).unwrap();
    let text = assembly_to_string(asm_program);
    assert!(text.contains(".globl main"));
    assert!(text.contains("main:"));
    assert!(text.contains("movl $42, %eax"));
    assert!(text.contains("ret"));
}

#[test]
fn test_rendered_assembly_exact_text() {
    let source = "int main(void) { return 42; }";
    let program = parse(lex(source).unwrap()).unwrap();
    let text = assembly_to_string(generate_assembly(program).unwrap());
    assert_eq!(
        text,
        " .globl main\nmain:\n    movl $42, %eax\n    ret\n    .section .note.GNU-stack,\"\",@progbits"
    );
}

#[test]
fn test_move_line_follows_label_and_precedes_ret() {
    let source = "int answer() { return 7; }";
    let program = parse(lex(source).unwrap()).unwrap();
    let text = assembly_to_string(generate_assembly(program).unwrap());
    let label = text.find("answer:\n").unwrap();
    let mov = text.find("    movl $7, %eax\n").unwrap();
    let ret = text.find("    ret\n").unwrap();
    assert!(label < mov && mov < ret);
}

#[test]
fn test_negative_immediate_renders_with_sign() {
    let program = AsmProgram {
        function: AsmFunction {
            name: "f".to_string(),
            instructions: vec![
                AsmInstruction::Mov(AsmOperand::Imm(-42), AsmOperand::Register),
                AsmInstruction::Ret,
            ],
        },
    };
    let text = assembly_to_string(program);
    assert!(text.contains("movl $-42, %eax"));
}

#[test]
fn test_minimal_immediate_renders_full_value() {
    let program = AsmProgram {
        function: AsmFunction {
            name: "f".to_string(),
            instructions: vec![
                AsmInstruction::Mov(AsmOperand::Imm(i32::MIN), AsmOperand::Register),
                AsmInstruction::Ret,
            ],
        },
    };
    let text = assembly_to_string(program);
    assert!(text.contains("movl $-2147483648, %eax"));
}

#[test]
fn test_zero_and_multi_digit_immediates() {
    let zero = parse(lex("int z(void) { return 0; }").unwrap()).unwrap();
    let text = assembly_to_string(generate_assembly(zero).unwrap());
    assert!(text.contains("movl $0, %eax"));

    let ten = parse(lex("int t(void) { return 1048576; }").unwrap()).unwrap();
    let text = assembly_to_string(generate_assembly(ten).unwrap());
    assert!(text.contains("movl $1048576, %eax"));
}

#[test]
fn test_relexing_token_text_reproduces_tokens() {
    let source = "int main ( void ) { return 42 ; }";
    let first = lex(source).unwrap();
    let rendered: Vec<String> = first
        .iter()
        .map(|t| match t {
            Token::OpenBrace => "{".to_string(),
            Token::CloseBrace => "}".to_string(),
            Token::OpenParenthesis => "(".to_string(),
            Token::CloseParenthesis => ")".to_string(),
            Token::Semicolon => ";".to_string(),
            Token::IntKeyword => "int".to_string(),
            Token::ReturnKeyword => "return".to_string(),
            Token::Identifier(s) => s.clone(),
            Token::IntegerLiteral(s) => s.clone(),
            Token::Negation => "-".to_string(),
            Token::BitwiseComplement => "~".to_string(),
            Token::LogicalNegation => "!".to_string(),
            _ => unreachable!(),
        })
        .collect();
    let again = lex(&rendered.join(" ")).unwrap();
    assert_eq!(first, again);
}

#[test]
fn test_empty_input_lexes_then_fails_parsing() {
    let tokens = lex("").unwrap();
    assert!(tokens.is_empty());
    let result = parse(tokens);
    assert_eq!(
        result.unwrap_err(),
        "Expected IntKeyword, but found end of input"
    );
}

#[test]
fn test_trailing_semicolon_after_function_is_rejected() {
    let source = "int main(void) { return 42; };";
    let result = parse(lex(source).unwrap());
    assert_eq!(
        result.unwrap_err(),
        "Unexpected tokens after function declaration"
    );
}
