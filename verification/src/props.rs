//! The laws that hold across the pipeline stages: every well-formed source
//! text lexes and parses to the expected tree, lexing the canonical text of a
//! token sequence reproduces that sequence, rendering a lowered program has a
//! fixed line shape, the empty input is handled without failure modes other
//! than the documented diagnostics, and trailing tokens are always rejected.

use crate::assembly::{
    body_const, instr_text, instrs_text, int_text, operand_text, spec_generate, spec_render,
};
use crate::ast::{ExpModel, FunDeclModel, LexError, ProgramModel, StatementModel, TokenModel};
use crate::lex::{
    classify_word, digit_run_len, ident_run_len, is_digit_char, is_ident_char,
    is_ident_start_char, is_single_char_token, is_space_char, lex_cons, single_char_token_model,
    spec_lex,
};
use crate::parse::{digits_value, end_of_input_msg, is_valid_i32_literal, spec_parse};
use vstd::prelude::*;

verus! {

/// Lexing a string that begins with a whitespace character just drops it.
proof fn lemma_lex_space(rest: Seq<char>)
    ensures
        spec_lex(seq![' '] + rest) == spec_lex(rest),
{
    let s = seq![' '] + rest;
    assert(s[0] == ' ');
    assert(s.skip(1) =~= rest);
}

/// Lexing a string that begins with a single-character token emits that token.
proof fn lemma_lex_single(c: char, rest: Seq<char>)
    requires
        is_single_char_token(c),
    ensures
        spec_lex(seq![c] + rest) == lex_cons(single_char_token_model(c), spec_lex(rest)),
{
    let s = seq![c] + rest;
    assert(s[0] == c);
    assert(s.skip(1) =~= rest);
}

proof fn lemma_ident_run_len_concat(w: Seq<char>, rest: Seq<char>)
    requires
        forall|q: int| 0 <= q < w.len() ==> is_ident_char(#[trigger] w[q]),
        rest.len() == 0 || !is_ident_char(rest[0]),
    ensures
        ident_run_len(w + rest) == w.len(),
    decreases w.len(),
{
    if w.len() == 0 {
        assert(w + rest =~= rest);
    } else {
        assert((w + rest)[0] == w[0]);
        assert((w + rest).skip(1) =~= w.skip(1) + rest);
        assert(forall|q: int| 0 <= q < w.skip(1).len() ==> is_ident_char(
            #[trigger] w.skip(1)[q],
        ));
        lemma_ident_run_len_concat(w.skip(1), rest);
    }
}

proof fn lemma_digit_run_len_concat(d: Seq<char>, rest: Seq<char>)
    requires
        forall|q: int| 0 <= q < d.len() ==> is_digit_char(#[trigger] d[q]),
        rest.len() == 0 || !is_digit_char(rest[0]),
    ensures
        digit_run_len(d + rest) == d.len(),
    decreases d.len(),
{
    if d.len() == 0 {
        assert(d + rest =~= rest);
    } else {
        assert((d + rest)[0] == d[0]);
        assert((d + rest).skip(1) =~= d.skip(1) + rest);
        assert(forall|q: int| 0 <= q < d.skip(1).len() ==> is_digit_char(
            #[trigger] d.skip(1)[q],
        ));
        lemma_digit_run_len_concat(d.skip(1), rest);
    }
}

/// Lexing a string that begins with a maximal identifier run emits the run's
/// classification.
proof fn lemma_lex_word(w: Seq<char>, rest: Seq<char>)
    requires
        w.len() > 0,
        is_ident_start_char(w[0]),
        forall|q: int| 0 <= q < w.len() ==> is_ident_char(#[trigger] w[q]),
        rest.len() == 0 || !is_ident_char(rest[0]),
    ensures
        spec_lex(w + rest) == lex_cons(classify_word(w), spec_lex(rest)),
{
    let s = w + rest;
    assert(s[0] == w[0]);
    assert(!is_space_char(w[0]) && !is_single_char_token(w[0]) && w[0] != '/' && !is_digit_char(
        w[0],
    ));
    lemma_ident_run_len_concat(w, rest);
    assert(s.take(w.len() as int) =~= w);
    assert(s.skip(w.len() as int) =~= rest);
}

/// Lexing a string that begins with a maximal digit run emits the integer
/// literal holding the run.
proof fn lemma_lex_digits(d: Seq<char>, rest: Seq<char>)
    requires
        d.len() > 0,
        forall|q: int| 0 <= q < d.len() ==> is_digit_char(#[trigger] d[q]),
        rest.len() == 0 || !is_digit_char(rest[0]),
    ensures
        spec_lex(d + rest) == lex_cons(TokenModel::IntegerLiteral(d), spec_lex(rest)),
{
    let s = d + rest;
    assert(s[0] == d[0]);
    assert(!is_space_char(d[0]) && !is_single_char_token(d[0]) && d[0] != '/');
    lemma_digit_run_len_concat(d, rest);
    assert(s.take(d.len() as int) =~= d);
    assert(s.skip(d.len() as int) =~= rest);
}

/// An identifier text as the lexer's own rules delimit it: non-empty, an
/// identifier start followed by identifier characters, and not a keyword.
pub open spec fn is_plain_identifier_text(s: Seq<char>) -> bool {
    &&& s.len() > 0
    &&& is_ident_start_char(s[0])
    &&& forall|q: int| 0 <= q < s.len() ==> is_ident_char(#[trigger] s[q])
    &&& s != "int"@
    &&& s != "return"@
}

/// Every supported program parses to the expected tree.
///
/// For any identifier `id` and any decimal literal that fits a signed 32-bit
/// integer, the source text `int <id>(void){ return <digits>; }` — or the
/// variant with an empty parameter list `()` — lexes successfully, and
/// parsing the resulting tokens yields the program whose function is named
/// `id` and whose body returns exactly the literal's value.
pub proof fn lemma_supported_program_compiles(id: Seq<char>, digits: Seq<char>, with_void: bool)
    requires
        is_plain_identifier_text(id),
        is_valid_i32_literal(digits),
    ensures
        ({
            let params = if with_void {
                "void"@
            } else {
                Seq::<char>::empty()
            };
            let src = "int "@ + id + "("@ + params + "){ return "@ + digits + "; }"@;
            &&& spec_lex(src) matches Ok(ts) && spec_parse(ts) == Ok::<ProgramModel, Seq<char>>(
                ProgramModel {
                    func: FunDeclModel {
                        name: id,
                        body: StatementModel::Return(
                            ExpModel::Const(digits_value(digits) as i32),
                        ),
                    },
                },
            )
        }),
{
    reveal_strlit("int ");
    reveal_strlit("int");
    reveal_strlit("(");
    reveal_strlit("void");
    reveal_strlit("){ return ");
    reveal_strlit("return");
    reveal_strlit("; }");
    let params = if with_void {
        "void"@
    } else {
        Seq::<char>::empty()
    };
    let src = "int "@ + id + "("@ + params + "){ return "@ + digits + "; }"@;
    let s6 = "; }"@;
    let s5 = digits + s6;
    let s4 = "){ return "@ + s5;
    let s3 = params + s4;
    let s2 = "("@ + s3;
    let s1 = id + s2;
    let s0 = "int "@ + s1;
    assert(src =~= s0);

    // `int`, then the space
    assert(s0 =~= "int"@ + (seq![' '] + s1));
    assert(forall|q: int| 0 <= q < "int"@.len() ==> is_ident_char(#[trigger] "int"@[q]));
    lemma_lex_word("int"@, seq![' '] + s1);
    assert(classify_word("int"@) == TokenModel::IntKeyword);
    lemma_lex_space(s1);

    // the identifier, delimited by `(`
    assert(s2[0] == '(');
    lemma_lex_word(id, s2);
    assert(classify_word(id) == TokenModel::Identifier(id));

    // `(`
    assert(s2 =~= seq!['('] + s3);
    lemma_lex_single('(', s3);

    // `void` where present, delimited by `)`
    if with_void {
        assert(s3 =~= "void"@ + s4);
        assert(s4[0] == ')');
        assert(forall|q: int| 0 <= q < "void"@.len() ==> is_ident_char(#[trigger] "void"@[q]));
        lemma_lex_word("void"@, s4);
        assert(classify_word("void"@) == TokenModel::Identifier("void"@));
    } else {
        assert(s3 =~= s4);
    }

    // `){ return `, character by character around the keyword
    let s4c = seq![' '] + s5;
    let s4b = "return"@ + s4c;
    assert(s4 =~= seq![')'] + (seq!['{'] + (seq![' '] + s4b)));
    lemma_lex_single(')', seq!['{'] + (seq![' '] + s4b));
    lemma_lex_single('{', seq![' '] + s4b);
    lemma_lex_space(s4b);
    assert(forall|q: int| 0 <= q < "return"@.len() ==> is_ident_char(#[trigger] "return"@[q]));
    assert(s4c[0] == ' ');
    lemma_lex_word("return"@, s4c);
    assert(classify_word("return"@) == TokenModel::ReturnKeyword);
    lemma_lex_space(s5);

    // the digit run, delimited by `;`
    assert(s6[0] == ';');
    lemma_lex_digits(digits, s6);

    // `; }`
    assert(s6 =~= seq![';'] + (seq![' '] + (seq!['}'] + Seq::<char>::empty())));
    lemma_lex_single(';', seq![' '] + (seq!['}'] + Seq::<char>::empty()));
    lemma_lex_space(seq!['}'] + Seq::<char>::empty());
    lemma_lex_single('}', Seq::<char>::empty());
    assert(spec_lex(Seq::<char>::empty()) == Ok::<Seq<TokenModel>, LexError>(
        Seq::<TokenModel>::empty(),
    ));

    let toks = if with_void {
        seq![
            TokenModel::IntKeyword,
            TokenModel::Identifier(id),
            TokenModel::OpenParenthesis,
            TokenModel::Identifier("void"@),
            TokenModel::CloseParenthesis,
            TokenModel::OpenBrace,
            TokenModel::ReturnKeyword,
            TokenModel::IntegerLiteral(digits),
            TokenModel::Semicolon,
            TokenModel::CloseBrace,
        ]
    } else {
        seq![
            TokenModel::IntKeyword,
            TokenModel::Identifier(id),
            TokenModel::OpenParenthesis,
            TokenModel::CloseParenthesis,
            TokenModel::OpenBrace,
            TokenModel::ReturnKeyword,
            TokenModel::IntegerLiteral(digits),
            TokenModel::Semicolon,
            TokenModel::CloseBrace,
        ]
    };
    assert(spec_lex(src) matches Ok(ts) && ts =~= toks);
    assert(spec_parse(toks) == Ok::<ProgramModel, Seq<char>>(
        ProgramModel {
            func: FunDeclModel {
                name: id,
                body: StatementModel::Return(ExpModel::Const(digits_value(digits) as i32)),
            },
        },
    ));
}

/// The canonical text of one token: the spelling the lexer accepts for it.
pub open spec fn token_text(t: TokenModel) -> Seq<char> {
    match t {
        TokenModel::OpenBrace => seq!['{'],
        TokenModel::CloseBrace => seq!['}'],
        TokenModel::OpenParenthesis => seq!['('],
        TokenModel::CloseParenthesis => seq![')'],
        TokenModel::Semicolon => seq![';'],
        TokenModel::IntKeyword => "int"@,
        TokenModel::ReturnKeyword => "return"@,
        TokenModel::VoidKeyword => "void"@,
        TokenModel::Identifier(s) => s,
        TokenModel::IntegerLiteral(s) => s,
        TokenModel::Negation => seq!['-'],
        TokenModel::BitwiseComplement => seq!['~'],
        TokenModel::LogicalNegation => seq!['!'],
        TokenModel::Decrement => seq!['-', '-'],
    }
}

/// The canonical text of a token sequence: each token's text followed by one
/// space.
pub open spec fn tokens_text(ts: Seq<TokenModel>) -> Seq<char>
    decreases ts.len(),
{
    if ts.len() == 0 {
        Seq::<char>::empty()
    } else {
        token_text(ts[0]) + (seq![' '] + tokens_text(ts.skip(1)))
    }
}

/// A token that the lexer itself can produce: `void` is always lexed as an
/// identifier and `--` as two negations, so those tags are excluded, and the
/// text carried by an identifier or a literal is delimited by the lexer's own
/// rules.
pub open spec fn lexable_token(t: TokenModel) -> bool {
    match t {
        TokenModel::VoidKeyword => false,
        TokenModel::Decrement => false,
        TokenModel::Identifier(s) => is_plain_identifier_text(s),
        TokenModel::IntegerLiteral(s) => s.len() > 0 && forall|q: int|
            0 <= q < s.len() ==> is_digit_char(#[trigger] s[q]),
        _ => true,
    }
}

/// Lexing is idempotent on token boundaries: re-lexing the canonical text of
/// any sequence of lexer-producible tokens reproduces exactly that sequence.
pub proof fn lemma_relex_round_trip(ts: Seq<TokenModel>)
    requires
        forall|q: int| 0 <= q < ts.len() ==> lexable_token(#[trigger] ts[q]),
    ensures
        spec_lex(tokens_text(ts)) == Ok::<Seq<TokenModel>, LexError>(ts),
    decreases ts.len(),
{
    reveal_strlit("int");
    reveal_strlit("return");
    if ts.len() == 0 {
        assert(ts =~= Seq::<TokenModel>::empty());
        assert(tokens_text(ts) =~= Seq::<char>::empty());
    } else {
        let t = ts[0];
        assert(lexable_token(t));
        let tail = ts.skip(1);
        assert(forall|q: int| 0 <= q < tail.len() ==> lexable_token(#[trigger] tail[q]));
        lemma_relex_round_trip(tail);
        let rest = seq![' '] + tokens_text(tail);
        lemma_lex_space(tokens_text(tail));
        match t {
            TokenModel::IntKeyword => {
                assert(forall|q: int| 0 <= q < "int"@.len() ==> is_ident_char(
                    #[trigger] "int"@[q],
                ));
                lemma_lex_word("int"@, rest);
                assert(classify_word("int"@) == t);
            },
            TokenModel::ReturnKeyword => {
                assert(forall|q: int| 0 <= q < "return"@.len() ==> is_ident_char(
                    #[trigger] "return"@[q],
                ));
                lemma_lex_word("return"@, rest);
                assert(classify_word("return"@) == t);
            },
            TokenModel::Identifier(s) => {
                lemma_lex_word(s, rest);
                assert(classify_word(s) == t);
            },
            TokenModel::IntegerLiteral(s) => {
                lemma_lex_digits(s, rest);
            },
            _ => {
                let c = token_text(t)[0];
                assert(token_text(t) =~= seq![c]);
                lemma_lex_single(c, rest);
                assert(single_char_token_model(c) == t);
            },
        }
        assert(seq![t] + tail =~= ts);
    }
}

/// Rendering the lowered form of any program produces exactly the header with
/// the function's name, the line moving the returned constant into the
/// accumulator, the return line, and the trailing stack-note directive — so
/// the text always contains `movl $<value>, %eax` followed by `ret`, and the
/// label line carries the function name.
pub proof fn lemma_render_shape(p: ProgramModel)
    ensures
        spec_render(spec_generate(p)) == " .globl "@ + p.func.name + "\n"@ + p.func.name + ":\n"@
            + "    movl $"@ + int_text(body_const(p) as int) + ", %eax\n"@ + "    ret\n"@
            + "    .section .note.GNU-stack,\"\",@progbits"@,
{
    let is = spec_generate(p).function.instructions;
    let ret_i = crate::ast::AsmInstructionModel::Ret;
    assert(is.skip(1) =~= seq![ret_i]);
    assert(seq![ret_i].skip(1) =~= Seq::<crate::ast::AsmInstructionModel>::empty());
    reveal_strlit("    movl ");
    reveal_strlit("$");
    reveal_strlit("    movl $");
    reveal_strlit(", ");
    reveal_strlit("%eax");
    reveal_strlit(", %eax\n");
    reveal_strlit("\n");
    assert(instrs_text(Seq::<crate::ast::AsmInstructionModel>::empty()) == Seq::<char>::empty());
    assert(instrs_text(seq![ret_i]) =~= instr_text(ret_i));
    assert(instrs_text(is) =~= instr_text(is[0]) + instr_text(ret_i));
    assert(spec_render(spec_generate(p)) =~= " .globl "@ + p.func.name + "\n"@ + p.func.name
        + ":\n"@ + "    movl $"@ + int_text(body_const(p) as int) + ", %eax\n"@ + "    ret\n"@
        + "    .section .note.GNU-stack,\"\",@progbits"@);
}

/// The empty input lexes to the empty token sequence, and parsing the empty
/// token sequence fails with the end-of-input diagnostic.
pub proof fn lemma_empty_input()
    ensures
        spec_lex(Seq::<char>::empty()) == Ok::<Seq<TokenModel>, LexError>(
            Seq::<TokenModel>::empty(),
        ),
        spec_parse(Seq::<TokenModel>::empty()) == Err::<ProgramModel, Seq<char>>(
            end_of_input_msg(TokenModel::IntKeyword),
        ),
{
}

/// Tokens left over after a complete, otherwise-valid function are always
/// rejected: whatever non-empty sequence follows a parseable token sequence,
/// parsing fails with the trailing-tokens diagnostic.
pub proof fn lemma_trailing_tokens_rejected(ts: Seq<TokenModel>, extra: Seq<TokenModel>)
    requires
        spec_parse(ts) is Ok,
        extra.len() > 0,
    ensures
        spec_parse(ts + extra) == Err::<ProgramModel, Seq<char>>(
            "Unexpected tokens after function declaration"@,
        ),
{
    let full = ts + extra;
    assert(forall|k: int| 0 <= k < ts.len() ==> full[k] == ts[k]);
    assert(full.len() == ts.len() + extra.len());
    if ts.len() > 3 && ts[3] == TokenModel::Identifier("void"@) {
        assert(ts.len() == 10);
    } else {
        assert(ts.len() == 9);
    }
}

} // verus!
