//! Recursive-descent parsing: a token sequence to a source abstract syntax
//! tree, or a diagnostic message on the first grammar violation.
//!
//! The grammar is fixed: `int <identifier> ( [void] ) { return <literal> ; }`
//! with nothing allowed after the closing brace. The cursor moves strictly
//! left to right with single-token lookahead and never backtracks.

use crate::ast::{
    toks_view, ExpModel, FunDecl, FunDeclModel, Program, ProgramModel, Statement, StatementModel,
    Exp, Token, TokenModel,
};
use crate::lex::is_digit_char;
use vstd::prelude::*;
use vstd::string::StrSliceExecFns;
use vstd::string::StringExecFns;

verus! {

/// The name under which a token appears in diagnostic messages.
pub open spec fn token_name_view(t: TokenModel) -> Seq<char> {
    match t {
        TokenModel::OpenBrace => "OpenBrace"@,
        TokenModel::CloseBrace => "CloseBrace"@,
        TokenModel::OpenParenthesis => "OpenParenthesis"@,
        TokenModel::CloseParenthesis => "CloseParenthesis"@,
        TokenModel::Semicolon => "Semicolon"@,
        TokenModel::IntKeyword => "IntKeyword"@,
        TokenModel::ReturnKeyword => "ReturnKeyword"@,
        TokenModel::VoidKeyword => "VoidKeyword"@,
        TokenModel::Identifier(s) => "Identifier(\""@ + s + "\")"@,
        TokenModel::IntegerLiteral(s) => "IntegerLiteral(\""@ + s + "\")"@,
        TokenModel::Negation => "Negation"@,
        TokenModel::BitwiseComplement => "BitwiseComplement"@,
        TokenModel::LogicalNegation => "LogicalNegation"@,
        TokenModel::Decrement => "Decrement"@,
    }
}

/// Message for an expected token met by a different one.
pub open spec fn mismatch_msg(expected: TokenModel, found: TokenModel) -> Seq<char> {
    "Expected "@ + token_name_view(expected) + ", found "@ + token_name_view(found)
}

/// Message for an expected token met by the end of the input.
pub open spec fn end_of_input_msg(expected: TokenModel) -> Seq<char> {
    "Expected "@ + token_name_view(expected) + ", but found end of input"@
}

/// Message for an expected identifier met by a different token.
pub open spec fn ident_mismatch_msg(found: TokenModel) -> Seq<char> {
    "Expected identifier, found "@ + token_name_view(found)
}

/// Message for an expected integer literal met by a different token.
pub open spec fn int_mismatch_msg(found: TokenModel) -> Seq<char> {
    "Expected integer literal, found "@ + token_name_view(found)
}

/// The numeric value of a decimal digit character.
pub open spec fn digit_val(c: char) -> int {
    (c as u32) - 48
}

/// The value of a digit string read as a decimal numeral.
pub open spec fn digits_value(s: Seq<char>) -> int
    decreases s.len(),
{
    if s.len() == 0 {
        0
    } else {
        digits_value(s.drop_last()) * 10 + digit_val(s.last())
    }
}

/// A literal text that denotes a signed 32-bit integer: one or more decimal
/// digits whose value fits in `i32`.
pub open spec fn is_valid_i32_literal(s: Seq<char>) -> bool {
    &&& s.len() > 0
    &&& forall|q: int| 0 <= q < s.len() ==> is_digit_char(#[trigger] s[q])
    &&& digits_value(s) <= i32::MAX as int
}

pub proof fn lemma_digits_value_nonneg(s: Seq<char>)
    requires
        forall|q: int| 0 <= q < s.len() ==> is_digit_char(#[trigger] s[q]),
    ensures
        digits_value(s) >= 0,
    decreases s.len(),
{
    if s.len() > 0 {
        assert(forall|q: int| 0 <= q < s.drop_last().len() ==> is_digit_char(
            #[trigger] s.drop_last()[q],
        ));
        lemma_digits_value_nonneg(s.drop_last());
    }
}

pub proof fn lemma_digits_value_take_succ(s: Seq<char>, j: int)
    requires
        0 <= j < s.len(),
    ensures
        digits_value(s.take(j + 1)) == digits_value(s.take(j)) * 10 + digit_val(s[j]),
{
    assert(s.take(j + 1).drop_last() =~= s.take(j));
    assert(s.take(j + 1).last() == s[j]);
}

/// A longer prefix of a digit string never has a smaller value.
pub proof fn lemma_digits_value_take_le(s: Seq<char>, j: int)
    requires
        0 <= j <= s.len(),
        forall|q: int| 0 <= q < s.len() ==> is_digit_char(#[trigger] s[q]),
    ensures
        digits_value(s.take(j)) <= digits_value(s),
    decreases s.len() - j,
{
    if j == s.len() {
        assert(s.take(j) =~= s);
    } else {
        lemma_digits_value_take_succ(s, j);
        assert(forall|q: int| 0 <= q < s.take(j).len() ==> is_digit_char(
            #[trigger] s.take(j)[q],
        ));
        lemma_digits_value_nonneg(s.take(j));
        lemma_digits_value_take_le(s, j + 1);
    }
}

/// Reads a digit string as a signed 32-bit integer; reports nothing where the
/// text is not a digit run or its value overflows.
fn parse_i32_digits(s: &str) -> (r: Option<i32>)
    ensures
        match r {
            Some(v) => is_valid_i32_literal(s@) && v as int == digits_value(s@),
            None => !is_valid_i32_literal(s@),
        },
{
    let n = s.unicode_len();
    if n == 0 {
        return None;
    }
    let mut acc: u64 = 0;
    let mut k: usize = 0;
    proof {
        assert(s@.take(0) =~= Seq::<char>::empty());
    }
    while k < n
        invariant
            k <= n,
            n == s@.len(),
            forall|q: int| 0 <= q < k ==> is_digit_char(#[trigger] s@[q]),
            acc as int == digits_value(s@.take(k as int)),
            acc <= 0x7fff_ffff,
        decreases n - k,
    {
        let c = s.get_char(k);
        if !(c >= '0' && c <= '9') {
            return None;
        }
        let d: u64 = ((c as u32) - 48) as u64;
        let next: u64 = acc * 10 + d;
        proof {
            lemma_digits_value_take_succ(s@, k as int);
        }
        if next > 0x7fff_ffff {
            proof {
                if forall|q: int| 0 <= q < s@.len() ==> is_digit_char(#[trigger] s@[q]) {
                    lemma_digits_value_take_le(s@, k as int + 1);
                }
            }
            return None;
        }
        acc = next;
        k = k + 1;
    }
    proof {
        assert(s@.take(n as int) =~= s@);
    }
    Some(acc as i32)
}

/// Checks that the cursor stands on the expected token and consumes it;
/// otherwise reports the expected and found tokens and leaves the cursor.
pub fn expect_token(tokens: &Vec<Token>, pos: &mut usize, expected: Token) -> (r: Result<
    (),
    String,
>)
    ensures
        ({
            let ts = toks_view(tokens@);
            let p = *old(pos) as int;
            if p < ts.len() {
                if ts[p] == expected@ {
                    r is Ok && *final(pos) == *old(pos) + 1
                } else {
                    r matches Err(m) && m@ == mismatch_msg(expected@, ts[p])
                        && *final(pos) == *old(pos)
                }
            } else {
                r matches Err(m) && m@ == end_of_input_msg(expected@) && *final(pos) == *old(pos)
            }
        }),
{
    if *pos < tokens.len() {
        let t = &tokens[*pos];
        if *t == expected {
            *pos = *pos + 1;
            Ok(())
        } else {
            Err(msg_mismatch(&expected, t))
        }
    } else {
        Err(msg_end_of_input(&expected))
    }
}

/// Consumes the next token if it is an identifier and returns its name;
/// otherwise reports what was found instead.
pub fn expect_identifier(tokens: &Vec<Token>, pos: &mut usize) -> (r: Result<String, String>)
    ensures
        ({
            let ts = toks_view(tokens@);
            let p = *old(pos) as int;
            if p < ts.len() {
                (match ts[p] {
                    TokenModel::Identifier(name) => r matches Ok(s) && s@ == name,
                    _ => r matches Err(m) && m@ == ident_mismatch_msg(ts[p]),
                }) && *final(pos) == *old(pos) + 1
            } else {
                r matches Err(m) && m@ == "Expected identifier, but found end of input"@
                    && *final(pos) == *old(pos)
            }
        }),
{
    if *pos < tokens.len() {
        let t = &tokens[*pos];
        *pos = *pos + 1;
        match t {
            Token::Identifier(name) => Ok(name.clone()),
            _ => {
                let mut m = String::from_str("Expected identifier, found ");
                let tn = token_name(t);
                m.append(tn.as_str());
                Err(m)
            },
        }
    } else {
        Err(String::from_str("Expected identifier, but found end of input"))
    }
}

/// Consumes the next token if it is an integer literal and reads its digit
/// text as a signed 32-bit integer; otherwise reports what was found instead.
pub fn expect_integer_literal(tokens: &Vec<Token>, pos: &mut usize) -> (r: Result<i32, String>)
    ensures
        ({
            let ts = toks_view(tokens@);
            let p = *old(pos) as int;
            if p < ts.len() {
                (match ts[p] {
                    TokenModel::IntegerLiteral(txt) => if is_valid_i32_literal(txt) {
                        r matches Ok(v) && v as int == digits_value(txt)
                    } else {
                        r matches Err(m) && m@ == "Invalid integer literal"@
                    },
                    _ => r matches Err(m) && m@ == int_mismatch_msg(ts[p]),
                }) && *final(pos) == *old(pos) + 1
            } else {
                r matches Err(m) && m@ == "Expected integer literal, but found end of input"@
                    && *final(pos) == *old(pos)
            }
        }),
{
    if *pos < tokens.len() {
        let t = &tokens[*pos];
        *pos = *pos + 1;
        match t {
            Token::IntegerLiteral(text) => match parse_i32_digits(text.as_str()) {
                Some(v) => Ok(v),
                None => Err(String::from_str("Invalid integer literal")),
            },
            _ => {
                let mut m = String::from_str("Expected integer literal, found ");
                let tn = token_name(t);
                m.append(tn.as_str());
                Err(m)
            },
        }
    } else {
        Err(String::from_str("Expected integer literal, but found end of input"))
    }
}

/// The executable companion of `token_name_view`.
pub fn token_name(t: &Token) -> (r: String)
    ensures
        r@ == token_name_view(t@),
{
    match t {
        Token::OpenBrace => String::from_str("OpenBrace"),
        Token::CloseBrace => String::from_str("CloseBrace"),
        Token::OpenParenthesis => String::from_str("OpenParenthesis"),
        Token::CloseParenthesis => String::from_str("CloseParenthesis"),
        Token::Semicolon => String::from_str("Semicolon"),
        Token::IntKeyword => String::from_str("IntKeyword"),
        Token::ReturnKeyword => String::from_str("ReturnKeyword"),
        Token::VoidKeyword => String::from_str("VoidKeyword"),
        Token::Identifier(s) => {
            let mut r = String::from_str("Identifier(\"");
            r.append(s.as_str());
            r.append("\")");
            r
        },
        Token::IntegerLiteral(s) => {
            let mut r = String::from_str("IntegerLiteral(\"");
            r.append(s.as_str());
            r.append("\")");
            r
        },
        Token::Negation => String::from_str("Negation"),
        Token::BitwiseComplement => String::from_str("BitwiseComplement"),
        Token::LogicalNegation => String::from_str("LogicalNegation"),
        Token::Decrement => String::from_str("Decrement"),
    }
}

fn msg_mismatch(expected: &Token, found: &Token) -> (r: String)
    ensures
        r@ == mismatch_msg(expected@, found@),
{
    let mut r = String::from_str("Expected ");
    let en = token_name(expected);
    r.append(en.as_str());
    r.append(", found ");
    let fo = token_name(found);
    r.append(fo.as_str());
    r
}

fn msg_end_of_input(expected: &Token) -> (r: String)
    ensures
        r@ == end_of_input_msg(expected@),
{
    let mut r = String::from_str("Expected ");
    let en = token_name(expected);
    r.append(en.as_str());
    r.append(", but found end of input");
    r
}

/// The parsing function over token models, step for step the grammar of a
/// translation unit. This is the specification that `parse` is proved to
/// implement.
pub open spec fn spec_parse(ts: Seq<TokenModel>) -> Result<ProgramModel, Seq<char>> {
    if ts.len() <= 0 {
        Err(end_of_input_msg(TokenModel::IntKeyword))
    } else if ts[0] != TokenModel::IntKeyword {
        Err(mismatch_msg(TokenModel::IntKeyword, ts[0]))
    } else if ts.len() <= 1 {
        Err("Expected identifier, but found end of input"@)
    } else {
        match ts[1] {
            TokenModel::Identifier(name) => spec_parse_after_name(ts, name),
            _ => Err(ident_mismatch_msg(ts[1])),
        }
    }
}

/// Parsing once the function name is known: the parameter list, which is
/// either `(void)` or `()`.
pub open spec fn spec_parse_after_name(ts: Seq<TokenModel>, name: Seq<char>) -> Result<
    ProgramModel,
    Seq<char>,
> {
    if ts.len() <= 2 {
        Err(end_of_input_msg(TokenModel::OpenParenthesis))
    } else if ts[2] != TokenModel::OpenParenthesis {
        Err(mismatch_msg(TokenModel::OpenParenthesis, ts[2]))
    } else if ts.len() > 3 && ts[3] == TokenModel::Identifier("void"@) {
        spec_parse_after_params(ts, name, 4)
    } else if ts.len() > 3 && ts[3] == TokenModel::CloseParenthesis {
        spec_parse_after_params(ts, name, 3)
    } else {
        Err("Expected 'void' or ')' after '('"@)
    }
}

/// Parsing once the parameter list is consumed: `) { return <literal>`,
/// with the cursor standing on the closing parenthesis.
pub open spec fn spec_parse_after_params(ts: Seq<TokenModel>, name: Seq<char>, j: int) -> Result<
    ProgramModel,
    Seq<char>,
> {
    if ts.len() <= j {
        Err(end_of_input_msg(TokenModel::CloseParenthesis))
    } else if ts[j] != TokenModel::CloseParenthesis {
        Err(mismatch_msg(TokenModel::CloseParenthesis, ts[j]))
    } else if ts.len() <= j + 1 {
        Err(end_of_input_msg(TokenModel::OpenBrace))
    } else if ts[j + 1] != TokenModel::OpenBrace {
        Err(mismatch_msg(TokenModel::OpenBrace, ts[j + 1]))
    } else if ts.len() <= j + 2 {
        Err(end_of_input_msg(TokenModel::ReturnKeyword))
    } else if ts[j + 2] != TokenModel::ReturnKeyword {
        Err(mismatch_msg(TokenModel::ReturnKeyword, ts[j + 2]))
    } else if ts.len() <= j + 3 {
        Err("Expected integer literal, but found end of input"@)
    } else {
        match ts[j + 3] {
            TokenModel::IntegerLiteral(txt) => if is_valid_i32_literal(txt) {
                spec_parse_after_value(ts, name, digits_value(txt) as i32, j + 4)
            } else {
                Err("Invalid integer literal"@)
            },
            _ => Err(int_mismatch_msg(ts[j + 3])),
        }
    }
}

/// Parsing once the returned constant is known: `; }` and then nothing.
pub open spec fn spec_parse_after_value(
    ts: Seq<TokenModel>,
    name: Seq<char>,
    value: i32,
    j: int,
) -> Result<ProgramModel, Seq<char>> {
    if ts.len() <= j {
        Err(end_of_input_msg(TokenModel::Semicolon))
    } else if ts[j] != TokenModel::Semicolon {
        Err(mismatch_msg(TokenModel::Semicolon, ts[j]))
    } else if ts.len() <= j + 1 {
        Err(end_of_input_msg(TokenModel::CloseBrace))
    } else if ts[j + 1] != TokenModel::CloseBrace {
        Err(mismatch_msg(TokenModel::CloseBrace, ts[j + 1]))
    } else if ts.len() > j + 2 {
        Err("Unexpected tokens after function declaration"@)
    } else {
        Ok(
            ProgramModel {
                func: FunDeclModel { name, body: StatementModel::Return(ExpModel::Const(value)) },
            },
        )
    }
}

fn is_void_identifier(t: &Token) -> (b: bool)
    ensures
        b == (t@ == TokenModel::Identifier("void"@)),
{
    match t {
        Token::Identifier(s) => {
            let v = String::from_str("void");
            *s == v
        },
        _ => false,
    }
}

fn is_close_paren(t: &Token) -> (b: bool)
    ensures
        b == (t@ == TokenModel::CloseParenthesis),
{
    match t {
        Token::CloseParenthesis => true,
        _ => false,
    }
}

/// Parses a token sequence into a program, or reports the first grammar
/// violation as a message.
pub fn parse(tokens: Vec<Token>) -> (r: Result<Program, String>)
    ensures
        ({
            let sp = spec_parse(toks_view(tokens@));
            match r {
                Ok(p) => sp matches Ok(pm) && pm == p@,
                Err(m) => sp matches Err(em) && em == m@,
            }
        }),
{
    let mut pos: usize = 0;
    match expect_token(&tokens, &mut pos, Token::IntKeyword) {
        Ok(_) => {},
        Err(e) => {
            return Err(e);
        },
    }
    let identifier = match expect_identifier(&tokens, &mut pos) {
        Ok(s) => s,
        Err(e) => {
            return Err(e);
        },
    };
    match expect_token(&tokens, &mut pos, Token::OpenParenthesis) {
        Ok(_) => {},
        Err(e) => {
            return Err(e);
        },
    }
    if pos < tokens.len() && is_void_identifier(&tokens[pos]) {
        pos = pos + 1;  // the parameter list is empty-by-void
    } else if pos < tokens.len() && is_close_paren(&tokens[pos]) {
        // empty parameter list: the parenthesis is consumed below
    } else {
        return Err(String::from_str("Expected 'void' or ')' after '('"));
    }
    match expect_token(&tokens, &mut pos, Token::CloseParenthesis) {
        Ok(_) => {},
        Err(e) => {
            return Err(e);
        },
    }
    match expect_token(&tokens, &mut pos, Token::OpenBrace) {
        Ok(_) => {},
        Err(e) => {
            return Err(e);
        },
    }
    match expect_token(&tokens, &mut pos, Token::ReturnKeyword) {
        Ok(_) => {},
        Err(e) => {
            return Err(e);
        },
    }
    let integer = match expect_integer_literal(&tokens, &mut pos) {
        Ok(v) => v,
        Err(e) => {
            return Err(e);
        },
    };
    match expect_token(&tokens, &mut pos, Token::Semicolon) {
        Ok(_) => {},
        Err(e) => {
            return Err(e);
        },
    }
    match expect_token(&tokens, &mut pos, Token::CloseBrace) {
        Ok(_) => {},
        Err(e) => {
            return Err(e);
        },
    }
    if pos < tokens.len() {
        return Err(String::from_str("Unexpected tokens after function declaration"));
    }
    Ok(Program { func: FunDecl { name: identifier, body: Statement::Return(Exp::Const(integer)) } })
}

} // verus!
