//! The parser: recursive descent with precedence climbing (Pratt).
//!
//! Parsing is specified by the fueled `sp_parse_*` functions below: pure
//! functions of the token sequence, a cursor/diagnostics state, and a
//! fuel bound; each exec method is proved to produce exactly the state
//! and AST its spec twin gives at the fuel the entry points compute from
//! the input length. The fuel is generous enough that real inputs never
//! exhaust it; if one did, parsing would stop early and gracefully, never
//! looping or panicking.
//!
//! A failing sub-construct appends a diagnostic of the form
//! `expected next token to be X, got Y` (or a parameter-list diagnostic)
//! and yields absence, letting the caller skip forward and keep parsing.

use vstd::prelude::*;
use vstd::string::StringExecFns;
use crate::token::{Token, TokenV};
use crate::lexer::{Lexer, tokenize, spec_tokens_from, str_eq};
use crate::ast::{
    Expression, Statement, Literal, Ident, Prefix, Infix, Precedence, Program, ExprV, StmtV,
    LitV, expr_v, stmt_v, exprs_v, stmts_v, pairs_v, idents_v, program_v, prec_rank,
    lemma_exprs_v_push, lemma_stmts_v_push, lemma_pairs_v_push,
};
use crate::object::{dec_int, render_int};

verus! {

/// Parser state threaded through the spec parser: the cursor and the
/// diagnostics accumulated so far.
#[verifier::ext_equal]
pub struct PSt {
    pub pos: int,
    pub errs: Seq<Seq<char>>,
}

/// Views of a diagnostics list.
pub open spec fn errs_v(s: Seq<String>) -> Seq<Seq<char>> {
    Seq::new(s.len(), |i: int| s[i]@)
}

/// View of an optional expression.
pub open spec fn opt_expr_v(o: Option<Expression>) -> Option<ExprV> {
    match o {
        Some(e) => Some(expr_v(e)),
        None => None,
    }
}

/// View of an optional statement.
pub open spec fn opt_stmt_v(o: Option<Statement>) -> Option<StmtV> {
    match o {
        Some(s) => Some(stmt_v(s)),
        None => None,
    }
}

/// The token under the cursor; past the end it is `Eof`.
pub open spec fn tok_at(toks: Seq<TokenV>, pos: int) -> TokenV {
    if 0 <= pos < toks.len() {
        toks[pos]
    } else {
        TokenV::Eof
    }
}

/// One step forward; the cursor freezes on the final `Eof` sentinel.
pub open spec fn adv(toks: Seq<TokenV>, st: PSt) -> PSt {
    PSt {
        pos: if st.pos + 1 < toks.len() {
            st.pos + 1
        } else {
            st.pos
        },
        errs: st.errs,
    }
}

/// The text of a token in diagnostics.
pub open spec fn token_text_v(t: TokenV) -> Seq<char> {
    match t {
        TokenV::Illegal => "Illegal"@,
        TokenV::Eof => "Eof"@,
        TokenV::Ident(s) => "Ident(\""@ + s + "\")"@,
        TokenV::Int(i) => "Int("@ + dec_int(i as int) + ")"@,
        TokenV::Str(s) => "Str(\""@ + s + "\")"@,
        TokenV::Bool(b) => if b {
            "Bool(true)"@
        } else {
            "Bool(false)"@
        },
        TokenV::Assign => "Assign"@,
        TokenV::Plus => "Plus"@,
        TokenV::Minus => "Minus"@,
        TokenV::Bang => "Bang"@,
        TokenV::Asterisk => "Asterisk"@,
        TokenV::Slash => "Slash"@,
        TokenV::Percent => "Percent"@,
        TokenV::Lt => "Lt"@,
        TokenV::Gt => "Gt"@,
        TokenV::LtEq => "LtEq"@,
        TokenV::GtEq => "GtEq"@,
        TokenV::Equal => "Equal"@,
        TokenV::NotEq => "NotEq"@,
        TokenV::Comma => "Comma"@,
        TokenV::SemiColon => "SemiColon"@,
        TokenV::Colon => "Colon"@,
        TokenV::RParen => "RParen"@,
        TokenV::LParen => "LParen"@,
        TokenV::LBrace => "LBrace"@,
        TokenV::RBrace => "RBrace"@,
        TokenV::LBracket => "LBracket"@,
        TokenV::RBracket => "RBracket"@,
        TokenV::Function => "Function"@,
        TokenV::Let => "Let"@,
        TokenV::If => "If"@,
        TokenV::Else => "Else"@,
        TokenV::Return => "Return"@,
        TokenV::Import => "Import"@,
    }
}

/// The expected-token diagnostic.
pub open spec fn msg_expected(want: TokenV, got: TokenV) -> Seq<char> {
    "expected next token to be "@ + token_text_v(want) + ", got "@ + token_text_v(got)
}

/// Appends a diagnostic about the token after the cursor.
pub open spec fn sp_peek_error(toks: Seq<TokenV>, st: PSt, want: TokenV) -> PSt {
    PSt { pos: st.pos, errs: st.errs.push(msg_expected(want, tok_at(toks, st.pos + 1))) }
}

/// Consumes the next token when it is the wanted one; otherwise appends a
/// diagnostic and leaves the cursor alone.
pub open spec fn sp_expect_peek(toks: Seq<TokenV>, st: PSt, want: TokenV) -> (PSt, bool) {
    if tok_at(toks, st.pos + 1) == want {
        (adv(toks, st), true)
    } else {
        (sp_peek_error(toks, st, want), false)
    }
}

/// The binding precedence of an infix continuation starting with `t`.
pub open spec fn sp_precedence(t: TokenV) -> Precedence {
    match t {
        TokenV::Equal | TokenV::NotEq => Precedence::Equals,
        TokenV::Lt | TokenV::LtEq => Precedence::LessGreater,
        TokenV::Gt | TokenV::GtEq => Precedence::LessGreater,
        TokenV::Plus | TokenV::Minus => Precedence::Sum,
        TokenV::Slash | TokenV::Asterisk | TokenV::Percent => Precedence::Product,
        TokenV::LParen => Precedence::Call,
        TokenV::LBracket => Precedence::Index,
        _ => Precedence::Lowest,
    }
}

/// The binary operator a token stands for, if any.
pub open spec fn sp_infix_op(t: TokenV) -> Option<Infix> {
    match t {
        TokenV::Plus => Some(Infix::Plus),
        TokenV::Minus => Some(Infix::Minus),
        TokenV::Slash => Some(Infix::Divide),
        TokenV::Asterisk => Some(Infix::Multiply),
        TokenV::Percent => Some(Infix::Modulus),
        TokenV::Equal => Some(Infix::Equal),
        TokenV::NotEq => Some(Infix::NotEqual),
        TokenV::Lt => Some(Infix::LessThan),
        TokenV::Gt => Some(Infix::GreaterThan),
        TokenV::LtEq => Some(Infix::LessThanEqual),
        TokenV::GtEq => Some(Infix::GreaterThanEqual),
        _ => None,
    }
}

/// Whether `t` starts an infix continuation handled by the Pratt loop.
pub open spec fn sp_is_infix_tok(t: TokenV) -> bool {
    sp_infix_op(t) is Some
}

/// The cursor position after skipping forward to the next `;`, or to the
/// end of the input when none follows.
pub open spec fn skip_to_semi(toks: Seq<TokenV>, pos: int) -> int
    decreases toks.len() - pos,
{
    if 0 <= pos < toks.len() && !(toks[pos] is SemiColon) && !(toks[pos] is Eof) {
        skip_to_semi(toks, pos + 1)
    } else {
        pos
    }
}

/// Clamps the semicolon scan to a position the exec cursor can take.
pub open spec fn clamp_pos(toks: Seq<TokenV>, pos: int) -> int {
    if pos >= toks.len() {
        toks.len() - 1
    } else {
        pos
    }
}

/// Parses one statement: `let`, `return`, `import`, or an expression
/// statement.
pub open spec fn sp_parse_statement(fuel: nat, toks: Seq<TokenV>, st: PSt) -> (
    PSt,
    Option<StmtV>,
)
    decreases fuel,
{
    if fuel == 0 {
        (st, None)
    } else {
        match tok_at(toks, st.pos) {
            TokenV::Let => sp_parse_let(sub_fuel(fuel), toks, st),
            TokenV::Return => sp_parse_return(sub_fuel(fuel), toks, st),
            TokenV::Import => sp_parse_import(sub_fuel(fuel), toks, st),
            _ => sp_parse_expression_statement(sub_fuel(fuel), toks, st),
        }
    }
}

/// One unit of fuel spent.
pub open spec fn sub_fuel(fuel: nat) -> nat {
    (fuel - 1) as nat
}

/// Parses a `let` statement: identifier, `=`, expression, then skips to
/// the statement's semicolon (or the end of the input).
pub open spec fn sp_parse_let(fuel: nat, toks: Seq<TokenV>, st: PSt) -> (PSt, Option<StmtV>)
    decreases fuel,
{
    if fuel == 0 {
        (st, None)
    } else {
        match tok_at(toks, st.pos + 1) {
            TokenV::Ident(name) => {
                let st1 = adv(toks, st);
                let (st2, ok) = sp_expect_peek(toks, st1, TokenV::Assign);
                if !ok {
                    (st2, None)
                } else {
                    let st3 = adv(toks, st2);
                    let (st4, e) = sp_parse_expression(
                        sub_fuel(fuel),
                        toks,
                        st3,
                        Precedence::Lowest,
                    );
                    match e {
                        None => (st4, None),
                        Some(ev) => {
                            let st5 = PSt {
                                pos: clamp_pos(toks, skip_to_semi(toks, st4.pos)),
                                errs: st4.errs,
                            };
                            (st5, Some(StmtV::Let(name, ev)))
                        },
                    }
                }
            },
            other => (sp_peek_error(toks, st, TokenV::Ident(Seq::empty())), None),
        }
    }
}

/// Parses a `return` statement: expression, then skips to the
/// semicolon.
pub open spec fn sp_parse_return(fuel: nat, toks: Seq<TokenV>, st: PSt) -> (PSt, Option<StmtV>)
    decreases fuel,
{
    if fuel == 0 {
        (st, None)
    } else {
        let st1 = adv(toks, st);
        let (st2, e) = sp_parse_expression(sub_fuel(fuel), toks, st1, Precedence::Lowest);
        match e {
            None => (st2, None),
            Some(ev) => {
                let st3 = PSt {
                    pos: clamp_pos(toks, skip_to_semi(toks, st2.pos)),
                    errs: st2.errs,
                };
                (st3, Some(StmtV::Return(ev)))
            },
        }
    }
}

/// Parses an `import` statement: a bare identifier, with an optional
/// trailing semicolon.
pub open spec fn sp_parse_import(fuel: nat, toks: Seq<TokenV>, st: PSt) -> (PSt, Option<StmtV>)
    decreases fuel,
{
    if fuel == 0 {
        (st, None)
    } else {
        match tok_at(toks, st.pos + 1) {
            TokenV::Ident(name) => {
                let st1 = adv(toks, st);
                let st2 = if tok_at(toks, st1.pos + 1) == TokenV::SemiColon {
                    adv(toks, st1)
                } else {
                    st1
                };
                (st2, Some(StmtV::Import(name)))
            },
            other => (sp_peek_error(toks, st, TokenV::Ident(Seq::empty())), None),
        }
    }
}

/// Parses an expression statement, consuming an optional trailing
/// semicolon.
pub open spec fn sp_parse_expression_statement(fuel: nat, toks: Seq<TokenV>, st: PSt) -> (
    PSt,
    Option<StmtV>,
)
    decreases fuel,
{
    if fuel == 0 {
        (st, None)
    } else {
        let (st1, e) = sp_parse_expression(sub_fuel(fuel), toks, st, Precedence::Lowest);
        match e {
            None => (st1, None),
            Some(ev) => {
                let st2 = if tok_at(toks, st1.pos + 1) == TokenV::SemiColon {
                    adv(toks, st1)
                } else {
                    st1
                };
                (st2, Some(StmtV::Expr(ev)))
            },
        }
    }
}

/// Parses an expression: a prefix form selected by the current token,
/// then infix/call/index continuations while the next token binds
/// tighter than `precedence`.
pub open spec fn sp_parse_expression(
    fuel: nat,
    toks: Seq<TokenV>,
    st: PSt,
    precedence: Precedence,
) -> (PSt, Option<ExprV>)
    decreases fuel,
{
    if fuel == 0 {
        (st, None)
    } else {
        let (st1, left) = match tok_at(toks, st.pos) {
            TokenV::Ident(name) => (st, Some(ExprV::Ident(name))),
            TokenV::Int(i) => (st, Some(ExprV::Literal(LitV::Int(i)))),
            TokenV::Bool(b) => (st, Some(ExprV::Literal(LitV::Bool(b)))),
            TokenV::Str(s) => (st, Some(ExprV::Literal(LitV::Str(s)))),
            TokenV::Bang => sp_parse_prefix(sub_fuel(fuel), toks, st, Prefix::Not),
            TokenV::Minus => sp_parse_prefix(sub_fuel(fuel), toks, st, Prefix::Minus),
            TokenV::Plus => sp_parse_prefix(sub_fuel(fuel), toks, st, Prefix::Plus),
            TokenV::LParen => sp_parse_grouped(sub_fuel(fuel), toks, st),
            TokenV::If => sp_parse_if(sub_fuel(fuel), toks, st),
            TokenV::Function => sp_parse_fn(sub_fuel(fuel), toks, st),
            TokenV::LBracket => sp_parse_array(sub_fuel(fuel), toks, st),
            TokenV::LBrace => sp_parse_hash(sub_fuel(fuel), toks, st),
            _ => (st, None),
        };
        match left {
            None => (st1, None),
            Some(l) => sp_infix_loop(sub_fuel(fuel), toks, st1, precedence, l),
        }
    }
}

/// The Pratt continuation loop: while the token after the cursor binds
/// tighter than `precedence`, extend `left` with an infix, call, or
/// index continuation.
pub open spec fn sp_infix_loop(
    fuel: nat,
    toks: Seq<TokenV>,
    st: PSt,
    precedence: Precedence,
    left: ExprV,
) -> (PSt, Option<ExprV>)
    decreases fuel,
{
    if fuel == 0 {
        (st, None)
    } else {
        let peek = tok_at(toks, st.pos + 1);
        if peek == TokenV::SemiColon || prec_rank(precedence) >= prec_rank(sp_precedence(peek)) {
            (st, Some(left))
        } else if sp_is_infix_tok(peek) {
            let st1 = adv(toks, st);
            let (st2, r) = sp_parse_infix_expr(sub_fuel(fuel), toks, st1, left);
            match r {
                None => (st2, None),
                Some(l2) => sp_infix_loop(sub_fuel(fuel), toks, st2, precedence, l2),
            }
        } else if peek == TokenV::LParen {
            let st1 = adv(toks, st);
            let (st2, r) = sp_parse_call(sub_fuel(fuel), toks, st1, left);
            match r {
                None => (st2, None),
                Some(l2) => sp_infix_loop(sub_fuel(fuel), toks, st2, precedence, l2),
            }
        } else if peek == TokenV::LBracket {
            let st1 = adv(toks, st);
            let (st2, r) = sp_parse_index(sub_fuel(fuel), toks, st1, left);
            match r {
                None => (st2, None),
                Some(l2) => sp_infix_loop(sub_fuel(fuel), toks, st2, precedence, l2),
            }
        } else {
            (st, Some(left))
        }
    }
}

/// Parses a unary operator's operand at `Prefix` precedence.
pub open spec fn sp_parse_prefix(fuel: nat, toks: Seq<TokenV>, st: PSt, op: Prefix) -> (
    PSt,
    Option<ExprV>,
)
    decreases fuel,
{
    if fuel == 0 {
        (st, None)
    } else {
        let st1 = adv(toks, st);
        let (st2, e) = sp_parse_expression(sub_fuel(fuel), toks, st1, Precedence::Prefix);
        match e {
            None => (st2, None),
            Some(ev) => (st2, Some(ExprV::Prefix(op, Box::new(ev)))),
        }
    }
}

/// Parses the right operand of the infix operator under the cursor, at
/// that operator's own precedence (left associativity).
pub open spec fn sp_parse_infix_expr(fuel: nat, toks: Seq<TokenV>, st: PSt, left: ExprV) -> (
    PSt,
    Option<ExprV>,
)
    decreases fuel,
{
    if fuel == 0 {
        (st, None)
    } else {
        match sp_infix_op(tok_at(toks, st.pos)) {
            None => (st, None),
            Some(op) => {
                let prec = sp_precedence(tok_at(toks, st.pos));
                let st1 = adv(toks, st);
                let (st2, e) = sp_parse_expression(sub_fuel(fuel), toks, st1, prec);
                match e {
                    None => (st2, None),
                    Some(rv) => (st2, Some(ExprV::Infix(op, Box::new(left), Box::new(rv)))),
                }
            },
        }
    }
}

/// Parses a parenthesized group.
pub open spec fn sp_parse_grouped(fuel: nat, toks: Seq<TokenV>, st: PSt) -> (PSt, Option<ExprV>)
    decreases fuel,
{
    if fuel == 0 {
        (st, None)
    } else {
        let st1 = adv(toks, st);
        let (st2, e) = sp_parse_expression(sub_fuel(fuel), toks, st1, Precedence::Lowest);
        let (st3, ok) = sp_expect_peek(toks, st2, TokenV::RParen);
        if !ok {
            (st3, None)
        } else {
            (st3, e)
        }
    }
}

/// Parses a block: statements until the closing brace or the end of the
/// input. The cursor stands on the opening brace when called.
pub open spec fn sp_parse_block(fuel: nat, toks: Seq<TokenV>, st: PSt) -> (PSt, Seq<StmtV>)
    decreases fuel,
{
    if fuel == 0 {
        (st, Seq::empty())
    } else {
        sp_parse_block_rec(sub_fuel(fuel), toks, adv(toks, st), Seq::empty())
    }
}

/// The block statement loop.
pub open spec fn sp_parse_block_rec(fuel: nat, toks: Seq<TokenV>, st: PSt, acc: Seq<StmtV>) -> (
    PSt,
    Seq<StmtV>,
)
    decreases fuel,
{
    if fuel == 0 {
        (st, acc)
    } else {
        let c = tok_at(toks, st.pos);
        if c is RBrace || c is Eof {
            (st, acc)
        } else {
            let (st1, s) = sp_parse_statement(sub_fuel(fuel), toks, st);
            let acc1 = match s {
                Some(sv) => acc.push(sv),
                None => acc,
            };
            sp_parse_block_rec(sub_fuel(fuel), toks, adv(toks, st1), acc1)
        }
    }
}

/// Parses an `if` expression, with chained `else if` handled by
/// recursion.
pub open spec fn sp_parse_if(fuel: nat, toks: Seq<TokenV>, st: PSt) -> (PSt, Option<ExprV>)
    decreases fuel,
{
    if fuel == 0 {
        (st, None)
    } else {
        let (st1, ok) = sp_expect_peek(toks, st, TokenV::LParen);
        if !ok {
            (st1, None)
        } else {
            let st2 = adv(toks, st1);
            let (st3, cond) = sp_parse_expression(sub_fuel(fuel), toks, st2, Precedence::Lowest);
            match cond {
                None => (st3, None),
                Some(cv) => {
                    let (st4, ok1) = sp_expect_peek(toks, st3, TokenV::RParen);
                    if !ok1 {
                        (st4, None)
                    } else {
                        let (st5, ok2) = sp_expect_peek(toks, st4, TokenV::LBrace);
                        if !ok2 {
                            (st5, None)
                        } else {
                            let (st6, cons) = sp_parse_block(sub_fuel(fuel), toks, st5);
                            if tok_at(toks, st6.pos + 1) == TokenV::Else {
                                let st7 = adv(toks, st6);
                                if tok_at(toks, st7.pos + 1) == TokenV::If {
                                    let st8 = adv(toks, st7);
                                    let (st9, ei) = sp_parse_if(sub_fuel(fuel), toks, st8);
                                    match ei {
                                        None => (st9, None),
                                        Some(eiv) => (
                                            st9,
                                            Some(
                                                ExprV::If {
                                                    condition: Box::new(cv),
                                                    consequence: cons,
                                                    alternative: Some(
                                                        seq![StmtV::Expr(eiv)],
                                                    ),
                                                },
                                            ),
                                        ),
                                    }
                                } else {
                                    let (st8, ok3) = sp_expect_peek(toks, st7, TokenV::LBrace);
                                    if !ok3 {
                                        (st8, None)
                                    } else {
                                        let (st9, alt) = sp_parse_block(
                                            sub_fuel(fuel),
                                            toks,
                                            st8,
                                        );
                                        (
                                            st9,
                                            Some(
                                                ExprV::If {
                                                    condition: Box::new(cv),
                                                    consequence: cons,
                                                    alternative: Some(alt),
                                                },
                                            ),
                                        )
                                    }
                                }
                            } else {
                                (
                                    st6,
                                    Some(
                                        ExprV::If {
                                            condition: Box::new(cv),
                                            consequence: cons,
                                            alternative: None,
                                        },
                                    ),
                                )
                            }
                        }
                    }
                },
            }
        }
    }
}

/// Parses a function literal: parameter list, then a braced body.
pub open spec fn sp_parse_fn(fuel: nat, toks: Seq<TokenV>, st: PSt) -> (PSt, Option<ExprV>)
    decreases fuel,
{
    if fuel == 0 {
        (st, None)
    } else {
        let (st1, ok) = sp_expect_peek(toks, st, TokenV::LParen);
        if !ok {
            (st1, None)
        } else {
            let (st2, ps) = sp_parse_fn_params(sub_fuel(fuel), toks, st1);
            match ps {
                None => (st2, None),
                Some(params) => {
                    let (st3, ok1) = sp_expect_peek(toks, st2, TokenV::LBrace);
                    if !ok1 {
                        (st3, None)
                    } else {
                        let (st4, body) = sp_parse_block(sub_fuel(fuel), toks, st3);
                        (st4, Some(ExprV::Fn { params, body }))
                    }
                },
            }
        }
    }
}

/// Parses a comma-separated, possibly empty parameter list; a
/// non-identifier in parameter position is a diagnostic, not a panic.
pub open spec fn sp_parse_fn_params(fuel: nat, toks: Seq<TokenV>, st: PSt) -> (
    PSt,
    Option<Seq<Seq<char>>>,
)
    decreases fuel,
{
    if fuel == 0 {
        (st, None)
    } else {
        if tok_at(toks, st.pos + 1) == TokenV::RParen {
            (adv(toks, st), Some(Seq::empty()))
        } else {
            let st1 = adv(toks, st);
            match tok_at(toks, st1.pos) {
                TokenV::Ident(name) => {
                    let p1 = tok_at(toks, st1.pos + 1);
                    if p1 == TokenV::Comma || p1 == TokenV::RParen {
                        let (st2, more) = sp_parse_fn_params_rec(
                            sub_fuel(fuel),
                            toks,
                            st1,
                            seq![name],
                        );
                        match more {
                            None => (st2, None),
                            Some(params) => {
                                let (st3, ok) = sp_expect_peek(toks, st2, TokenV::RParen);
                                if !ok {
                                    (st3, None)
                                } else {
                                    (st3, Some(params))
                                }
                            },
                        }
                    } else {
                        (
                            PSt {
                                pos: st1.pos,
                                errs: st1.errs.push(
                                    "Expected function parameters to be seperated by a comma.`"@,
                                ),
                            },
                            None,
                        )
                    }
                },
                _ => (
                    PSt {
                        pos: st1.pos,
                        errs: st1.errs.push(
                            "Expected function parameter to be an identifier."@,
                        ),
                    },
                    None,
                ),
            }
        }
    }
}

/// The parameter list loop: further `, name` pairs. A non-identifier in
/// any parameter position is a diagnostic, never a panic.
pub open spec fn sp_parse_fn_params_rec(
    fuel: nat,
    toks: Seq<TokenV>,
    st: PSt,
    acc: Seq<Seq<char>>,
) -> (PSt, Option<Seq<Seq<char>>>)
    decreases fuel,
{
    if fuel == 0 {
        (st, None)
    } else {
        if tok_at(toks, st.pos + 1) == TokenV::Comma {
            let st1 = adv(toks, adv(toks, st));
            match tok_at(toks, st1.pos) {
                TokenV::Ident(name) => sp_parse_fn_params_rec(
                    sub_fuel(fuel),
                    toks,
                    st1,
                    acc.push(name),
                ),
                _ => (
                    PSt {
                        pos: st1.pos,
                        errs: st1.errs.push(
                            "Expected function parameter to be an identifier."@,
                        ),
                    },
                    None,
                ),
            }
        } else {
            (st, Some(acc))
        }
    }
}

/// Parses a call continuation: the argument list after the callee.
pub open spec fn sp_parse_call(fuel: nat, toks: Seq<TokenV>, st: PSt, left: ExprV) -> (
    PSt,
    Option<ExprV>,
)
    decreases fuel,
{
    if fuel == 0 {
        (st, None)
    } else {
        let (st1, args) = sp_parse_exprs_until(sub_fuel(fuel), toks, st, TokenV::RParen);
        match args {
            None => (st1, None),
            Some(a) => (st1, Some(ExprV::Call { function: Box::new(left), args: a })),
        }
    }
}

/// Parses an index continuation: the index after `[`.
pub open spec fn sp_parse_index(fuel: nat, toks: Seq<TokenV>, st: PSt, left: ExprV) -> (
    PSt,
    Option<ExprV>,
)
    decreases fuel,
{
    if fuel == 0 {
        (st, None)
    } else {
        let st1 = adv(toks, st);
        let (st2, e) = sp_parse_expression(sub_fuel(fuel), toks, st1, Precedence::Lowest);
        match e {
            None => (st2, None),
            Some(ev) => {
                let (st3, ok) = sp_expect_peek(toks, st2, TokenV::RBracket);
                if !ok {
                    (st3, None)
                } else {
                    (st3, Some(ExprV::Index { left: Box::new(left), index: Box::new(ev) }))
                }
            },
        }
    }
}

/// Parses an array literal: expressions until `]`.
pub open spec fn sp_parse_array(fuel: nat, toks: Seq<TokenV>, st: PSt) -> (PSt, Option<ExprV>)
    decreases fuel,
{
    if fuel == 0 {
        (st, None)
    } else {
        let (st1, elems) = sp_parse_exprs_until(sub_fuel(fuel), toks, st, TokenV::RBracket);
        match elems {
            None => (st1, None),
            Some(es) => (st1, Some(ExprV::Literal(LitV::Array(es)))),
        }
    }
}

/// Parses a comma-separated, possibly empty expression list closed by
/// `end` (the cursor stands on the opening bracket when called).
pub open spec fn sp_parse_exprs_until(fuel: nat, toks: Seq<TokenV>, st: PSt, end: TokenV) -> (
    PSt,
    Option<Seq<ExprV>>,
)
    decreases fuel,
{
    if fuel == 0 {
        (st, None)
    } else {
        if tok_at(toks, st.pos + 1) == end {
            (adv(toks, st), Some(Seq::empty()))
        } else {
            let st1 = adv(toks, st);
            let (st2, e) = sp_parse_expression(sub_fuel(fuel), toks, st1, Precedence::Lowest);
            match e {
                None => (st2, None),
                Some(ev) => {
                    let (st3, more) = sp_parse_exprs_rec(sub_fuel(fuel), toks, st2, seq![ev]);
                    match more {
                        None => (st3, None),
                        Some(es) => {
                            let (st4, ok) = sp_expect_peek(toks, st3, end);
                            if !ok {
                                (st4, None)
                            } else {
                                (st4, Some(es))
                            }
                        },
                    }
                },
            }
        }
    }
}

/// The expression list loop: further `, expr` pairs.
pub open spec fn sp_parse_exprs_rec(fuel: nat, toks: Seq<TokenV>, st: PSt, acc: Seq<ExprV>) -> (
    PSt,
    Option<Seq<ExprV>>,
)
    decreases fuel,
{
    if fuel == 0 {
        (st, None)
    } else {
        if tok_at(toks, st.pos + 1) == TokenV::Comma {
            let st1 = adv(toks, adv(toks, st));
            let (st2, e) = sp_parse_expression(sub_fuel(fuel), toks, st1, Precedence::Lowest);
            match e {
                None => (st2, None),
                Some(ev) => sp_parse_exprs_rec(sub_fuel(fuel), toks, st2, acc.push(ev)),
            }
        } else {
            (st, Some(acc))
        }
    }
}

/// Parses a hash literal: `key: value` entries until `}`.
pub open spec fn sp_parse_hash(fuel: nat, toks: Seq<TokenV>, st: PSt) -> (PSt, Option<ExprV>)
    decreases fuel,
{
    if fuel == 0 {
        (st, None)
    } else {
        let (st1, ps) = sp_parse_hash_rec(sub_fuel(fuel), toks, st, Seq::empty());
        match ps {
            None => (st1, None),
            Some(pairs) => {
                let (st2, ok) = sp_expect_peek(toks, st1, TokenV::RBrace);
                if !ok {
                    (st2, None)
                } else {
                    (st2, Some(ExprV::Literal(LitV::Hash(pairs))))
                }
            },
        }
    }
}

/// The hash entry loop.
pub open spec fn sp_parse_hash_rec(
    fuel: nat,
    toks: Seq<TokenV>,
    st: PSt,
    acc: Seq<(ExprV, ExprV)>,
) -> (PSt, Option<Seq<(ExprV, ExprV)>>)
    decreases fuel,
{
    if fuel == 0 {
        (st, None)
    } else {
        if tok_at(toks, st.pos + 1) == TokenV::RBrace {
            (st, Some(acc))
        } else {
            let st1 = adv(toks, st);
            let (st2, k) = sp_parse_expression(sub_fuel(fuel), toks, st1, Precedence::Lowest);
            match k {
                None => (st2, None),
                Some(kv) => {
                    let (st3, ok) = sp_expect_peek(toks, st2, TokenV::Colon);
                    if !ok {
                        (st3, None)
                    } else {
                        let st4 = adv(toks, st3);
                        let (st5, v) = sp_parse_expression(
                            sub_fuel(fuel),
                            toks,
                            st4,
                            Precedence::Lowest,
                        );
                        match v {
                            None => (st5, None),
                            Some(vv) => {
                                if tok_at(toks, st5.pos + 1) == TokenV::RBrace {
                                    sp_parse_hash_rec(
                                        sub_fuel(fuel),
                                        toks,
                                        st5,
                                        acc.push((kv, vv)),
                                    )
                                } else {
                                    let (st6, ok1) = sp_expect_peek(toks, st5, TokenV::Comma);
                                    if !ok1 {
                                        (st6, None)
                                    } else {
                                        sp_parse_hash_rec(
                                            sub_fuel(fuel),
                                            toks,
                                            st6,
                                            acc.push((kv, vv)),
                                        )
                                    }
                                }
                            },
                        }
                    }
                },
            }
        }
    }
}

/// Parses a whole program: statements until the `Eof` sentinel, skipping
/// a statement whose parse fails and continuing with the next.
pub open spec fn sp_parse_program(fuel: nat, toks: Seq<TokenV>, st: PSt, acc: Seq<StmtV>) -> (
    PSt,
    Seq<StmtV>,
)
    decreases fuel,
{
    if fuel == 0 {
        (st, acc)
    } else {
        if tok_at(toks, st.pos) is Eof {
            (st, acc)
        } else {
            let (st1, s) = sp_parse_statement(sub_fuel(fuel), toks, st);
            let acc1 = match s {
                Some(sv) => acc.push(sv),
                None => acc,
            };
            sp_parse_program(sub_fuel(fuel), toks, adv(toks, st1), acc1)
        }
    }
}

/// The fuel budget the entry points allow for an input of `n` tokens:
/// far more steps than any parse of `n` tokens can take.
pub open spec fn parse_fuel(n: nat) -> nat {
    if n < 0x0100_0000_0000_0000 {
        (32 * n + 64) as nat
    } else {
        0xFFFF_FFFF_FFFF_FFFF as nat
    }
}


/// Kind-and-payload equality of two tokens.
fn token_eq(a: &Token, b: &Token) -> (r: bool)
    ensures
        r == (a@ == b@),
{
    match (a, b) {
        (Token::Illegal, Token::Illegal) => true,
        (Token::Eof, Token::Eof) => true,
        (Token::Ident(x), Token::Ident(y)) => str_eq(x.as_str(), y.as_str()),
        (Token::Int(x), Token::Int(y)) => x == y,
        (Token::Str(x), Token::Str(y)) => str_eq(x.as_str(), y.as_str()),
        (Token::Bool(x), Token::Bool(y)) => x == y,
        (Token::Assign, Token::Assign) => true,
        (Token::Plus, Token::Plus) => true,
        (Token::Minus, Token::Minus) => true,
        (Token::Bang, Token::Bang) => true,
        (Token::Asterisk, Token::Asterisk) => true,
        (Token::Slash, Token::Slash) => true,
        (Token::Percent, Token::Percent) => true,
        (Token::Lt, Token::Lt) => true,
        (Token::Gt, Token::Gt) => true,
        (Token::LtEq, Token::LtEq) => true,
        (Token::GtEq, Token::GtEq) => true,
        (Token::Equal, Token::Equal) => true,
        (Token::NotEq, Token::NotEq) => true,
        (Token::Comma, Token::Comma) => true,
        (Token::SemiColon, Token::SemiColon) => true,
        (Token::Colon, Token::Colon) => true,
        (Token::RParen, Token::RParen) => true,
        (Token::LParen, Token::LParen) => true,
        (Token::LBrace, Token::LBrace) => true,
        (Token::RBrace, Token::RBrace) => true,
        (Token::LBracket, Token::LBracket) => true,
        (Token::RBracket, Token::RBracket) => true,
        (Token::Function, Token::Function) => true,
        (Token::Let, Token::Let) => true,
        (Token::If, Token::If) => true,
        (Token::Else, Token::Else) => true,
        (Token::Return, Token::Return) => true,
        (Token::Import, Token::Import) => true,
        _ => false,
    }
}

/// The text of a token in diagnostics.
fn token_text(t: &Token) -> (r: String)
    ensures
        r@ == token_text_v(t@),
{
    match t {
        Token::Illegal => "Illegal".to_owned(),
        Token::Eof => "Eof".to_owned(),
        Token::Ident(s) => {
            let mut m = "Ident(\"".to_owned();
            m.append(s.as_str());
            m.append("\")");
            m
        },
        Token::Int(i) => {
            let mut m = "Int(".to_owned();
            m.append(render_int(*i).as_str());
            m.append(")");
            m
        },
        Token::Str(s) => {
            let mut m = "Str(\"".to_owned();
            m.append(s.as_str());
            m.append("\")");
            m
        },
        Token::Bool(b) => if *b {
            "Bool(true)".to_owned()
        } else {
            "Bool(false)".to_owned()
        },
        Token::Assign => "Assign".to_owned(),
        Token::Plus => "Plus".to_owned(),
        Token::Minus => "Minus".to_owned(),
        Token::Bang => "Bang".to_owned(),
        Token::Asterisk => "Asterisk".to_owned(),
        Token::Slash => "Slash".to_owned(),
        Token::Percent => "Percent".to_owned(),
        Token::Lt => "Lt".to_owned(),
        Token::Gt => "Gt".to_owned(),
        Token::LtEq => "LtEq".to_owned(),
        Token::GtEq => "GtEq".to_owned(),
        Token::Equal => "Equal".to_owned(),
        Token::NotEq => "NotEq".to_owned(),
        Token::Comma => "Comma".to_owned(),
        Token::SemiColon => "SemiColon".to_owned(),
        Token::Colon => "Colon".to_owned(),
        Token::RParen => "RParen".to_owned(),
        Token::LParen => "LParen".to_owned(),
        Token::LBrace => "LBrace".to_owned(),
        Token::RBrace => "RBrace".to_owned(),
        Token::LBracket => "LBracket".to_owned(),
        Token::RBracket => "RBracket".to_owned(),
        Token::Function => "Function".to_owned(),
        Token::Let => "Let".to_owned(),
        Token::If => "If".to_owned(),
        Token::Else => "Else".to_owned(),
        Token::Return => "Return".to_owned(),
        Token::Import => "Import".to_owned(),
    }
}

/// The parser: a token buffer consumed strictly forward with two tokens
/// of lookahead, plus the ordered diagnostics list.
pub struct Parser {
    pub tokens: Vec<Token>,
    pub pos: usize,
    pub errors: Vec<String>,
}

impl Parser {
    /// The token sequence being parsed.
    pub open spec fn toks(&self) -> Seq<TokenV> {
        self.tokens.deep_view()
    }

    /// The cursor/diagnostics state.
    pub open spec fn pst(&self) -> PSt {
        PSt { pos: self.pos as int, errs: errs_v(self.errors@) }
    }

    /// Well-formedness: the buffer ends with the `Eof` sentinel and the
    /// cursor stays inside it.
    pub open spec fn wf(&self) -> bool {
        &&& self.toks().len() >= 1
        &&& self.toks()[self.toks().len() - 1] is Eof
        &&& self.pos < self.toks().len()
    }

    /// Drains the lexer and stands ready at the first token.
    pub fn new(lexer: Lexer) -> (p: Parser)
        requires
            lexer.wf(),
        ensures
            p.wf(),
            p.toks() == spec_tokens_from(lexer.src(), lexer.pos()) + seq![TokenV::Eof],
            p.pos == 0,
            p.errors@.len() == 0,
    {
        let mut l = lexer;
        let tokens = tokenize(&mut l);
        let p = Parser { tokens, pos: 0, errors: Vec::new() };
        proof {
            assert(errs_v(p.errors@) =~= Seq::<Seq<char>>::empty());
        }
        p
    }

    /// Advances the cursor one token; it freezes on the final `Eof`.
    pub fn next_token(&mut self)
        requires
            old(self).wf(),
        ensures
            final(self).wf(),
            final(self).toks() == old(self).toks(),
            final(self).errors@ == old(self).errors@,
            final(self).pst() == adv(old(self).toks(), old(self).pst()),
    {
        let n = self.tokens.len();
        if self.pos < n - 1 {
            self.pos = self.pos + 1;
        }
    }

    /// The token under the cursor.
    fn cur_tok(&self) -> (t: &Token)
        requires
            self.wf(),
        ensures
            t@ == tok_at(self.toks(), self.pos as int),
    {
        &self.tokens[self.pos]
    }

    /// The token after the cursor (`Eof` at the end).
    fn peek_tok(&self) -> (t: &Token)
        requires
            self.wf(),
        ensures
            t@ == tok_at(self.toks(), self.pos + 1),
    {
        let n = self.tokens.len();
        if self.pos < n - 1 {
            &self.tokens[self.pos + 1]
        } else {
            &self.tokens[self.pos]
        }
    }

    /// Whether the token after the cursor is `t`.
    fn peek_token_is(&self, t: &Token) -> (r: bool)
        requires
            self.wf(),
        ensures
            r == (tok_at(self.toks(), self.pos + 1) == t@),
    {
        token_eq(self.peek_tok(), t)
    }

    /// Whether the token under the cursor is `t`.
    fn current_token_is(&self, t: &Token) -> (r: bool)
        requires
            self.wf(),
        ensures
            r == (tok_at(self.toks(), self.pos as int) == t@),
    {
        token_eq(self.cur_tok(), t)
    }

    /// Appends the expected-token diagnostic about the next token.
    fn peek_error(&mut self, t: Token)
        requires
            old(self).wf(),
        ensures
            final(self).wf(),
            final(self).toks() == old(self).toks(),
            final(self).pst() == sp_peek_error(old(self).toks(), old(self).pst(), t@),
    {
        let mut msg = "expected next token to be ".to_owned();
        msg.append(token_text(&t).as_str());
        msg.append(", got ");
        msg.append(token_text(self.peek_tok()).as_str());
        let ghost before = errs_v(self.errors@);
        let ghost m = msg@;
        self.errors.push(msg);
        proof {
            assert(errs_v(self.errors@) =~= before.push(m));
        }
    }

    /// Consumes the next token when it is `t`; otherwise records the
    /// mismatch and stays put.
    fn expect_peek(&mut self, t: Token) -> (r: bool)
        requires
            old(self).wf(),
        ensures
            final(self).wf(),
            final(self).toks() == old(self).toks(),
            ({
                let (st1, ok) = sp_expect_peek(old(self).toks(), old(self).pst(), t@);
                final(self).pst() == st1 && r == ok
            }),
    {
        if self.peek_token_is(&t) {
            self.next_token();
            true
        } else {
            self.peek_error(t);
            false
        }
    }

    /// The binding precedence of the token under the cursor.
    fn current_token_precedence(&self) -> (r: Precedence)
        requires
            self.wf(),
        ensures
            r == sp_precedence(tok_at(self.toks(), self.pos as int)),
    {
        Self::token_to_precedence(self.cur_tok())
    }

    /// The binding precedence of the token after the cursor.
    fn next_token_precedence(&self) -> (r: Precedence)
        requires
            self.wf(),
        ensures
            r == sp_precedence(tok_at(self.toks(), self.pos + 1)),
    {
        Self::token_to_precedence(self.peek_tok())
    }

    /// The precedence an infix continuation starting with `tok` binds at.
    fn token_to_precedence(tok: &Token) -> (r: Precedence)
        ensures
            r == sp_precedence(tok@),
    {
        match tok {
            Token::Equal | Token::NotEq => Precedence::Equals,
            Token::Lt | Token::LtEq => Precedence::LessGreater,
            Token::Gt | Token::GtEq => Precedence::LessGreater,
            Token::Plus | Token::Minus => Precedence::Sum,
            Token::Slash | Token::Asterisk | Token::Percent => Precedence::Product,
            Token::LParen => Precedence::Call,
            Token::LBracket => Precedence::Index,
            _ => Precedence::Lowest,
        }
    }

    /// Skips forward to the next semicolon (or the end of the input).
    fn skip_to_semicolon(&mut self)
        requires
            old(self).wf(),
        ensures
            final(self).wf(),
            final(self).toks() == old(self).toks(),
            final(self).errors@ == old(self).errors@,
            final(self).pos as int == clamp_pos(
                old(self).toks(),
                skip_to_semi(old(self).toks(), old(self).pos as int),
            ),
    {
        while !(matches!(self.cur_tok(), Token::SemiColon | Token::Eof))
            invariant
                self.wf(),
                self.toks() == old(self).toks(),
                self.errors@ == old(self).errors@,
                skip_to_semi(self.toks(), self.pos as int) == skip_to_semi(
                    old(self).toks(),
                    old(self).pos as int,
                ),
            decreases self.toks().len() - self.pos,
        {
            proof {
                assert(self.toks()[self.pos as int] != TokenV::Eof);
                assert(self.pos < self.toks().len() - 1);
            }
            self.next_token();
        }
    }

    /// The fuel budget for this input.
    fn budget(&self) -> (f: u64)
        ensures
            f as nat == parse_fuel(self.toks().len() as nat),
    {
        let n = self.tokens.len() as u64;
        proof {
            assert(self.toks().len() == self.tokens@.len());
        }
        if n < 0x0100_0000_0000_0000 {
            32 * n + 64
        } else {
            u64::MAX
        }
    }

    /// Parses statements until `Eof`, skipping a statement whose parse
    /// fails and advancing past it, so later diagnostics still
    /// accumulate.
    pub fn parse_program(&mut self) -> (program: Program)
        requires
            old(self).wf(),
        ensures
            final(self).wf(),
            final(self).toks() == old(self).toks(),
            ({
                let (st1, stmts) = sp_parse_program(
                    parse_fuel(old(self).toks().len() as nat),
                    old(self).toks(),
                    old(self).pst(),
                    Seq::empty(),
                );
                final(self).pst() == st1 && program_v(program) == stmts
            }),
    {
        let fuel = self.budget();
        let statements = self.parse_program_rec(fuel, Vec::new());
        proof {
            assert(stmts_v(Seq::<Statement>::empty()) =~= Seq::<StmtV>::empty());
        }
        Program { statements }
    }

    fn parse_program_rec(&mut self, fuel: u64, acc: Vec<Statement>) -> (r: Vec<Statement>)
        requires
            old(self).wf(),
        ensures
            final(self).wf(),
            final(self).toks() == old(self).toks(),
            ({
                let (st1, out) = sp_parse_program(
                    fuel as nat,
                    old(self).toks(),
                    old(self).pst(),
                    stmts_v(acc@),
                );
                final(self).pst() == st1 && stmts_v(r@) == out
            }),
        decreases fuel,
    {
        if fuel == 0 {
            return acc;
        }
        if self.current_token_is(&Token::Eof) {
            return acc;
        }
        let stmt = self.parse_statement_f(fuel - 1);
        let mut acc = acc;
        match stmt {
            Some(st) => {
                let ghost prev = acc@;
                let ghost stg = st;
                acc.push(st);
                proof {
                    assert(acc@ =~= prev.push(stg));
                    lemma_stmts_v_push(prev, stg);
                }
            },
            None => {},
        }
        self.next_token();
        self.parse_program_rec(fuel - 1, acc)
    }

    /// Dispatches one statement by the token under the cursor.
    pub fn parse_statement(&mut self) -> (r: Option<Statement>)
        requires
            old(self).wf(),
        ensures
            final(self).wf(),
            final(self).toks() == old(self).toks(),
            ({
                let (st1, rv) = sp_parse_statement(
                    parse_fuel(old(self).toks().len() as nat),
                    old(self).toks(),
                    old(self).pst(),
                );
                final(self).pst() == st1 && opt_stmt_v(r) == rv
            }),
    {
        let fuel = self.budget();
        proof {
            assert(parse_fuel(old(self).toks().len() as nat) >= 1);
        }
        self.parse_statement_f(fuel)
    }

    #[verifier::rlimit(60)]
    fn parse_statement_f(&mut self, fuel: u64) -> (r: Option<Statement>)
        requires
            old(self).wf(),
        ensures
            final(self).wf(),
            final(self).toks() == old(self).toks(),
            ({
                let (st1, rv) = sp_parse_statement(fuel as nat, old(self).toks(), old(self).pst());
                final(self).pst() == st1 && opt_stmt_v(r) == rv
            }),
        decreases fuel,
    {
        if fuel == 0 {
            return None;
        }
        if matches!(self.cur_tok(), Token::Let) {
            self.parse_let_f(fuel - 1)
        } else if matches!(self.cur_tok(), Token::Return) {
            self.parse_return_f(fuel - 1)
        } else if matches!(self.cur_tok(), Token::Import) {
            self.parse_import_f(fuel - 1)
        } else {
            self.parse_expression_statement_f(fuel - 1)
        }
    }

    /// `let <name> = <expression>;`.
    pub fn parse_let_statement(&mut self) -> (r: Option<Statement>)
        requires
            old(self).wf(),
        ensures
            final(self).wf(),
            final(self).toks() == old(self).toks(),
            ({
                let (st1, rv) = sp_parse_let(
                    parse_fuel(old(self).toks().len() as nat),
                    old(self).toks(),
                    old(self).pst(),
                );
                final(self).pst() == st1 && opt_stmt_v(r) == rv
            }),
    {
        let fuel = self.budget();
        self.parse_let_f(fuel)
    }

    fn parse_let_f(&mut self, fuel: u64) -> (r: Option<Statement>)
        requires
            old(self).wf(),
        ensures
            final(self).wf(),
            final(self).toks() == old(self).toks(),
            ({
                let (st1, rv) = sp_parse_let(fuel as nat, old(self).toks(), old(self).pst());
                final(self).pst() == st1 && opt_stmt_v(r) == rv
            }),
        decreases fuel,
    {
        if fuel == 0 {
            return None;
        }
        let name_opt: Option<String> = match self.peek_tok() {
            Token::Ident(s) => Some(s.clone()),
            _ => None,
        };
        let name = match name_opt {
            Some(n) => n,
            None => {
                self.peek_error(Token::Ident(String::new()));
                return None;
            },
        };
        self.next_token();
        if !self.expect_peek(Token::Assign) {
            return None;
        }
        self.next_token();
        let lit = match self.parse_expression_f(fuel - 1, Precedence::Lowest) {
            Some(e) => e,
            None => {
                return None;
            },
        };
        self.skip_to_semicolon();
        Some(Statement::Let(Ident(name), lit))
    }

    /// `return <expression>;`.
    pub fn parse_return_statement(&mut self) -> (r: Option<Statement>)
        requires
            old(self).wf(),
        ensures
            final(self).wf(),
            final(self).toks() == old(self).toks(),
            ({
                let (st1, rv) = sp_parse_return(
                    parse_fuel(old(self).toks().len() as nat),
                    old(self).toks(),
                    old(self).pst(),
                );
                final(self).pst() == st1 && opt_stmt_v(r) == rv
            }),
    {
        let fuel = self.budget();
        self.parse_return_f(fuel)
    }

    fn parse_return_f(&mut self, fuel: u64) -> (r: Option<Statement>)
        requires
            old(self).wf(),
        ensures
            final(self).wf(),
            final(self).toks() == old(self).toks(),
            ({
                let (st1, rv) = sp_parse_return(fuel as nat, old(self).toks(), old(self).pst());
                final(self).pst() == st1 && opt_stmt_v(r) == rv
            }),
        decreases fuel,
    {
        if fuel == 0 {
            return None;
        }
        self.next_token();
        let exp = match self.parse_expression_f(fuel - 1, Precedence::Lowest) {
            Some(e) => e,
            None => {
                return None;
            },
        };
        self.skip_to_semicolon();
        Some(Statement::Return(exp))
    }

    /// `import <name>;`: names a library for the host to load.
    fn parse_import_f(&mut self, fuel: u64) -> (r: Option<Statement>)
        requires
            old(self).wf(),
        ensures
            final(self).wf(),
            final(self).toks() == old(self).toks(),
            ({
                let (st1, rv) = sp_parse_import(fuel as nat, old(self).toks(), old(self).pst());
                final(self).pst() == st1 && opt_stmt_v(r) == rv
            }),
        decreases fuel,
    {
        if fuel == 0 {
            return None;
        }
        let name_opt: Option<String> = match self.peek_tok() {
            Token::Ident(s) => Some(s.clone()),
            _ => None,
        };
        let name = match name_opt {
            Some(n) => n,
            None => {
                self.peek_error(Token::Ident(String::new()));
                return None;
            },
        };
        self.next_token();
        if self.peek_token_is(&Token::SemiColon) {
            self.next_token();
        }
        Some(Statement::Import(Ident(name)))
    }

    /// An expression in statement position, with an optional trailing
    /// semicolon.
    pub fn parse_expression_statement(&mut self) -> (r: Option<Statement>)
        requires
            old(self).wf(),
        ensures
            final(self).wf(),
            final(self).toks() == old(self).toks(),
            ({
                let (st1, rv) = sp_parse_expression_statement(
                    parse_fuel(old(self).toks().len() as nat),
                    old(self).toks(),
                    old(self).pst(),
                );
                final(self).pst() == st1 && opt_stmt_v(r) == rv
            }),
    {
        let fuel = self.budget();
        self.parse_expression_statement_f(fuel)
    }

    fn parse_expression_statement_f(&mut self, fuel: u64) -> (r: Option<Statement>)
        requires
            old(self).wf(),
        ensures
            final(self).wf(),
            final(self).toks() == old(self).toks(),
            ({
                let (st1, rv) = sp_parse_expression_statement(
                    fuel as nat,
                    old(self).toks(),
                    old(self).pst(),
                );
                final(self).pst() == st1 && opt_stmt_v(r) == rv
            }),
        decreases fuel,
    {
        if fuel == 0 {
            return None;
        }
        match self.parse_expression_f(fuel - 1, Precedence::Lowest) {
            Some(expression) => {
                if self.peek_token_is(&Token::SemiColon) {
                    self.next_token();
                }
                Some(Statement::Expression(expression))
            },
            None => None,
        }
    }

    #[verifier::rlimit(60)]
    fn parse_expression_f(&mut self, fuel: u64, precedence: Precedence) -> (r: Option<
        Expression,
    >)
        requires
            old(self).wf(),
        ensures
            final(self).wf(),
            final(self).toks() == old(self).toks(),
            ({
                let (st1, rv) = sp_parse_expression(
                    fuel as nat,
                    old(self).toks(),
                    old(self).pst(),
                    precedence,
                );
                final(self).pst() == st1 && opt_expr_v(r) == rv
            }),
        decreases fuel,
    {
        if fuel == 0 {
            return None;
        }
        let left: Option<Expression> = if matches!(self.cur_tok(), Token::Bang) {
            self.parse_prefix_expression_f(fuel - 1, Prefix::Not)
        } else if matches!(self.cur_tok(), Token::Minus) {
            self.parse_prefix_expression_f(fuel - 1, Prefix::Minus)
        } else if matches!(self.cur_tok(), Token::Plus) {
            self.parse_prefix_expression_f(fuel - 1, Prefix::Plus)
        } else if matches!(self.cur_tok(), Token::LParen) {
            self.parse_grouped_expression_f(fuel - 1)
        } else if matches!(self.cur_tok(), Token::If) {
            self.parse_if_expression_f(fuel - 1)
        } else if matches!(self.cur_tok(), Token::Function) {
            self.parse_fn_expression_f(fuel - 1)
        } else if matches!(self.cur_tok(), Token::LBracket) {
            self.parse_array_literal_f(fuel - 1)
        } else if matches!(self.cur_tok(), Token::LBrace) {
            self.parse_hash_literal_f(fuel - 1)
        } else {
            match self.cur_tok() {
                Token::Ident(s) => Some(Expression::Ident(Ident(s.clone()))),
                Token::Int(i) => Some(Expression::Literal(Literal::Int(*i))),
                Token::Bool(b) => Some(Expression::Literal(Literal::Bool(*b))),
                Token::Str(s) => Some(Expression::Literal(Literal::String(s.clone()))),
                _ => None,
            }
        };
        proof {
            reveal_with_fuel(expr_v, 2);
        }
        match left {
            None => None,
            Some(l) => self.infix_loop_f(fuel - 1, precedence, l),
        }
    }

    fn infix_loop_f(&mut self, fuel: u64, precedence: Precedence, left: Expression) -> (r:
        Option<Expression>)
        requires
            old(self).wf(),
        ensures
            final(self).wf(),
            final(self).toks() == old(self).toks(),
            ({
                let (st1, rv) = sp_infix_loop(
                    fuel as nat,
                    old(self).toks(),
                    old(self).pst(),
                    precedence,
                    expr_v(left),
                );
                final(self).pst() == st1 && opt_expr_v(r) == rv
            }),
        decreases fuel,
    {
        if fuel == 0 {
            return None;
        }
        let peekp = self.next_token_precedence();
        if self.peek_token_is(&Token::SemiColon) || !precedence.lt(&peekp) {
            return Some(left);
        }
        if matches!(
            self.peek_tok(),
            Token::Plus | Token::Minus | Token::Asterisk | Token::Slash | Token::Percent
                | Token::Equal | Token::NotEq | Token::Lt | Token::LtEq | Token::Gt
                | Token::GtEq
        ) {
            self.next_token();
            let r = self.parse_infix_expression_f(fuel - 1, left);
            match r {
                None => None,
                Some(l2) => self.infix_loop_f(fuel - 1, precedence, l2),
            }
        } else if matches!(self.peek_tok(), Token::LParen) {
            self.next_token();
            let r = self.parse_call_expression_f(fuel - 1, left);
            match r {
                None => None,
                Some(l2) => self.infix_loop_f(fuel - 1, precedence, l2),
            }
        } else if matches!(self.peek_tok(), Token::LBracket) {
            self.next_token();
            let r = self.parse_index_expression_f(fuel - 1, left);
            match r {
                None => None,
                Some(l2) => self.infix_loop_f(fuel - 1, precedence, l2),
            }
        } else {
            Some(left)
        }
    }

    fn parse_prefix_expression_f(&mut self, fuel: u64, op: Prefix) -> (r: Option<Expression>)
        requires
            old(self).wf(),
        ensures
            final(self).wf(),
            final(self).toks() == old(self).toks(),
            ({
                let (st1, rv) = sp_parse_prefix(fuel as nat, old(self).toks(), old(self).pst(), op);
                final(self).pst() == st1 && opt_expr_v(r) == rv
            }),
        decreases fuel,
    {
        if fuel == 0 {
            return None;
        }
        self.next_token();
        match self.parse_expression_f(fuel - 1, Precedence::Prefix) {
            None => None,
            Some(e) => Some(Expression::Prefix(op, Box::new(e))),
        }
    }

    fn parse_infix_expression_f(&mut self, fuel: u64, left: Expression) -> (r: Option<
        Expression,
    >)
        requires
            old(self).wf(),
        ensures
            final(self).wf(),
            final(self).toks() == old(self).toks(),
            ({
                let (st1, rv) = sp_parse_infix_expr(
                    fuel as nat,
                    old(self).toks(),
                    old(self).pst(),
                    expr_v(left),
                );
                final(self).pst() == st1 && opt_expr_v(r) == rv
            }),
        decreases fuel,
    {
        if fuel == 0 {
            return None;
        }
        let op_opt: Option<Infix> = match self.cur_tok() {
            Token::Plus => Some(Infix::Plus),
            Token::Minus => Some(Infix::Minus),
            Token::Slash => Some(Infix::Divide),
            Token::Asterisk => Some(Infix::Multiply),
            Token::Percent => Some(Infix::Modulus),
            Token::Equal => Some(Infix::Equal),
            Token::NotEq => Some(Infix::NotEqual),
            Token::Lt => Some(Infix::LessThan),
            Token::Gt => Some(Infix::GreaterThan),
            Token::LtEq => Some(Infix::LessThanEqual),
            Token::GtEq => Some(Infix::GreaterThanEqual),
            _ => None,
        };
        let op = match op_opt {
            Some(o) => o,
            None => {
                return None;
            },
        };
        let precedence = self.current_token_precedence();
        self.next_token();
        match self.parse_expression_f(fuel - 1, precedence) {
            None => None,
            Some(e) => Some(Expression::Infix(op, Box::new(left), Box::new(e))),
        }
    }

    fn parse_grouped_expression_f(&mut self, fuel: u64) -> (r: Option<Expression>)
        requires
            old(self).wf(),
        ensures
            final(self).wf(),
            final(self).toks() == old(self).toks(),
            ({
                let (st1, rv) = sp_parse_grouped(fuel as nat, old(self).toks(), old(self).pst());
                final(self).pst() == st1 && opt_expr_v(r) == rv
            }),
        decreases fuel,
    {
        if fuel == 0 {
            return None;
        }
        self.next_token();
        let exp = self.parse_expression_f(fuel - 1, Precedence::Lowest);
        if !self.expect_peek(Token::RParen) {
            return None;
        }
        exp
    }

    fn parse_block_statement_f(&mut self, fuel: u64) -> (r: Vec<Statement>)
        requires
            old(self).wf(),
        ensures
            final(self).wf(),
            final(self).toks() == old(self).toks(),
            ({
                let (st1, out) = sp_parse_block(fuel as nat, old(self).toks(), old(self).pst());
                final(self).pst() == st1 && stmts_v(r@) == out
            }),
        decreases fuel,
    {
        if fuel == 0 {
            proof {
                assert(stmts_v(Seq::<Statement>::empty()) =~= Seq::<StmtV>::empty());
            }
            return Vec::new();
        }
        self.next_token();
        proof {
            assert(stmts_v(Seq::<Statement>::empty()) =~= Seq::<StmtV>::empty());
        }
        self.parse_block_rec(fuel - 1, Vec::new())
    }

    fn parse_block_rec(&mut self, fuel: u64, acc: Vec<Statement>) -> (r: Vec<Statement>)
        requires
            old(self).wf(),
        ensures
            final(self).wf(),
            final(self).toks() == old(self).toks(),
            ({
                let (st1, out) = sp_parse_block_rec(
                    fuel as nat,
                    old(self).toks(),
                    old(self).pst(),
                    stmts_v(acc@),
                );
                final(self).pst() == st1 && stmts_v(r@) == out
            }),
        decreases fuel,
    {
        if fuel == 0 {
            return acc;
        }
        if self.current_token_is(&Token::RBrace) || self.current_token_is(&Token::Eof) {
            return acc;
        }
        let stmt = self.parse_statement_f(fuel - 1);
        let mut acc = acc;
        match stmt {
            Some(st) => {
                let ghost prev = acc@;
                let ghost stg = st;
                acc.push(st);
                proof {
                    assert(acc@ =~= prev.push(stg));
                    lemma_stmts_v_push(prev, stg);
                }
            },
            None => {},
        }
        self.next_token();
        self.parse_block_rec(fuel - 1, acc)
    }

    fn parse_if_expression_f(&mut self, fuel: u64) -> (r: Option<Expression>)
        requires
            old(self).wf(),
        ensures
            final(self).wf(),
            final(self).toks() == old(self).toks(),
            ({
                let (st1, rv) = sp_parse_if(fuel as nat, old(self).toks(), old(self).pst());
                final(self).pst() == st1 && opt_expr_v(r) == rv
            }),
        decreases fuel,
    {
        if fuel == 0 {
            return None;
        }
        if !self.expect_peek(Token::LParen) {
            return None;
        }
        self.next_token();
        let cond = match self.parse_expression_f(fuel - 1, Precedence::Lowest) {
            Some(e) => e,
            None => {
                return None;
            },
        };
        if !self.expect_peek(Token::RParen) {
            return None;
        }
        if !self.expect_peek(Token::LBrace) {
            return None;
        }
        let cons = self.parse_block_statement_f(fuel - 1);
        if self.peek_token_is(&Token::Else) {
            self.next_token();
            if self.peek_token_is(&Token::If) {
                self.next_token();
                let else_if = match self.parse_if_expression_f(fuel - 1) {
                    Some(e) => e,
                    None => {
                        return None;
                    },
                };
                let mut alt: Vec<Statement> = Vec::new();
                let ghost eig = else_if;
                alt.push(Statement::Expression(else_if));
                proof {
                    assert(alt@ =~= Seq::<Statement>::empty().push(
                        Statement::Expression(eig),
                    ));
                    lemma_stmts_v_push(Seq::<Statement>::empty(), Statement::Expression(eig));
                    assert(stmts_v(Seq::<Statement>::empty()) =~= Seq::<StmtV>::empty());
                    assert(stmts_v(alt@) =~= seq![StmtV::Expr(expr_v(eig))]);
                }
                Some(
                    Expression::If {
                        condition: Box::new(cond),
                        consequence: cons,
                        alternative: Some(alt),
                    },
                )
            } else if !self.expect_peek(Token::LBrace) {
                None
            } else {
                let alt = self.parse_block_statement_f(fuel - 1);
                Some(
                    Expression::If {
                        condition: Box::new(cond),
                        consequence: cons,
                        alternative: Some(alt),
                    },
                )
            }
        } else {
            Some(
                Expression::If {
                    condition: Box::new(cond),
                    consequence: cons,
                    alternative: None,
                },
            )
        }
    }

    fn parse_fn_expression_f(&mut self, fuel: u64) -> (r: Option<Expression>)
        requires
            old(self).wf(),
        ensures
            final(self).wf(),
            final(self).toks() == old(self).toks(),
            ({
                let (st1, rv) = sp_parse_fn(fuel as nat, old(self).toks(), old(self).pst());
                final(self).pst() == st1 && opt_expr_v(r) == rv
            }),
        decreases fuel,
    {
        if fuel == 0 {
            return None;
        }
        if !self.expect_peek(Token::LParen) {
            return None;
        }
        let params = match self.parse_fn_params_f(fuel - 1) {
            Some(p) => p,
            None => {
                return None;
            },
        };
        if !self.expect_peek(Token::LBrace) {
            return None;
        }
        let body = self.parse_block_statement_f(fuel - 1);
        Some(Expression::Fn { params, body })
    }

    fn parse_fn_params_f(&mut self, fuel: u64) -> (r: Option<Vec<Ident>>)
        requires
            old(self).wf(),
        ensures
            final(self).wf(),
            final(self).toks() == old(self).toks(),
            ({
                let (st1, rv) = sp_parse_fn_params(fuel as nat, old(self).toks(), old(self).pst());
                final(self).pst() == st1 && (match r {
                    Some(v) => rv matches Some(ps) && idents_v(v@) == ps,
                    None => rv is None,
                })
            }),
        decreases fuel,
    {
        if fuel == 0 {
            return None;
        }
        if self.peek_token_is(&Token::RParen) {
            self.next_token();
            let out: Vec<Ident> = Vec::new();
            proof {
                assert(idents_v(out@) =~= Seq::<Seq<char>>::empty());
            }
            return Some(out);
        }
        self.next_token();
        let first: Option<String> = match self.cur_tok() {
            Token::Ident(s) => Some(s.clone()),
            _ => None,
        };
        let first = match first {
            Some(n) => n,
            None => {
                let msg = "Expected function parameter to be an identifier.".to_owned();
                let ghost before = errs_v(self.errors@);
                let ghost m = msg@;
                self.errors.push(msg);
                proof {
                    assert(errs_v(self.errors@) =~= before.push(m));
                }
                return None;
            },
        };
        if !(self.peek_token_is(&Token::Comma) || self.peek_token_is(&Token::RParen)) {
            let msg = "Expected function parameters to be seperated by a comma.`".to_owned();
            let ghost before = errs_v(self.errors@);
            let ghost m = msg@;
            self.errors.push(msg);
            proof {
                assert(errs_v(self.errors@) =~= before.push(m));
            }
            return None;
        }
        let mut idents: Vec<Ident> = Vec::new();
        let ghost firstg = first@;
        idents.push(Ident(first));
        proof {
            assert(idents_v(idents@) =~= seq![firstg]);
        }
        let more = match self.parse_fn_params_rec(fuel - 1, idents) {
            Some(v) => v,
            None => {
                return None;
            },
        };
        if !self.expect_peek(Token::RParen) {
            return None;
        }
        Some(more)
    }

    fn parse_fn_params_rec(&mut self, fuel: u64, acc: Vec<Ident>) -> (r: Option<Vec<Ident>>)
        requires
            old(self).wf(),
        ensures
            final(self).wf(),
            final(self).toks() == old(self).toks(),
            ({
                let (st1, rv) = sp_parse_fn_params_rec(
                    fuel as nat,
                    old(self).toks(),
                    old(self).pst(),
                    idents_v(acc@),
                );
                final(self).pst() == st1 && (match r {
                    Some(v) => rv matches Some(ps) && idents_v(v@) == ps,
                    None => rv is None,
                })
            }),
        decreases fuel,
    {
        if fuel == 0 {
            return None;
        }
        if !self.peek_token_is(&Token::Comma) {
            return Some(acc);
        }
        self.next_token();
        self.next_token();
        let name: Option<String> = match self.cur_tok() {
            Token::Ident(s) => Some(s.clone()),
            _ => None,
        };
        match name {
            Some(n) => {
                let mut acc = acc;
                let ghost prev = acc@;
                let ghost ng = n@;
                acc.push(Ident(n));
                proof {
                    assert(idents_v(acc@) =~= idents_v(prev).push(ng));
                }
                self.parse_fn_params_rec(fuel - 1, acc)
            },
            None => {
                let msg = "Expected function parameter to be an identifier.".to_owned();
                let ghost before = errs_v(self.errors@);
                let ghost m = msg@;
                self.errors.push(msg);
                proof {
                    assert(errs_v(self.errors@) =~= before.push(m));
                }
                None
            },
        }
    }

    fn parse_call_expression_f(&mut self, fuel: u64, left: Expression) -> (r: Option<
        Expression,
    >)
        requires
            old(self).wf(),
        ensures
            final(self).wf(),
            final(self).toks() == old(self).toks(),
            ({
                let (st1, rv) = sp_parse_call(
                    fuel as nat,
                    old(self).toks(),
                    old(self).pst(),
                    expr_v(left),
                );
                final(self).pst() == st1 && opt_expr_v(r) == rv
            }),
        decreases fuel,
    {
        if fuel == 0 {
            return None;
        }
        let args = match self.parse_exprs_until_f(fuel - 1, Token::RParen) {
            Some(a) => a,
            None => {
                return None;
            },
        };
        Some(Expression::Call { function: Box::new(left), args })
    }

    fn parse_index_expression_f(&mut self, fuel: u64, left: Expression) -> (r: Option<
        Expression,
    >)
        requires
            old(self).wf(),
        ensures
            final(self).wf(),
            final(self).toks() == old(self).toks(),
            ({
                let (st1, rv) = sp_parse_index(
                    fuel as nat,
                    old(self).toks(),
                    old(self).pst(),
                    expr_v(left),
                );
                final(self).pst() == st1 && opt_expr_v(r) == rv
            }),
        decreases fuel,
    {
        if fuel == 0 {
            return None;
        }
        self.next_token();
        let idx = match self.parse_expression_f(fuel - 1, Precedence::Lowest) {
            Some(e) => e,
            None => {
                return None;
            },
        };
        if !self.expect_peek(Token::RBracket) {
            return None;
        }
        Some(Expression::Index { left: Box::new(left), index: Box::new(idx) })
    }

    #[verifier::rlimit(60)]
    fn parse_array_literal_f(&mut self, fuel: u64) -> (r: Option<Expression>)
        requires
            old(self).wf(),
        ensures
            final(self).wf(),
            final(self).toks() == old(self).toks(),
            ({
                let (st1, rv) = sp_parse_array(fuel as nat, old(self).toks(), old(self).pst());
                final(self).pst() == st1 && opt_expr_v(r) == rv
            }),
        decreases fuel,
    {
        if fuel == 0 {
            return None;
        }
        let elems = match self.parse_exprs_until_f(fuel - 1, Token::RBracket) {
            Some(a) => a,
            None => {
                return None;
            },
        };
        proof {
            reveal_with_fuel(expr_v, 2);
        }
        Some(Expression::Literal(Literal::Array(elems)))
    }

    fn parse_exprs_until_f(&mut self, fuel: u64, end: Token) -> (r: Option<Vec<Expression>>)
        requires
            old(self).wf(),
        ensures
            final(self).wf(),
            final(self).toks() == old(self).toks(),
            ({
                let (st1, rv) = sp_parse_exprs_until(
                    fuel as nat,
                    old(self).toks(),
                    old(self).pst(),
                    end@,
                );
                final(self).pst() == st1 && (match r {
                    Some(v) => rv matches Some(es) && exprs_v(v@) == es,
                    None => rv is None,
                })
            }),
        decreases fuel,
    {
        if fuel == 0 {
            return None;
        }
        if self.peek_token_is(&end) {
            self.next_token();
            let out: Vec<Expression> = Vec::new();
            proof {
                assert(exprs_v(out@) =~= Seq::<ExprV>::empty());
            }
            return Some(out);
        }
        self.next_token();
        let first = match self.parse_expression_f(fuel - 1, Precedence::Lowest) {
            Some(e) => e,
            None => {
                return None;
            },
        };
        let mut args: Vec<Expression> = Vec::new();
        let ghost firstg = first;
        args.push(first);
        proof {
            assert(args@ =~= Seq::<Expression>::empty().push(firstg));
            lemma_exprs_v_push(Seq::<Expression>::empty(), firstg);
            assert(exprs_v(Seq::<Expression>::empty()) =~= Seq::<ExprV>::empty());
            assert(exprs_v(args@) =~= seq![expr_v(firstg)]);
        }
        let more = match self.parse_exprs_rec(fuel - 1, args) {
            Some(v) => v,
            None => {
                return None;
            },
        };
        if !self.expect_peek(end) {
            return None;
        }
        Some(more)
    }

    fn parse_exprs_rec(&mut self, fuel: u64, acc: Vec<Expression>) -> (r: Option<Vec<
        Expression,
    >>)
        requires
            old(self).wf(),
        ensures
            final(self).wf(),
            final(self).toks() == old(self).toks(),
            ({
                let (st1, rv) = sp_parse_exprs_rec(
                    fuel as nat,
                    old(self).toks(),
                    old(self).pst(),
                    exprs_v(acc@),
                );
                final(self).pst() == st1 && (match r {
                    Some(v) => rv matches Some(es) && exprs_v(v@) == es,
                    None => rv is None,
                })
            }),
        decreases fuel,
    {
        if fuel == 0 {
            return None;
        }
        if !self.peek_token_is(&Token::Comma) {
            return Some(acc);
        }
        self.next_token();
        self.next_token();
        match self.parse_expression_f(fuel - 1, Precedence::Lowest) {
            Some(e) => {
                let mut acc = acc;
                let ghost prev = acc@;
                let ghost eg = e;
                acc.push(e);
                proof {
                    assert(acc@ =~= prev.push(eg));
                    lemma_exprs_v_push(prev, eg);
                }
                self.parse_exprs_rec(fuel - 1, acc)
            },
            None => None,
        }
    }

    #[verifier::rlimit(60)]
    fn parse_hash_literal_f(&mut self, fuel: u64) -> (r: Option<Expression>)
        requires
            old(self).wf(),
        ensures
            final(self).wf(),
            final(self).toks() == old(self).toks(),
            ({
                let (st1, rv) = sp_parse_hash(fuel as nat, old(self).toks(), old(self).pst());
                final(self).pst() == st1 && opt_expr_v(r) == rv
            }),
        decreases fuel,
    {
        if fuel == 0 {
            return None;
        }
        proof {
            assert(pairs_v(Seq::<(Expression, Expression)>::empty()) =~= Seq::<(
                ExprV,
                ExprV,
            )>::empty());
        }
        let pairs = match self.parse_hash_rec(fuel - 1, Vec::new()) {
            Some(p) => p,
            None => {
                return None;
            },
        };
        if !self.expect_peek(Token::RBrace) {
            return None;
        }
        proof {
            reveal_with_fuel(expr_v, 2);
        }
        Some(Expression::Literal(Literal::Hash(pairs)))
    }

    fn parse_hash_rec(&mut self, fuel: u64, acc: Vec<(Expression, Expression)>) -> (r: Option<
        Vec<(Expression, Expression)>,
    >)
        requires
            old(self).wf(),
        ensures
            final(self).wf(),
            final(self).toks() == old(self).toks(),
            ({
                let (st1, rv) = sp_parse_hash_rec(
                    fuel as nat,
                    old(self).toks(),
                    old(self).pst(),
                    pairs_v(acc@),
                );
                final(self).pst() == st1 && (match r {
                    Some(v) => rv matches Some(ps) && pairs_v(v@) == ps,
                    None => rv is None,
                })
            }),
        decreases fuel,
    {
        if fuel == 0 {
            return None;
        }
        if self.peek_token_is(&Token::RBrace) {
            return Some(acc);
        }
        self.next_token();
        let key = match self.parse_expression_f(fuel - 1, Precedence::Lowest) {
            Some(e) => e,
            None => {
                return None;
            },
        };
        if !self.expect_peek(Token::Colon) {
            return None;
        }
        self.next_token();
        let value = match self.parse_expression_f(fuel - 1, Precedence::Lowest) {
            Some(e) => e,
            None => {
                return None;
            },
        };
        let mut acc = acc;
        let ghost prev = acc@;
        let ghost kg = key;
        let ghost vg = value;
        acc.push((key, value));
        proof {
            assert(acc@ =~= prev.push((kg, vg)));
            lemma_pairs_v_push(prev, (kg, vg));
        }
        if self.peek_token_is(&Token::RBrace) {
            self.parse_hash_rec(fuel - 1, acc)
        } else {
            if !self.expect_peek(Token::Comma) {
                return None;
            }
            self.parse_hash_rec(fuel - 1, acc)
        }
    }
}

} // verus!

