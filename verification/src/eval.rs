//! The tree-walking evaluator.
//!
//! Its semantics is the spec-level interpreter `sp_eval_program` /
//! `sp_eval_expr` below: a pure function from a scope arena, a current
//! scope, and an AST view to the new arena and the result. Every exec
//! method is proved to return exactly what the spec interpreter gives.
//!
//! Faults become `Error` values flowing through the ordinary value
//! channel; nothing here panics. Two explicit policies close gaps the
//! surface semantics leaves open: integer arithmetic wraps on overflow
//! (division by zero is a fault), and call nesting deeper than
//! [`RECURSION_LIMIT`] is a fault rather than unbounded host-stack
//! recursion. A faulting `if` condition, index operand, or infix operand
//! propagates its fault; an absent operand value yields an absent result.

use vstd::prelude::*;
use vstd::string::StringExecFns;
use crate::ast::{
    Expression, Statement, Literal, Ident, Prefix, Infix, ExprV, StmtV, LitV, Program,
    expr_v, stmt_v, lit_v, exprs_v, stmts_v, pairs_v, idents_v, program_v, infix_sym,
    lemma_exprs_v, lemma_stmts_v, lemma_pairs_v,
};
use crate::object::{
    Object, ObjV, BuiltinFn, obj_v, objs_v, opairs_v, opt_obj_v, obj_wf, objs_wf, opairs_wf,
    render_obj, dec_digits, render_u64, lemma_obj_wf_mono, lemma_objs_wf_mono, lemma_objs_v,
    lemma_objs_wf_index,
};
use crate::env::{Env, ScopeV, env_v, lookup_in};
use crate::builtins::{sp_builtin, sp_builtin_lookup, monkey_len, monkey_tail, monkey_push,
    lemma_sp_builtin_wf};

verus! {

/// The deepest call nesting the evaluator performs before it gives up
/// with a fault, instead of exhausting the host stack.
pub const RECURSION_LIMIT: u64 = 1000;

/// An operator fault message: `<prefix><left> <op> <right>`.
pub open spec fn msg_op(prefix: Seq<char>, l: ObjV, op: Infix, r: ObjV) -> Seq<char> {
    prefix + render_obj(l) + " "@ + infix_sym(op) + " "@ + render_obj(r)
}

/// The arity fault message for a call with the wrong argument count.
pub open spec fn msg_arity(nparams: int, nargs: int) -> Seq<char> {
    "expected arguments: "@ + dec_digits(nparams) + "\ngiven arguments: "@ + dec_digits(nargs)
}

/// Truthiness: anything except `Null` and `false` is truthy.
pub open spec fn is_truthy_v(o: ObjV) -> bool {
    match o {
        ObjV::Null => false,
        ObjV::Bool(b) => b,
        _ => true,
    }
}

/// Whether a value is a fault signal.
pub open spec fn is_error_v(o: ObjV) -> bool {
    o is Error
}

/// `!x`: truthiness inversion; never faults.
pub open spec fn sp_not(o: ObjV) -> ObjV {
    match o {
        ObjV::Bool(b) => ObjV::Bool(!b),
        ObjV::Null => ObjV::Bool(true),
        _ => ObjV::Bool(false),
    }
}

/// `-x`: requires an `Int`; negation wraps on the most negative value.
pub open spec fn sp_minus(o: ObjV) -> ObjV {
    match o {
        ObjV::Int(i) => ObjV::Int(vstd::wrapping::i32_specs::wrapping_sub(0, i)),
        _ => ObjV::Error("unknown operator: -"@ + render_obj(o)),
    }
}

/// `+x`: requires an `Int` and returns it unchanged.
pub open spec fn sp_plus_prefix(o: ObjV) -> ObjV {
    match o {
        ObjV::Int(i) => ObjV::Int(i),
        _ => ObjV::Error("unknown operator: +"@ + render_obj(o)),
    }
}

/// A unary operator applied to an operand; a fault operand propagates.
pub open spec fn sp_prefix(op: Prefix, o: ObjV) -> ObjV {
    if is_error_v(o) {
        o
    } else {
        match op {
            Prefix::Not => sp_not(o),
            Prefix::Minus => sp_minus(o),
            Prefix::Plus => sp_plus_prefix(o),
        }
    }
}

/// Integer operators. `+ - *` wrap on overflow; `/` truncates toward zero
/// and wraps on the one overflowing quotient; division or remainder by
/// zero is a fault.
pub open spec fn sp_int_infix(op: Infix, l: i32, r: i32) -> ObjV {
    match op {
        Infix::Plus => ObjV::Int(vstd::wrapping::i32_specs::wrapping_add(l, r)),
        Infix::Minus => ObjV::Int(vstd::wrapping::i32_specs::wrapping_sub(l, r)),
        Infix::Multiply => ObjV::Int(vstd::wrapping::i32_specs::wrapping_mul(l, r)),
        Infix::Divide => match l.checked_div(r) {
            Some(q) => ObjV::Int(q),
            None => if r == 0 {
                ObjV::Error(msg_op("division by zero: "@, ObjV::Int(l), op, ObjV::Int(r)))
            } else {
                ObjV::Int(i32::MIN)
            },
        },
        Infix::Modulus => match l.checked_rem(r) {
            Some(m) => ObjV::Int(m),
            None => if r == 0 {
                ObjV::Error(msg_op("division by zero: "@, ObjV::Int(l), op, ObjV::Int(r)))
            } else {
                ObjV::Int(0)
            },
        },
        Infix::LessThan => ObjV::Bool(l < r),
        Infix::LessThanEqual => ObjV::Bool(l <= r),
        Infix::GreaterThan => ObjV::Bool(l > r),
        Infix::GreaterThanEqual => ObjV::Bool(l >= r),
        Infix::Equal => ObjV::Bool(l == r),
        Infix::NotEqual => ObjV::Bool(l != r),
    }
}

/// String operators: only `+` (concatenation) is defined.
pub open spec fn sp_string_infix(op: Infix, l: Seq<char>, r: Seq<char>) -> ObjV {
    match op {
        Infix::Plus => ObjV::Str(l + r),
        _ => ObjV::Error(msg_op("unknown operator: "@, ObjV::Str(l), op, ObjV::Str(r))),
    }
}

/// The kind of a value, for the same-kind test binary operators make.
pub open spec fn obj_kind(o: ObjV) -> int {
    match o {
        ObjV::Int(_) => 0,
        ObjV::Str(_) => 1,
        ObjV::Bool(_) => 2,
        ObjV::Null => 3,
        ObjV::Return(_) => 4,
        ObjV::Error(_) => 5,
        ObjV::Fn(_, _, _) => 6,
        ObjV::Builtin(_) => 7,
        ObjV::Array(_) => 8,
        ObjV::Hash(_) => 9,
    }
}

/// A binary operator: operands of different kinds are a type mismatch;
/// a same-kind pair the operator is not defined on is an unknown
/// operator.
pub open spec fn sp_infix(op: Infix, l: ObjV, r: ObjV) -> ObjV {
    match l {
        ObjV::Int(a) => match r {
            ObjV::Int(b) => sp_int_infix(op, a, b),
            _ => ObjV::Error(msg_op("type mismatch: "@, l, op, r)),
        },
        ObjV::Str(a) => match r {
            ObjV::Str(b) => sp_string_infix(op, a, b),
            _ => ObjV::Error(msg_op("type mismatch: "@, l, op, r)),
        },
        _ => if obj_kind(l) == obj_kind(r) {
            ObjV::Error(msg_op("unknown operator: "@, l, op, r))
        } else {
            ObjV::Error(msg_op("type mismatch: "@, l, op, r))
        },
    }
}

/// Array indexing: out of range yields `Null`; a negative index counts
/// from the end, and an out-of-range negative index yields `Null`.
pub open spec fn sp_array_index(a: Seq<ObjV>, i: int) -> ObjV {
    if i < 0 {
        if 0 <= a.len() + i {
            a[a.len() + i]
        } else {
            ObjV::Null
        }
    } else if i < a.len() {
        a[i]
    } else {
        ObjV::Null
    }
}

/// The index operator: only `Array[Int]` is defined; every other
/// collection/index combination is an unknown-operator fault.
pub open spec fn sp_index(l: ObjV, idx: ObjV) -> ObjV {
    match l {
        ObjV::Array(a) => match idx {
            ObjV::Int(i) => sp_array_index(a, i as int),
            _ => ObjV::Error("unknown operator: "@ + render_obj(l) + " "@ + render_obj(idx)),
        },
        _ => ObjV::Error("unknown operator: "@ + render_obj(l) + " "@ + render_obj(idx)),
    }
}

/// Structural equality of hash keys, defined for the hashable kinds
/// alone (Int, Bool, String); a value of any other kind equals no key.
pub open spec fn hash_key_eq(a: ObjV, b: ObjV) -> bool {
    match (a, b) {
        (ObjV::Int(x), ObjV::Int(y)) => x == y,
        (ObjV::Bool(x), ObjV::Bool(y)) => x == y,
        (ObjV::Str(x), ObjV::Str(y)) => x == y,
        _ => false,
    }
}

/// Whether some entry of `ps` binds a key equal to `k`.
pub open spec fn opairs_has_key(ps: Seq<(ObjV, ObjV)>, k: ObjV) -> bool {
    exists|j: int| 0 <= j < ps.len() && hash_key_eq((#[trigger] ps[j]).0, k)
}

/// Hash entries as a mapping: a later binding of an equal hashable key
/// wins, so an entry survives only when no later entry binds an equal
/// key; surviving entries keep their order. Keys of other kinds have no
/// defined equality and are kept as written.
pub open spec fn dedup_pairs(ps: Seq<(ObjV, ObjV)>) -> Seq<(ObjV, ObjV)>
    decreases ps.len(),
{
    if ps.len() == 0 {
        Seq::empty()
    } else {
        let tail = ps.subrange(1, ps.len() as int);
        if opairs_has_key(tail, ps[0].0) {
            dedup_pairs(tail)
        } else {
            seq![ps[0]] + dedup_pairs(tail)
        }
    }
}

/// Unwraps a `Return` signal exactly once; an absent block value is
/// `Null` to the caller.
pub open spec fn sp_unwrap_return(o: Option<ObjV>) -> ObjV {
    match o {
        Some(ObjV::Return(b)) => *b,
        Some(x) => x,
        None => ObjV::Null,
    }
}

/// Positional parameter binding for a call.
pub open spec fn bind_params(params: Seq<Seq<char>>, args: Seq<ObjV>) -> Map<Seq<char>, ObjV>
    decreases params.len(),
{
    if params.len() == 0 || args.len() == 0 {
        Map::empty()
    } else {
        bind_params(
            params.subrange(0, params.len() - 1),
            args.subrange(0, args.len() - 1),
        ).insert(params[params.len() - 1], args[args.len() - 1])
    }
}

/// Identifier resolution: the builtin table is checked before the
/// environment, so builtins shadow user bindings of the same name; an
/// unbound name is a fault.
pub open spec fn sp_ident(sc: Seq<ScopeV>, cur: int, name: Seq<char>) -> ObjV {
    match sp_builtin_lookup(name) {
        Some(b) => b,
        None => match lookup_in(sc, cur, name) {
            Some(v) => v,
            None => ObjV::Error("identifier not found: "@ + name),
        },
    }
}

/// Evaluates one expression: the new arena and the result. `None` is the
/// absence of a value (an `if` with no taken branch), distinct from
/// `Null`.
pub open spec fn sp_eval_expr(fuel: nat, sc: Seq<ScopeV>, cur: int, e: ExprV) -> (
    Seq<ScopeV>,
    Option<ObjV>,
)
    decreases fuel, e, 0int,
{
    match e {
        ExprV::Ident(name) => (sc, Some(sp_ident(sc, cur, name))),
        ExprV::Literal(l) => {
            let (sc1, v) = sp_eval_lit(fuel, sc, cur, l);
            (sc1, Some(v))
        },
        ExprV::Prefix(op, inner) => {
            let (sc1, r) = sp_eval_expr(fuel, sc, cur, *inner);
            match r {
                None => (sc1, None),
                Some(o) => (sc1, Some(sp_prefix(op, o))),
            }
        },
        ExprV::Infix(op, l, r) => {
            let (sc1, lv) = sp_eval_expr(fuel, sc, cur, *l);
            let (sc2, rv) = sp_eval_expr(fuel, sc1, cur, *r);
            match lv {
                None => (sc2, None),
                Some(a) => if is_error_v(a) {
                    (sc2, Some(a))
                } else {
                    match rv {
                        None => (sc2, None),
                        Some(b) => if is_error_v(b) {
                            (sc2, Some(b))
                        } else {
                            (sc2, Some(sp_infix(op, a, b)))
                        },
                    }
                },
            }
        },
        ExprV::If { condition, consequence, alternative } => {
            let (sc1, c) = sp_eval_expr(fuel, sc, cur, *condition);
            match c {
                None => (sc1, None),
                Some(cv) => if is_error_v(cv) {
                    (sc1, Some(cv))
                } else if is_truthy_v(cv) {
                    sp_eval_block(fuel, sc1, cur, consequence, None)
                } else {
                    match alternative {
                        Some(alt) => sp_eval_block(fuel, sc1, cur, alt, None),
                        None => (sc1, None),
                    }
                },
            }
        },
        ExprV::Fn { params, body } => (sc, Some(ObjV::Fn(params, body, cur))),
        ExprV::Call { function, args } => {
            let (sc1, argvals) = sp_eval_exprs(fuel, sc, cur, args);
            let (sc2, r) = sp_apply_function(fuel, sc1, cur, *function, argvals);
            (sc2, Some(r))
        },
        ExprV::Index { left, index } => {
            let (sc1, lv) = sp_eval_expr(fuel, sc, cur, *left);
            let (sc2, iv) = sp_eval_expr(fuel, sc1, cur, *index);
            match lv {
                None => (sc2, None),
                Some(a) => if is_error_v(a) {
                    (sc2, Some(a))
                } else {
                    match iv {
                        None => (sc2, None),
                        Some(b) => if is_error_v(b) {
                            (sc2, Some(b))
                        } else {
                            (sc2, Some(sp_index(a, b)))
                        },
                    }
                },
            }
        },
    }
}

/// Evaluates a literal; literals always produce a value.
pub open spec fn sp_eval_lit(fuel: nat, sc: Seq<ScopeV>, cur: int, l: LitV) -> (
    Seq<ScopeV>,
    ObjV,
)
    decreases fuel, l, 0int,
{
    match l {
        LitV::Str(s) => (sc, ObjV::Str(s)),
        LitV::Int(i) => (sc, ObjV::Int(i)),
        LitV::Bool(b) => (sc, ObjV::Bool(b)),
        LitV::Array(elems) => {
            let (sc1, vals) = sp_eval_exprs(fuel, sc, cur, elems);
            (sc1, ObjV::Array(vals))
        },
        LitV::Hash(ps) => {
            let (sc1, pairs) = sp_eval_pairs(fuel, sc, cur, ps);
            (sc1, ObjV::Hash(dedup_pairs(pairs)))
        },
    }
}

/// Evaluates expressions left to right, in source order; an expression
/// that produces no value contributes `Null` (a fault value is kept as a
/// value). This is both array-element and call-argument evaluation.
pub open spec fn sp_eval_exprs(fuel: nat, sc: Seq<ScopeV>, cur: int, es: Seq<ExprV>) -> (
    Seq<ScopeV>,
    Seq<ObjV>,
)
    decreases fuel, es, 1int,
{
    if es.len() == 0 {
        (sc, Seq::empty())
    } else {
        let (sc1, r) = sp_eval_expr(fuel, sc, cur, es[0]);
        let v = match r {
            Some(x) => x,
            None => ObjV::Null,
        };
        let (sc2, rest) = sp_eval_exprs(fuel, sc1, cur, es.subrange(1, es.len() as int));
        (sc2, seq![v] + rest)
    }
}

/// Evaluates hash entries left to right, key before value, each missing
/// value replaced by `Null` as for arrays.
pub open spec fn sp_eval_pairs(
    fuel: nat,
    sc: Seq<ScopeV>,
    cur: int,
    ps: Seq<(ExprV, ExprV)>,
) -> (Seq<ScopeV>, Seq<(ObjV, ObjV)>)
    decreases fuel, ps, 1int,
{
    if ps.len() == 0 {
        (sc, Seq::empty())
    } else {
        let (sc1, kr) = sp_eval_expr(fuel, sc, cur, ps[0].0);
        let kv = match kr {
            Some(x) => x,
            None => ObjV::Null,
        };
        let (sc2, vr) = sp_eval_expr(fuel, sc1, cur, ps[0].1);
        let vv = match vr {
            Some(x) => x,
            None => ObjV::Null,
        };
        let (sc3, rest) = sp_eval_pairs(fuel, sc2, cur, ps.subrange(1, ps.len() as int));
        (sc3, seq![(kv, vv)] + rest)
    }
}

/// Evaluates one statement.
pub open spec fn sp_eval_stmt(fuel: nat, sc: Seq<ScopeV>, cur: int, st: StmtV) -> (
    Seq<ScopeV>,
    Option<ObjV>,
)
    decreases fuel, st, 0int,
{
    match st {
        StmtV::Expr(e) => sp_eval_expr(fuel, sc, cur, e),
        StmtV::Return(e) => {
            let (sc1, r) = sp_eval_expr(fuel, sc, cur, e);
            match r {
                None => (sc1, None),
                Some(v) => (sc1, Some(ObjV::Return(Box::new(v)))),
            }
        },
        StmtV::Let(name, e) => {
            let (sc1, r) = sp_eval_expr(fuel, sc, cur, e);
            match r {
                None => (sc1, None),
                Some(v) => if is_error_v(v) {
                    (sc1, Some(v))
                } else {
                    (
                        sc1.update(
                            cur,
                            ScopeV { map: sc1[cur].map.insert(name, v), parent: sc1[cur].parent },
                        ),
                        None,
                    )
                },
            }
        },
        StmtV::Import(_) => (sc, None),
    }
}

/// Evaluates the statements of a block in order. A `Return` or `Error`
/// from any statement stops the block and propagates unchanged; otherwise
/// the block's value is the last statement's value.
pub open spec fn sp_eval_block(
    fuel: nat,
    sc: Seq<ScopeV>,
    cur: int,
    sts: Seq<StmtV>,
    acc: Option<ObjV>,
) -> (Seq<ScopeV>, Option<ObjV>)
    decreases fuel, sts, 1int,
{
    if sts.len() == 0 {
        (sc, acc)
    } else {
        let (sc1, r) = sp_eval_stmt(fuel, sc, cur, sts[0]);
        match r {
            Some(ObjV::Return(b)) => (sc1, Some(ObjV::Return(b))),
            Some(ObjV::Error(m)) => (sc1, Some(ObjV::Error(m))),
            _ => sp_eval_block(fuel, sc1, cur, sts.subrange(1, sts.len() as int), r),
        }
    }
}

/// Evaluates a whole program: like a block, but an `Error` is returned as
/// the program's value and a `Return` is unwrapped once.
pub open spec fn sp_eval_program(
    fuel: nat,
    sc: Seq<ScopeV>,
    cur: int,
    sts: Seq<StmtV>,
    acc: Option<ObjV>,
) -> (Seq<ScopeV>, Option<ObjV>)
    decreases fuel, sts, 1int,
{
    if sts.len() == 0 {
        (sc, acc)
    } else {
        let (sc1, r) = sp_eval_stmt(fuel, sc, cur, sts[0]);
        match r {
            Some(ObjV::Return(b)) => (sc1, Some(*b)),
            Some(ObjV::Error(m)) => (sc1, Some(ObjV::Error(m))),
            _ => sp_eval_program(fuel, sc1, cur, sts.subrange(1, sts.len() as int), r),
        }
    }
}

/// Evaluates the callee of a call and dispatches. A user function is
/// applied: at the recursion limit the call is a fault; an arity mismatch
/// is a fault and never a panic; otherwise a fresh scope enclosing the
/// function's captured scope is pushed, the parameters are bound
/// positionally, the body runs in that scope one fuel unit down, and one
/// `Return` wrapper is unwrapped. A builtin is invoked directly. Any
/// other callee is a fault, and an absent callee yields `Null`.
pub open spec fn sp_apply_function(
    fuel: nat,
    sc: Seq<ScopeV>,
    cur: int,
    fexpr: ExprV,
    args: Seq<ObjV>,
) -> (Seq<ScopeV>, ObjV)
    decreases fuel, fexpr, 1int,
{
    let (sc1, fres) = sp_eval_expr(fuel, sc, cur, fexpr);
    match fres {
        None => (sc1, ObjV::Null),
        Some(fv) => match fv {
            ObjV::Fn(params, body, fenv) => if fuel == 0 {
                (sc1, ObjV::Error("recursion limit exceeded"@))
            } else if params.len() != args.len() {
                (sc1, ObjV::Error(msg_arity(params.len() as int, args.len() as int)))
            } else {
                let newid = sc1.len() as int;
                let sc2 = sc1.push(
                    ScopeV { map: bind_params(params, args), parent: Some(fenv) },
                );
                let (sc3, r) = sp_eval_block((fuel - 1) as nat, sc2, newid, body, None);
                (sc3, sp_unwrap_return(r))
            },
            ObjV::Builtin(f) => (sc1, sp_builtin(f, args)),
            _ => (sc1, ObjV::Error("function not found: "@ + render_obj(fv))),
        },
    }
}


/// The result of a unary operator stays well formed: it is either the
/// operand itself or a fresh scalar.
pub proof fn lemma_sp_prefix_wf(op: Prefix, o: ObjV, n: int)
    requires
        obj_wf(o, n),
    ensures
        obj_wf(sp_prefix(op, o), n),
{
}

/// The result of a binary operator is a scalar or a fault: well formed
/// against any arena.
pub proof fn lemma_sp_infix_wf(op: Infix, l: ObjV, r: ObjV, n: int)
    ensures
        obj_wf(sp_infix(op, l, r), n),
{
}

/// The result of indexing is an element of the collection or a scalar.
pub proof fn lemma_sp_index_wf(l: ObjV, idx: ObjV, n: int)
    requires
        obj_wf(l, n),
        obj_wf(idx, n),
    ensures
        obj_wf(sp_index(l, idx), n),
{
    match l {
        ObjV::Array(a) => {
            lemma_objs_wf_index(a, n);
        },
        _ => {},
    }
}

/// Unwrapping a `Return` preserves well-formedness.
pub proof fn lemma_sp_unwrap_wf(o: Option<ObjV>, n: int)
    requires
        o matches Some(x) ==> obj_wf(x, n),
    ensures
        obj_wf(sp_unwrap_return(o), n),
{
}

/// Deduplication keeps only entries of the original sequence, so it
/// preserves well-formedness.
proof fn lemma_dedup_pairs_wf(ps: Seq<(ObjV, ObjV)>, n: int)
    requires
        opairs_wf(ps, n),
    ensures
        opairs_wf(dedup_pairs(ps), n),
    decreases ps.len(),
{
    lemma_opairs_wf_index_all(ps, n);
    if ps.len() > 0 {
        let tail = ps.subrange(1, ps.len() as int);
        lemma_opairs_wf_index_all(tail, n);
        assert(forall|i: int| 0 <= i < tail.len() ==> #[trigger] tail[i] == ps[i + 1]);
        lemma_dedup_pairs_wf(tail, n);
        if !opairs_has_key(tail, ps[0].0) {
            let d = seq![ps[0]] + dedup_pairs(tail);
            lemma_opairs_wf_index_all(dedup_pairs(tail), n);
            lemma_opairs_wf_index_all(d, n);
        }
    }
}

/// Structural key equality for the hashable kinds.
fn hash_key_eq_exec(a: &Object, b: &Object) -> (r: bool)
    ensures
        r == hash_key_eq(obj_v(*a), obj_v(*b)),
{
    match (a, b) {
        (Object::Int(x), Object::Int(y)) => x == y,
        (Object::Bool(x), Object::Bool(y)) => x == y,
        (Object::String(x), Object::String(y)) => crate::lexer::str_eq(x.as_str(), y.as_str()),
        _ => false,
    }
}

/// Whether some entry of `v` binds a key equal to `k`.
fn contains_hash_key(v: &Vec<(Object, Object)>, k: &Object) -> (r: bool)
    ensures
        r == opairs_has_key(opairs_v(v@), obj_v(*k)),
{
    proof {
        crate::object::lemma_opairs_v(v@);
    }
    let mut j: usize = 0;
    while j < v.len()
        invariant
            j <= v@.len(),
            opairs_v(v@).len() == v@.len(),
            forall|m: int|
                0 <= m < v@.len() ==> #[trigger] opairs_v(v@)[m] == (
                    obj_v(v@[m].0),
                    obj_v(v@[m].1),
                ),
            forall|m: int|
                0 <= m < j ==> !hash_key_eq((#[trigger] opairs_v(v@)[m]).0, obj_v(*k)),
        decreases v@.len() - j,
    {
        if hash_key_eq_exec(&v[j].0, k) {
            proof {
                assert(hash_key_eq((opairs_v(v@)[j as int]).0, obj_v(*k)));
            }
            return true;
        }
        j += 1;
    }
    false
}

/// Deduplicates evaluated hash entries: a later binding of an equal
/// hashable key replaces the earlier one.
fn dedup_hash_pairs(v: Vec<(Object, Object)>) -> (r: Vec<(Object, Object)>)
    ensures
        opairs_v(r@) == dedup_pairs(opairs_v(v@)),
    decreases v@.len(),
{
    let ghost v0 = v@;
    let ghost wholev = opairs_v(v@);
    let mut v = v;
    if v.len() == 0 {
        proof {
            assert(opairs_v(v@) =~= Seq::<(ObjV, ObjV)>::empty());
        }
        return v;
    }
    let first = v.remove(0);
    let ghost firstg = first;
    proof {
        crate::object::lemma_opairs_v(v0);
        crate::object::lemma_opairs_v(v@);
        assert(v@ =~= v0.subrange(1, v0.len() as int));
        assert(wholev[0] == (obj_v(firstg.0), obj_v(firstg.1)));
        assert(wholev.subrange(1, wholev.len() as int) =~= opairs_v(v@));
    }
    let has = contains_hash_key(&v, &first.0);
    let rest = dedup_hash_pairs(v);
    if has {
        rest
    } else {
        let ghost restg = rest@;
        let mut out = rest;
        out.insert(0, first);
        proof {
            assert(out@ =~= seq![firstg] + restg);
            crate::object::lemma_opairs_v(out@);
            crate::object::lemma_opairs_v(restg);
            assert(opairs_v(out@) =~= seq![(obj_v(firstg.0), obj_v(firstg.1))] + opairs_v(
                restg,
            ));
        }
        out
    }
}

/// The kind tag of a value, matching [`obj_kind`].
fn kind_tag(o: &Object) -> (k: u8)
    ensures
        k as int == obj_kind(obj_v(*o)),
{
    match o {
        Object::Int(_) => 0,
        Object::String(_) => 1,
        Object::Bool(_) => 2,
        Object::Null => 3,
        Object::Return(_) => 4,
        Object::Error(_) => 5,
        Object::Fn(_, _, _) => 6,
        Object::Builtin(_) => 7,
        Object::Array(_) => 8,
        Object::Hash(_) => 9,
    }
}

/// An operator fault message, rendered: `<prefix><left> <op> <right>`.
fn msg_op_exec(prefix: &str, l: &Object, op: Infix, r: &Object) -> (m: String)
    ensures
        m@ == msg_op(prefix@, obj_v(*l), op, obj_v(*r)),
{
    let mut m = prefix.to_owned();
    m.append(l.render().as_str());
    m.append(" ");
    m.append(op.symbol());
    m.append(" ");
    m.append(r.render().as_str());
    m
}

/// The evaluator: owns the scope arena and the index of the scope the
/// running code sees. Function calls push scopes onto the arena; the
/// arena only ever grows, so captured scopes stay alive as long as the
/// evaluator does.
pub struct Eval {
    pub env: Env,
    pub scope: usize,
}

impl Eval {
    /// Well-formedness: the arena is well formed and the current scope is
    /// inside it.
    pub open spec fn wf(&self) -> bool {
        self.env.wf() && self.scope < self.env.scopes@.len()
    }

    /// An evaluator over `env`, starting in the root scope.
    pub fn new(env: Env) -> (ev: Eval)
        requires
            env.wf(),
        ensures
            ev.wf(),
            ev.env == env,
            ev.scope == 0,
    {
        Eval { env, scope: 0 }
    }

    /// Runs a program: statements execute in order; an `Error` from any
    /// statement becomes the program's value and stops it, a `return`
    /// stops it with the returned value, and otherwise the value is the
    /// last statement's. The result and the final arena are exactly what
    /// the spec interpreter gives at fuel [`RECURSION_LIMIT`].
    pub fn eval(&mut self, program: Program) -> (r: Option<Object>)
        requires
            old(self).wf(),
        ensures
            final(self).wf(),
            final(self).scope == old(self).scope,
            final(self).env.len() >= old(self).env.len(),
            ({
                let (sc1, rv) = sp_eval_program(
                    RECURSION_LIMIT as nat,
                    env_v(old(self).env),
                    old(self).scope as int,
                    program_v(program),
                    None,
                );
                env_v(final(self).env) == sc1 && opt_obj_v(r) == rv
            }),
    {
        let stmts = program.statements;
        proof {
            assert(stmts_v(stmts@).subrange(0, stmts_v(stmts@).len() as int) =~= stmts_v(stmts@));
            lemma_stmts_v(stmts@);
        }
        self.eval_program_from(RECURSION_LIMIT, &stmts, 0, None)
    }

    /// Truthiness of a value: anything except `Null` and `false`.
    fn is_truthy(&self, object: &Object) -> (r: bool)
        ensures
            r == is_truthy_v(obj_v(*object)),
    {
        !(matches!(object, Object::Null | Object::Bool(false)))
    }

    /// Whether a value is a fault signal.
    fn is_error(&self, object: &Object) -> (r: bool)
        ensures
            r == is_error_v(obj_v(*object)),
    {
        matches!(object, Object::Error(_))
    }

    /// Runs the statements of a program from index `from` on.
    fn eval_program_from(
        &mut self,
        fuel: u64,
        sts: &Vec<Statement>,
        from: usize,
        acc: Option<Object>,
    ) -> (r: Option<Object>)
        requires
            old(self).wf(),
            from <= sts@.len(),
            acc matches Some(o) ==> obj_wf(obj_v(o), old(self).env.len()),
        ensures
            final(self).wf(),
            final(self).scope == old(self).scope,
            final(self).env.len() >= old(self).env.len(),
            r matches Some(o) ==> obj_wf(obj_v(o), final(self).env.len()),
            ({
                let (sc1, rv) = sp_eval_program(
                    fuel as nat,
                    env_v(old(self).env),
                    old(self).scope as int,
                    stmts_v(sts@).subrange(from as int, sts@.len() as int),
                    opt_obj_v(acc),
                );
                env_v(final(self).env) == sc1 && opt_obj_v(r) == rv
            }),
        decreases fuel, sts@.subrange(from as int, sts@.len() as int), 1int,
    {
        proof {
            lemma_stmts_v(sts@);
        }
        if from >= sts.len() {
            proof {
                assert(stmts_v(sts@).subrange(from as int, sts@.len() as int)
                    =~= Seq::<StmtV>::empty());
            }
            return acc;
        }
        let ghost sub = sts@.subrange(from as int, sts@.len() as int);
        proof {
            assert(sub[0] == sts@[from as int]);
            assert(decreases_to!(sub => sub[0]));
            assert(stmts_v(sts@).subrange(from as int, sts@.len() as int).subrange(
                1,
                sts@.len() - from,
            ) =~= stmts_v(sts@).subrange(from + 1, sts@.len() as int));
        }
        let r = self.eval_statement(fuel, &sts[from]);
        proof {
            assert(sub.subrange(1, sub.len() as int) =~= sts@.subrange(
                from + 1,
                sts@.len() as int,
            ));
            assert(decreases_to!(sub => sub.subrange(1, sub.len() as int)));
        }
        match r {
            Some(Object::Error(m)) => Some(Object::Error(m)),
            Some(Object::Return(b)) => Some(*b),
            _ => self.eval_program_from(fuel, sts, from + 1, r),
        }
    }

    /// Evaluates one statement.
    fn eval_statement(&mut self, fuel: u64, statement: &Statement) -> (r: Option<Object>)
        requires
            old(self).wf(),
        ensures
            final(self).wf(),
            final(self).scope == old(self).scope,
            final(self).env.len() >= old(self).env.len(),
            r matches Some(o) ==> obj_wf(obj_v(o), final(self).env.len()),
            ({
                let (sc1, rv) = sp_eval_stmt(
                    fuel as nat,
                    env_v(old(self).env),
                    old(self).scope as int,
                    stmt_v(*statement),
                );
                env_v(final(self).env) == sc1 && opt_obj_v(r) == rv
            }),
        decreases fuel, statement, 0int,
    {
        match statement {
            Statement::Expression(e) => self.eval_expr(fuel, e),
            Statement::Return(e) => {
                let val = match self.eval_expr(fuel, e) {
                    Some(v) => v,
                    None => {
                        return None;
                    },
                };
                Some(Object::Return(Box::new(val)))
            },
            Statement::Let(i, v) => {
                let val = match self.eval_expr(fuel, v) {
                    Some(value) => value,
                    None => {
                        return None;
                    },
                };
                if self.is_error(&val) {
                    Some(val)
                } else {
                    self.env.set(self.scope, i.0.clone(), val);
                    None
                }
            },
            Statement::Import(_) => {
                // Import resolution is the host's concern: the loader
                // parses the named library and copies its bindings in.
                None
            },
        }
    }

    /// Runs the statements of a block from index `from` on.
    fn eval_block_from(
        &mut self,
        fuel: u64,
        sts: &Vec<Statement>,
        from: usize,
        acc: Option<Object>,
    ) -> (r: Option<Object>)
        requires
            old(self).wf(),
            from <= sts@.len(),
            acc matches Some(o) ==> obj_wf(obj_v(o), old(self).env.len()),
        ensures
            final(self).wf(),
            final(self).scope == old(self).scope,
            final(self).env.len() >= old(self).env.len(),
            r matches Some(o) ==> obj_wf(obj_v(o), final(self).env.len()),
            ({
                let (sc1, rv) = sp_eval_block(
                    fuel as nat,
                    env_v(old(self).env),
                    old(self).scope as int,
                    stmts_v(sts@).subrange(from as int, sts@.len() as int),
                    opt_obj_v(acc),
                );
                env_v(final(self).env) == sc1 && opt_obj_v(r) == rv
            }),
        decreases fuel, sts@.subrange(from as int, sts@.len() as int), 1int,
    {
        proof {
            lemma_stmts_v(sts@);
        }
        if from >= sts.len() {
            proof {
                assert(stmts_v(sts@).subrange(from as int, sts@.len() as int)
                    =~= Seq::<StmtV>::empty());
            }
            return acc;
        }
        let ghost sub = sts@.subrange(from as int, sts@.len() as int);
        proof {
            assert(sub[0] == sts@[from as int]);
            assert(decreases_to!(sub => sub[0]));
        }
        let r = self.eval_statement(fuel, &sts[from]);
        proof {
            assert(sub.subrange(1, sub.len() as int) =~= sts@.subrange(
                from + 1,
                sts@.len() as int,
            ));
            assert(stmts_v(sts@).subrange(from as int, sts@.len() as int).subrange(
                1,
                sts@.len() - from,
            ) =~= stmts_v(sts@).subrange(from + 1, sts@.len() as int));
            assert(decreases_to!(sub => sub.subrange(1, sub.len() as int)));
        }
        match r {
            Some(Object::Return(e)) => Some(Object::Return(e)),
            Some(Object::Error(e)) => Some(Object::Error(e)),
            _ => self.eval_block_from(fuel, sts, from + 1, r),
        }
    }

    /// Evaluates a block of statements; `Return` and `Error` stop it and
    /// propagate unchanged.
    fn eval_block_statement(&mut self, fuel: u64, statements: &Vec<Statement>) -> (r: Option<
        Object,
    >)
        requires
            old(self).wf(),
        ensures
            final(self).wf(),
            final(self).scope == old(self).scope,
            final(self).env.len() >= old(self).env.len(),
            r matches Some(o) ==> obj_wf(obj_v(o), final(self).env.len()),
            ({
                let (sc1, rv) = sp_eval_block(
                    fuel as nat,
                    env_v(old(self).env),
                    old(self).scope as int,
                    stmts_v(statements@),
                    None,
                );
                env_v(final(self).env) == sc1 && opt_obj_v(r) == rv
            }),
        decreases fuel, statements@, 2int,
    {
        proof {
            lemma_stmts_v(statements@);
            assert(stmts_v(statements@).subrange(0, statements@.len() as int)
                =~= stmts_v(statements@));
            assert(statements@.subrange(0, statements@.len() as int) =~= statements@);
        }
        self.eval_block_from(fuel, statements, 0, None)
    }

    /// Evaluates one expression. `None` is the absence of a value (an
    /// `if` whose condition held no branch), distinct from `Null`.
    fn eval_expr(&mut self, fuel: u64, expr: &Expression) -> (r: Option<Object>)
        requires
            old(self).wf(),
        ensures
            final(self).wf(),
            final(self).scope == old(self).scope,
            final(self).env.len() >= old(self).env.len(),
            r matches Some(o) ==> obj_wf(obj_v(o), final(self).env.len()),
            ({
                let (sc1, rv) = sp_eval_expr(
                    fuel as nat,
                    env_v(old(self).env),
                    old(self).scope as int,
                    expr_v(*expr),
                );
                env_v(final(self).env) == sc1 && opt_obj_v(r) == rv
            }),
        decreases fuel, expr, 1int,
    {
        match expr {
            Expression::Ident(ident) => Some(self.eval_ident(ident)),
            Expression::Literal(lit) => Some(self.eval_literal(fuel, lit)),
            Expression::Prefix(prefix, right) => {
                let r = self.eval_expr(fuel, right);
                match r {
                    None => None,
                    Some(o) => {
                        proof {
                            lemma_sp_prefix_wf(
                                *prefix,
                                obj_v(o),
                                self.env.len(),
                            );
                        }
                        Some(self.eval_prefix_expr(*prefix, o))
                    },
                }
            },
            Expression::Infix(infix, left, right) => {
                let lv = self.eval_expr(fuel, left);
                let ghost mid = self.env.len();
                let rv = self.eval_expr(fuel, right);
                match lv {
                    None => None,
                    Some(a) => {
                        proof {
                            lemma_obj_wf_mono(obj_v(a), mid, self.env.len());
                        }
                        if self.is_error(&a) {
                            Some(a)
                        } else {
                            match rv {
                                None => None,
                                Some(b) => if self.is_error(&b) {
                                    Some(b)
                                } else {
                                    proof {
                                        lemma_sp_infix_wf(
                                            *infix,
                                            obj_v(a),
                                            obj_v(b),
                                            self.env.len(),
                                        );
                                    }
                                    Some(self.eval_infix_expr(*infix, a, b))
                                },
                            }
                        }
                    },
                }
            },
            Expression::If { condition, consequence, alternative } => {
                let cond_expr = match self.eval_expr(fuel, condition) {
                    Some(e) => e,
                    None => {
                        return None;
                    },
                };
                if self.is_error(&cond_expr) {
                    Some(cond_expr)
                } else if self.is_truthy(&cond_expr) {
                    self.eval_block_statement(fuel, consequence)
                } else if let Some(a) = alternative {
                    self.eval_block_statement(fuel, a)
                } else {
                    None
                }
            },
            Expression::Fn { params, body } => {
                let ps = crate::ast::clone_idents(params);
                let bd = crate::ast::clone_stmts(body);
                Some(Object::Fn(ps, bd, self.scope))
            },
            Expression::Call { function, args } => {
                proof {
                    assert(args@.subrange(0, args@.len() as int) =~= args@);
                    assert(decreases_to!(*expr => args@));
                }
                let argvals = self.eval_exprs_from(fuel, args, 0);
                proof {
                    lemma_exprs_v(args@);
                    assert(exprs_v(args@).subrange(0, exprs_v(args@).len() as int)
                        =~= exprs_v(args@));
                }
                Some(self.apply_function(fuel, function, argvals))
            },
            Expression::Index { left, index } => {
                let lv = self.eval_expr(fuel, left);
                let ghost mid = self.env.len();
                let iv = self.eval_expr(fuel, index);
                match lv {
                    None => None,
                    Some(a) => {
                        proof {
                            lemma_obj_wf_mono(obj_v(a), mid, self.env.len());
                        }
                        if self.is_error(&a) {
                            Some(a)
                        } else {
                            match iv {
                                None => None,
                                Some(b) => if self.is_error(&b) {
                                    Some(b)
                                } else {
                                    proof {
                                        lemma_sp_index_wf(
                                            obj_v(a),
                                            obj_v(b),
                                            self.env.len(),
                                        );
                                    }
                                    Some(self.eval_index_expr(a, b))
                                },
                            }
                        }
                    },
                }
            },
        }
    }

    /// Evaluates the expressions of `v` from index `from` on, left to
    /// right; a missing value becomes `Null`.
    fn eval_exprs_from(&mut self, fuel: u64, v: &Vec<Expression>, from: usize) -> (out: Vec<
        Object,
    >)
        requires
            old(self).wf(),
            from <= v@.len(),
        ensures
            final(self).wf(),
            final(self).scope == old(self).scope,
            final(self).env.len() >= old(self).env.len(),
            objs_wf(objs_v(out@), final(self).env.len()),
            ({
                let (sc1, vals) = sp_eval_exprs(
                    fuel as nat,
                    env_v(old(self).env),
                    old(self).scope as int,
                    exprs_v(v@).subrange(from as int, v@.len() as int),
                );
                env_v(final(self).env) == sc1 && objs_v(out@) == vals
            }),
        decreases fuel, v@.subrange(from as int, v@.len() as int), 1int,
    {
        proof {
            lemma_exprs_v(v@);
        }
        if from >= v.len() {
            proof {
                assert(exprs_v(v@).subrange(from as int, v@.len() as int)
                    =~= Seq::<ExprV>::empty());
                assert(objs_v(Seq::<Object>::empty()) =~= Seq::<ObjV>::empty());
            }
            return Vec::new();
        }
        let ghost sub = v@.subrange(from as int, v@.len() as int);
        proof {
            assert(sub[0] == v@[from as int]);
            assert(decreases_to!(sub => sub[0]));
        }
        let r = self.eval_expr(fuel, &v[from]);
        let val = match r {
            Some(x) => x,
            None => Object::Null,
        };
        let ghost mid = self.env.len();
        proof {
            assert(sub.subrange(1, sub.len() as int) =~= v@.subrange(from + 1, v@.len() as int));
            assert(exprs_v(v@).subrange(from as int, v@.len() as int).subrange(
                1,
                v@.len() - from,
            ) =~= exprs_v(v@).subrange(from + 1, v@.len() as int));
            assert(decreases_to!(sub => sub.subrange(1, sub.len() as int)));
        }
        let mut rest = self.eval_exprs_from(fuel, v, from + 1);
        let ghost valg = val;
        let ghost restg = rest@;
        let mut out: Vec<Object> = Vec::new();
        out.push(val);
        out.append(&mut rest);
        proof {
            assert(out@ =~= seq![valg] + restg);
            lemma_objs_v(out@);
            lemma_objs_v(restg);
            assert(objs_v(out@) =~= seq![obj_v(valg)] + objs_v(restg));
            lemma_obj_wf_mono(obj_v(valg), mid, self.env.len());
            lemma_objs_wf_index(objs_v(restg), self.env.len());
            lemma_objs_wf_index(objs_v(out@), self.env.len());
        }
        out
    }

    /// Evaluates the entries of a hash literal from index `from` on, key
    /// before value, left to right.
    fn eval_pairs_from(
        &mut self,
        fuel: u64,
        v: &Vec<(Expression, Expression)>,
        from: usize,
    ) -> (out: Vec<(Object, Object)>)
        requires
            old(self).wf(),
            from <= v@.len(),
        ensures
            final(self).wf(),
            final(self).scope == old(self).scope,
            final(self).env.len() >= old(self).env.len(),
            opairs_wf(opairs_v(out@), final(self).env.len()),
            ({
                let (sc1, vals) = sp_eval_pairs(
                    fuel as nat,
                    env_v(old(self).env),
                    old(self).scope as int,
                    pairs_v(v@).subrange(from as int, v@.len() as int),
                );
                env_v(final(self).env) == sc1 && opairs_v(out@) == vals
            }),
        decreases fuel, v@.subrange(from as int, v@.len() as int), 1int,
    {
        proof {
            lemma_pairs_v(v@);
        }
        if from >= v.len() {
            proof {
                assert(pairs_v(v@).subrange(from as int, v@.len() as int)
                    =~= Seq::<(ExprV, ExprV)>::empty());
                assert(opairs_v(Seq::<(Object, Object)>::empty()) =~= Seq::<(ObjV, ObjV)>::empty());
            }
            return Vec::new();
        }
        let ghost sub = v@.subrange(from as int, v@.len() as int);
        proof {
            assert(sub[0] == v@[from as int]);
            assert(decreases_to!(sub => sub[0]));
            assert(decreases_to!(sub[0] => sub[0].0));
            assert(decreases_to!(sub[0] => sub[0].1));
        }
        let kr = self.eval_expr(fuel, &v[from].0);
        let kv = match kr {
            Some(x) => x,
            None => Object::Null,
        };
        let ghost mid1 = self.env.len();
        let vr = self.eval_expr(fuel, &v[from].1);
        let vv = match vr {
            Some(x) => x,
            None => Object::Null,
        };
        let ghost mid2 = self.env.len();
        proof {
            assert(sub.subrange(1, sub.len() as int) =~= v@.subrange(from + 1, v@.len() as int));
            assert(pairs_v(v@).subrange(from as int, v@.len() as int).subrange(
                1,
                v@.len() - from,
            ) =~= pairs_v(v@).subrange(from + 1, v@.len() as int));
            assert(decreases_to!(sub => sub.subrange(1, sub.len() as int)));
        }
        let mut rest = self.eval_pairs_from(fuel, v, from + 1);
        let ghost kg = kv;
        let ghost vg = vv;
        let ghost restg = rest@;
        let mut out: Vec<(Object, Object)> = Vec::new();
        out.push((kv, vv));
        out.append(&mut rest);
        proof {
            assert(out@ =~= seq![(kg, vg)] + restg);
            crate::object::lemma_opairs_v(out@);
            crate::object::lemma_opairs_v(restg);
            assert(opairs_v(out@) =~= seq![(obj_v(kg), obj_v(vg))] + opairs_v(restg));
            lemma_obj_wf_mono(obj_v(kg), mid1, self.env.len());
            lemma_obj_wf_mono(obj_v(vg), mid2, self.env.len());
            lemma_opairs_wf_index_all(opairs_v(restg), self.env.len());
            lemma_opairs_wf_index_all(opairs_v(out@), self.env.len());
        }
        out
    }

    /// Evaluates a literal; literals always produce a value.
    fn eval_literal(&mut self, fuel: u64, lit: &Literal) -> (r: Object)
        requires
            old(self).wf(),
        ensures
            final(self).wf(),
            final(self).scope == old(self).scope,
            final(self).env.len() >= old(self).env.len(),
            obj_wf(obj_v(r), final(self).env.len()),
            ({
                let (sc1, rv) = sp_eval_lit(
                    fuel as nat,
                    env_v(old(self).env),
                    old(self).scope as int,
                    lit_v(*lit),
                );
                env_v(final(self).env) == sc1 && obj_v(r) == rv
            }),
        decreases fuel, lit, 0int,
    {
        match lit {
            Literal::String(s) => Object::String(s.clone()),
            Literal::Int(i) => Object::Int(*i),
            Literal::Bool(b) => Object::Bool(*b),
            Literal::Array(a) => {
                proof {
                    assert(exprs_v(a@).subrange(0, exprs_v(a@).len() as int) =~= exprs_v(a@));
                    lemma_exprs_v(a@);
                    assert(a@.subrange(0, a@.len() as int) =~= a@);
                }
                Object::Array(self.eval_exprs_from(fuel, a, 0))
            },
            Literal::Hash(ps) => {
                proof {
                    assert(pairs_v(ps@).subrange(0, pairs_v(ps@).len() as int) =~= pairs_v(ps@));
                    lemma_pairs_v(ps@);
                    assert(ps@.subrange(0, ps@.len() as int) =~= ps@);
                }
                let pairs = self.eval_pairs_from(fuel, ps, 0);
                proof {
                    lemma_dedup_pairs_wf(opairs_v(pairs@), self.env.len());
                }
                Object::Hash(dedup_hash_pairs(pairs))
            },
        }
    }

    /// Resolves an identifier: builtins first (they shadow user bindings
    /// unconditionally), then the scope chain; an unbound name is a
    /// fault.
    fn eval_ident(&self, ident: &Ident) -> (r: Object)
        requires
            self.wf(),
        ensures
            obj_v(r) == sp_ident(env_v(self.env), self.scope as int, ident@),
            obj_wf(obj_v(r), self.env.len()),
    {
        if crate::lexer::str_eq(ident.0.as_str(), "len") {
            return Object::Builtin(BuiltinFn::Len);
        }
        if crate::lexer::str_eq(ident.0.as_str(), "tail") {
            return Object::Builtin(BuiltinFn::Tail);
        }
        if crate::lexer::str_eq(ident.0.as_str(), "push") {
            return Object::Builtin(BuiltinFn::Push);
        }
        match self.env.get(self.scope, ident.0.as_str()) {
            Some(o) => o,
            None => {
                let mut m = "identifier not found: ".to_owned();
                m.append(ident.0.as_str());
                Object::Error(m)
            },
        }
    }

    /// A unary operator applied to an evaluated operand.
    fn eval_prefix_expr(&self, prefix: Prefix, expr: Object) -> (r: Object)
        ensures
            obj_v(r) == sp_prefix(prefix, obj_v(expr)),
    {
        if self.is_error(&expr) {
            return expr;
        }
        match prefix {
            Prefix::Not => self.eval_not_prefix_expr(expr),
            Prefix::Minus => self.eval_minus_prefix_expr(expr),
            Prefix::Plus => self.eval_plus_prefix_expr(expr),
        }
    }

    /// `!x`.
    fn eval_not_prefix_expr(&self, expr: Object) -> (r: Object)
        ensures
            obj_v(r) == sp_not(obj_v(expr)),
    {
        match expr {
            Object::Bool(true) => Object::Bool(false),
            Object::Bool(false) => Object::Bool(true),
            Object::Null => Object::Bool(true),
            _ => Object::Bool(false),
        }
    }

    /// `-x`.
    fn eval_minus_prefix_expr(&self, expr: Object) -> (r: Object)
        ensures
            obj_v(r) == sp_minus(obj_v(expr)),
    {
        match expr {
            Object::Int(i) => Object::Int(0i32.wrapping_sub(i)),
            _ => {
                let mut m = "unknown operator: -".to_owned();
                m.append(expr.render().as_str());
                Object::Error(m)
            },
        }
    }

    /// `+x`.
    fn eval_plus_prefix_expr(&self, expr: Object) -> (r: Object)
        ensures
            obj_v(r) == sp_plus_prefix(obj_v(expr)),
    {
        match expr {
            Object::Int(i) => Object::Int(i),
            _ => {
                let mut m = "unknown operator: +".to_owned();
                m.append(expr.render().as_str());
                Object::Error(m)
            },
        }
    }

    /// A binary operator applied to evaluated operands.
    fn eval_infix_expr(&self, infix: Infix, left: Object, right: Object) -> (r: Object)
        ensures
            obj_v(r) == sp_infix(infix, obj_v(left), obj_v(right)),
    {
        match &left {
            Object::Int(l) => {
                if let Object::Int(rr) = &right {
                    self.eval_int_infix_expr(infix, *l, *rr)
                } else {
                    Object::Error(msg_op_exec("type mismatch: ", &left, infix, &right))
                }
            },
            Object::String(l) => {
                if let Object::String(rr) = &right {
                    self.eval_string_infix_expr(infix, l.clone(), rr.clone())
                } else {
                    Object::Error(msg_op_exec("type mismatch: ", &left, infix, &right))
                }
            },
            _ => {
                if kind_tag(&left) == kind_tag(&right) {
                    Object::Error(msg_op_exec("unknown operator: ", &left, infix, &right))
                } else {
                    Object::Error(msg_op_exec("type mismatch: ", &left, infix, &right))
                }
            },
        }
    }

    /// String operators: only concatenation.
    fn eval_string_infix_expr(&self, infix: Infix, left: String, right: String) -> (r: Object)
        ensures
            obj_v(r) == sp_string_infix(infix, left@, right@),
    {
        match infix {
            Infix::Plus => {
                let mut s = left;
                s.append(right.as_str());
                Object::String(s)
            },
            _ => Object::Error(
                msg_op_exec(
                    "unknown operator: ",
                    &Object::String(left),
                    infix,
                    &Object::String(right),
                ),
            ),
        }
    }

    /// Integer operators: `+ - *` wrap, `/ %` fault on a zero divisor,
    /// comparisons yield booleans.
    fn eval_int_infix_expr(&self, infix: Infix, left: i32, right: i32) -> (r: Object)
        ensures
            obj_v(r) == sp_int_infix(infix, left, right),
    {
        match infix {
            Infix::Plus => Object::Int(left.wrapping_add(right)),
            Infix::Minus => Object::Int(left.wrapping_sub(right)),
            Infix::Multiply => Object::Int(left.wrapping_mul(right)),
            Infix::Divide => match left.checked_div(right) {
                Some(q) => Object::Int(q),
                None => if right == 0 {
                    Object::Error(
                        msg_op_exec(
                            "division by zero: ",
                            &Object::Int(left),
                            infix,
                            &Object::Int(right),
                        ),
                    )
                } else {
                    Object::Int(i32::MIN)
                },
            },
            Infix::Modulus => match left.checked_rem(right) {
                Some(m) => Object::Int(m),
                None => if right == 0 {
                    Object::Error(
                        msg_op_exec(
                            "division by zero: ",
                            &Object::Int(left),
                            infix,
                            &Object::Int(right),
                        ),
                    )
                } else {
                    Object::Int(0)
                },
            },
            Infix::LessThan => Object::Bool(left < right),
            Infix::LessThanEqual => Object::Bool(left <= right),
            Infix::GreaterThan => Object::Bool(left > right),
            Infix::GreaterThanEqual => Object::Bool(left >= right),
            Infix::Equal => Object::Bool(left == right),
            Infix::NotEqual => Object::Bool(left != right),
        }
    }

    /// The index operator applied to evaluated operands.
    fn eval_index_expr(&self, left: Object, index: Object) -> (r: Object)
        ensures
            obj_v(r) == sp_index(obj_v(left), obj_v(index)),
    {
        match left {
            Object::Array(arr) => {
                if let Object::Int(i) = index {
                    self.eval_array_index_expr(arr, i)
                } else {
                    let mut m = "unknown operator: ".to_owned();
                    m.append(Object::Array(arr).render().as_str());
                    m.append(" ");
                    m.append(index.render().as_str());
                    Object::Error(m)
                }
            },
            _ => {
                let mut m = "unknown operator: ".to_owned();
                m.append(left.render().as_str());
                m.append(" ");
                m.append(index.render().as_str());
                Object::Error(m)
            },
        }
    }

    /// Array indexing: out of range yields `Null`, a negative index
    /// counts from the end.
    fn eval_array_index_expr(&self, array: Vec<Object>, index: i32) -> (r: Object)
        ensures
            obj_v(r) == sp_array_index(objs_v(array@), index as int),
    {
        proof {
            lemma_objs_v(array@);
        }
        if index < 0 {
            let back = (-(index as i64)) as u64;
            if back <= array.len() as u64 {
                let k = array.len() - (back as usize);
                array[k].clone()
            } else {
                Object::Null
            }
        } else {
            if (index as usize) < array.len() {
                array[index as usize].clone()
            } else {
                Object::Null
            }
        }
    }

    /// Evaluates a call's arguments, then its callee, and applies it.
    pub fn eval_call_expr(&mut self, fuel: u64, function: &Expression, args: &Vec<
        Expression,
    >) -> (r: Object)
        requires
            old(self).wf(),
        ensures
            final(self).wf(),
            final(self).scope == old(self).scope,
            final(self).env.len() >= old(self).env.len(),
            obj_wf(obj_v(r), final(self).env.len()),
            ({
                let (sc1, argvals) = sp_eval_exprs(
                    fuel as nat,
                    env_v(old(self).env),
                    old(self).scope as int,
                    exprs_v(args@),
                );
                let (sc2, rv) = sp_apply_function(
                    fuel as nat,
                    sc1,
                    old(self).scope as int,
                    expr_v(*function),
                    argvals,
                );
                env_v(final(self).env) == sc2 && obj_v(r) == rv
            }),
    {
        let argvals = self.eval_exprs_from(fuel, args, 0);
        proof {
            lemma_exprs_v(args@);
            assert(exprs_v(args@).subrange(0, args@.len() as int) =~= exprs_v(args@));
        }
        self.apply_function(fuel, function, argvals)
    }

    /// Evaluates the callee and applies it to evaluated arguments; see
    /// [`sp_apply_function`] for the exact dispatch.
    fn apply_function(&mut self, fuel: u64, function: &Expression, args: Vec<Object>) -> (r:
        Object)
        requires
            old(self).wf(),
            objs_wf(objs_v(args@), old(self).env.len()),
        ensures
            final(self).wf(),
            final(self).scope == old(self).scope,
            final(self).env.len() >= old(self).env.len(),
            obj_wf(obj_v(r), final(self).env.len()),
            ({
                let (sc1, rv) = sp_apply_function(
                    fuel as nat,
                    env_v(old(self).env),
                    old(self).scope as int,
                    expr_v(*function),
                    objs_v(args@),
                );
                env_v(final(self).env) == sc1 && obj_v(r) == rv
            }),
        decreases fuel, function, 2int,
    {
        proof {
            lemma_objs_v(args@);
        }
        let fres = self.eval_expr(fuel, function);
        proof {
            lemma_objs_wf_mono(objs_v(args@), old(self).env.len(), self.env.len());
        }
        let (params, body, fenv) = match fres {
            Some(Object::Fn(params, body, fenv)) => (params, body, fenv),
            Some(Object::Builtin(f)) => {
                proof {
                    lemma_sp_builtin_wf(f, objs_v(args@), self.env.len());
                }
                return match f {
                    BuiltinFn::Len => monkey_len(args),
                    BuiltinFn::Tail => monkey_tail(args),
                    BuiltinFn::Push => monkey_push(args),
                };
            },
            Some(o) => {
                let mut m = "function not found: ".to_owned();
                m.append(o.render().as_str());
                return Object::Error(m);
            },
            None => {
                return Object::Null;
            },
        };
        if fuel == 0 {
            return Object::Error("recursion limit exceeded".to_owned());
        }
        if params.len() != args.len() {
            let mut m = "expected arguments: ".to_owned();
            m.append(render_u64(params.len() as u64).as_str());
            m.append("\ngiven arguments: ");
            m.append(render_u64(args.len() as u64).as_str());
            return Object::Error(m);
        }
        let newid = self.extended_function_env(&params, fenv, args);
        let saved = self.scope;
        self.scope = newid;
        let evaluated = self.eval_block_statement(fuel - 1, &body);
        self.scope = saved;
        proof {
            lemma_sp_unwrap_wf(opt_obj_v(evaluated), self.env.len() as int);
        }
        self.unwrap_return_value(evaluated)
    }

    /// A fresh scope enclosing the function's captured scope, with the
    /// parameters bound positionally to the arguments.
    fn extended_function_env(&mut self, params: &Vec<Ident>, fenv: usize, args: Vec<
        Object,
    >) -> (newid: usize)
        requires
            old(self).wf(),
            fenv < old(self).env.len(),
            params@.len() == args@.len(),
            objs_wf(objs_v(args@), old(self).env.len()),
        ensures
            final(self).wf(),
            final(self).scope == old(self).scope,
            newid == old(self).env.len(),
            final(self).env.len() == old(self).env.len() + 1,
            env_v(final(self).env) =~~= env_v(old(self).env).push(
                ScopeV {
                    map: bind_params(idents_v(params@), objs_v(args@)),
                    parent: Some(fenv as int),
                },
            ),
    {
        let newid = self.env.new_enclosed(fenv);
        proof {
            lemma_objs_v(args@);
            lemma_objs_wf_index(objs_v(args@), old(self).env.len());
        }
        let mut i: usize = 0;
        while i < params.len()
            invariant
                self.wf(),
                self.scope == old(self).scope,
                self.scope < self.env.len(),
                newid == old(self).env.len(),
                self.env.len() == old(self).env.len() + 1,
                params@.len() == args@.len(),
                i <= params@.len(),
                objs_v(args@).len() == args@.len(),
                forall|j: int|
                    0 <= j < args@.len() ==> objs_v(args@)[j] == obj_v(#[trigger] args@[j]),
                forall|j: int|
                    0 <= j < args@.len() ==> obj_wf(#[trigger] objs_v(args@)[j], newid as int),
                env_v(self.env) =~~= env_v(old(self).env).push(
                    ScopeV {
                        map: bind_params(
                            idents_v(params@).subrange(0, i as int),
                            objs_v(args@).subrange(0, i as int),
                        ),
                        parent: Some(fenv as int),
                    },
                ),
            decreases params@.len() - i,
        {
            let name = params[i].0.clone();
            let val = args[i].clone();
            proof {
                lemma_obj_wf_mono(obj_v(val), newid as int, self.env.len());
            }
            self.env.set(newid, name, val);
            proof {
                let ps = idents_v(params@);
                let vs = objs_v(args@);
                assert(ps.subrange(0, i + 1).subrange(0, i as int) =~= ps.subrange(0, i as int));
                assert(vs.subrange(0, i + 1).subrange(0, i as int) =~= vs.subrange(0, i as int));
                assert(ps.subrange(0, i + 1)[i as int] == params@[i as int]@);
                assert(vs.subrange(0, i + 1)[i as int] == obj_v(args@[i as int]));
                assert(bind_params(ps.subrange(0, i + 1), vs.subrange(0, i + 1))
                    == bind_params(ps.subrange(0, i as int), vs.subrange(0, i as int)).insert(
                    params@[i as int]@,
                    obj_v(args@[i as int]),
                ));
                assert(env_v(self.env) =~~= env_v(old(self).env).push(
                    ScopeV {
                        map: bind_params(ps.subrange(0, i + 1), vs.subrange(0, i + 1)),
                        parent: Some(fenv as int),
                    },
                ));
            }
            i += 1;
        }
        proof {
            assert(idents_v(params@).subrange(0, params@.len() as int) =~= idents_v(params@));
            assert(objs_v(args@).subrange(0, args@.len() as int) =~= objs_v(args@));
        }
        newid
    }

    /// Unwraps a `Return` signal exactly once; an absent block value is
    /// `Null`.
    fn unwrap_return_value(&self, obj: Option<Object>) -> (r: Object)
        ensures
            obj_v(r) == sp_unwrap_return(opt_obj_v(obj)),
    {
        match obj {
            Some(Object::Return(o)) => *o,
            Some(o) => o,
            None => Object::Null,
        }
    }
}

/// Element-wise well-formedness for pair sequences, both directions.
proof fn lemma_opairs_wf_index_all(s: Seq<(ObjV, ObjV)>, n: int)
    ensures
        opairs_wf(s, n) <==> (forall|i: int|
            0 <= i < s.len() ==> obj_wf((#[trigger] s[i]).0, n) && obj_wf(s[i].1, n)),
    decreases s.len(),
{
    if s.len() > 0 {
        lemma_opairs_wf_index_all(s.subrange(0, s.len() - 1), n);
        assert(forall|i: int|
            0 <= i < s.len() - 1 ==> s.subrange(0, s.len() - 1)[i] == #[trigger] s[i]);
    }
}


/// An arity mismatch never panics: when the callee evaluates to a
/// function value whose parameter count differs from the argument count,
/// the call's value is the arity `Error` object. The resulting arena is
/// exactly the one the callee's evaluation produced: no scope is pushed
/// and the function body is never run.
pub proof fn lemma_arity_mismatch_is_error(
    fuel: nat,
    sc: Seq<ScopeV>,
    cur: int,
    fexpr: ExprV,
    args: Seq<ObjV>,
)
    requires
        fuel > 0,
    ensures
        ({
            let (sc1, fres) = sp_eval_expr(fuel, sc, cur, fexpr);
            match fres {
                Some(fv) => match fv {
                    ObjV::Fn(params, body, fenv) => params.len() != args.len()
                        ==> sp_apply_function(fuel, sc, cur, fexpr, args) == (
                        sc1,
                        ObjV::Error(msg_arity(params.len() as int, args.len() as int)),
                    ),
                    _ => true,
                },
                None => true,
            }
        }),
{
}

/// Index bounds: an index at or past the length yields `Null`; a
/// negative index counts from the end; a negative index past the front
/// yields `Null`.
pub proof fn lemma_index_bounds(a: Seq<ObjV>, i: int)
    ensures
        i >= a.len() ==> sp_array_index(a, i) == ObjV::Null,
        0 <= i < a.len() ==> sp_array_index(a, i) == a[i],
        -a.len() <= i < 0 ==> sp_array_index(a, i) == a[a.len() + i],
        i < -a.len() ==> sp_array_index(a, i) == ObjV::Null,
{
}

/// Fault propagation halts the program: when the first statement yields
/// an `Error`, the program's value is that `Error` and no later
/// statement is evaluated.
pub proof fn lemma_fault_halts_program(
    fuel: nat,
    sc: Seq<ScopeV>,
    cur: int,
    sts: Seq<StmtV>,
    acc: Option<ObjV>,
)
    requires
        sts.len() > 0,
    ensures
        ({
            let (sc1, r) = sp_eval_stmt(fuel, sc, cur, sts[0]);
            match r {
                Some(rv) => rv matches ObjV::Error(m) ==> sp_eval_program(fuel, sc, cur, sts, acc)
                    == (sc1, Some(ObjV::Error(m))),
                None => true,
            }
        }),
{
}

} // verus!
