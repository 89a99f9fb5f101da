//! The runtime value model: the closed set of values the evaluator
//! produces and consumes, with a ghost mirror ([`ObjV`]), a verified deep
//! clone, and a canonical text rendering.
//!
//! `Return` is a control-flow signal, not a user-visible value; `Error`
//! carries a fault message through the ordinary value channel. A function
//! value holds its parameter list, its body, and the index of the scope it
//! captured in the evaluator's scope arena.

use vstd::prelude::*;
use vstd::string::StringExecFns;
use crate::ast::{BlockStatement, Ident, StmtV, idents_v, stmts_v, clone_idents, clone_stmts};

verus! {

/// The native functions built into the interpreter.
#[derive(PartialEq, Eq, Structural, Clone, Copy, Debug)]
pub enum BuiltinFn {
    Len,
    Tail,
    Push,
}

/// A runtime value.
///
/// A `Hash` value is a mapping held as an ordered list of key/value
/// entries. Evaluation keeps it a mapping: a later binding of an equal
/// hashable key (Int, Bool, String — the kinds with structural equality)
/// replaces the earlier entry, and surviving entries keep their order,
/// which is also the order rendering prints them in. Keys of other kinds
/// have no defined equality and are kept as written.
#[derive(PartialEq, Debug)]
pub enum Object {
    Int(i32),
    String(String),
    Bool(bool),
    Null,
    Return(Box<Object>),
    Error(String),
    Fn(Vec<Ident>, BlockStatement, usize),
    Builtin(BuiltinFn),
    Array(Vec<Object>),
    Hash(Vec<(Object, Object)>),
}

/// Ghost mirror of [`Object`].
pub enum ObjV {
    Int(i32),
    Str(Seq<char>),
    Bool(bool),
    Null,
    Return(Box<ObjV>),
    Error(Seq<char>),
    Fn(Seq<Seq<char>>, Seq<StmtV>, int),
    Builtin(BuiltinFn),
    Array(Seq<ObjV>),
    Hash(Seq<(ObjV, ObjV)>),
}

/// View of a runtime value.
pub open spec fn obj_v(o: Object) -> ObjV
    decreases o, 0int,
{
    match o {
        Object::Int(i) => ObjV::Int(i),
        Object::String(s) => ObjV::Str(s@),
        Object::Bool(b) => ObjV::Bool(b),
        Object::Null => ObjV::Null,
        Object::Return(b) => ObjV::Return(Box::new(obj_v(*b))),
        Object::Error(s) => ObjV::Error(s@),
        Object::Fn(ps, body, env) => ObjV::Fn(idents_v(ps@), stmts_v(body@), env as int),
        Object::Builtin(f) => ObjV::Builtin(f),
        Object::Array(v) => ObjV::Array(objs_v(v@)),
        Object::Hash(ps) => ObjV::Hash(opairs_v(ps@)),
    }
}

/// Views of a sequence of values, element-wise.
pub open spec fn objs_v(s: Seq<Object>) -> Seq<ObjV>
    decreases s, 1int,
{
    if s.len() == 0 {
        Seq::empty()
    } else {
        objs_v(s.subrange(0, s.len() - 1)).push(obj_v(s[s.len() - 1]))
    }
}

/// Views of a sequence of key/value pairs, element-wise.
pub open spec fn opairs_v(s: Seq<(Object, Object)>) -> Seq<(ObjV, ObjV)>
    decreases s, 1int,
{
    if s.len() == 0 {
        Seq::empty()
    } else {
        opairs_v(s.subrange(0, s.len() - 1)).push(
            (obj_v(s[s.len() - 1].0), obj_v(s[s.len() - 1].1)),
        )
    }
}

/// View of an optional value.
pub open spec fn opt_obj_v(o: Option<Object>) -> Option<ObjV> {
    match o {
        Some(x) => Some(obj_v(x)),
        None => None,
    }
}

/// `objs_v` maps element-wise.
pub proof fn lemma_objs_v(s: Seq<Object>)
    ensures
        objs_v(s).len() == s.len(),
        forall|i: int| 0 <= i < s.len() ==> objs_v(s)[i] == obj_v(s[i]),
    decreases s.len(),
{
    if s.len() > 0 {
        lemma_objs_v(s.subrange(0, s.len() - 1));
    }
}

/// Pushing onto a value sequence pushes onto its view.
pub proof fn lemma_objs_v_push(s: Seq<Object>, o: Object)
    ensures
        objs_v(s.push(o)) == objs_v(s).push(obj_v(o)),
{
    assert(s.push(o).subrange(0, s.push(o).len() - 1) =~= s);
    assert(objs_v(s.push(o)) =~= objs_v(s).push(obj_v(o)));
}

/// `opairs_v` maps element-wise.
pub proof fn lemma_opairs_v(s: Seq<(Object, Object)>)
    ensures
        opairs_v(s).len() == s.len(),
        forall|i: int| 0 <= i < s.len() ==> opairs_v(s)[i] == (obj_v(s[i].0), obj_v(s[i].1)),
    decreases s.len(),
{
    if s.len() > 0 {
        lemma_opairs_v(s.subrange(0, s.len() - 1));
    }
}

/// Pushing onto a pair sequence pushes onto its view.
pub proof fn lemma_opairs_v_push(s: Seq<(Object, Object)>, p: (Object, Object))
    ensures
        opairs_v(s.push(p)) == opairs_v(s).push((obj_v(p.0), obj_v(p.1))),
{
    assert(s.push(p).subrange(0, s.push(p).len() - 1) =~= s);
    assert(opairs_v(s.push(p)) =~= opairs_v(s).push((obj_v(p.0), obj_v(p.1))));
}

/// A value is well formed against a scope arena of length `n` when every
/// function value it contains captures a scope inside the arena.
pub open spec fn obj_wf(o: ObjV, n: int) -> bool
    decreases o, 0int,
{
    match o {
        ObjV::Return(b) => obj_wf(*b, n),
        ObjV::Fn(_, _, env) => 0 <= env < n,
        ObjV::Array(els) => objs_wf(els, n),
        ObjV::Hash(ps) => opairs_wf(ps, n),
        _ => true,
    }
}

/// Element-wise well-formedness of a value sequence.
pub open spec fn objs_wf(s: Seq<ObjV>, n: int) -> bool
    decreases s, 1int,
{
    if s.len() == 0 {
        true
    } else {
        objs_wf(s.subrange(0, s.len() - 1), n) && obj_wf(s[s.len() - 1], n)
    }
}

/// Element-wise well-formedness of a pair sequence.
pub open spec fn opairs_wf(s: Seq<(ObjV, ObjV)>, n: int) -> bool
    decreases s, 1int,
{
    if s.len() == 0 {
        true
    } else {
        opairs_wf(s.subrange(0, s.len() - 1), n) && obj_wf(s[s.len() - 1].0, n) && obj_wf(
            s[s.len() - 1].1,
            n,
        )
    }
}

/// Well-formedness is monotone: a value stays well formed when the arena
/// grows.
pub proof fn lemma_obj_wf_mono(o: ObjV, n: int, m: int)
    requires
        obj_wf(o, n),
        n <= m,
    ensures
        obj_wf(o, m),
    decreases o, 0int,
{
    match o {
        ObjV::Return(b) => lemma_obj_wf_mono(*b, n, m),
        ObjV::Array(els) => lemma_objs_wf_mono(els, n, m),
        ObjV::Hash(ps) => lemma_opairs_wf_mono(ps, n, m),
        _ => {},
    }
}

/// Monotonicity for value sequences.
pub proof fn lemma_objs_wf_mono(s: Seq<ObjV>, n: int, m: int)
    requires
        objs_wf(s, n),
        n <= m,
    ensures
        objs_wf(s, m),
    decreases s, 1int,
{
    if s.len() > 0 {
        lemma_objs_wf_mono(s.subrange(0, s.len() - 1), n, m);
        lemma_obj_wf_mono(s[s.len() - 1], n, m);
    }
}

/// Monotonicity for pair sequences.
pub proof fn lemma_opairs_wf_mono(s: Seq<(ObjV, ObjV)>, n: int, m: int)
    requires
        opairs_wf(s, n),
        n <= m,
    ensures
        opairs_wf(s, m),
    decreases s, 1int,
{
    if s.len() > 0 {
        lemma_opairs_wf_mono(s.subrange(0, s.len() - 1), n, m);
        lemma_obj_wf_mono(s[s.len() - 1].0, n, m);
        lemma_obj_wf_mono(s[s.len() - 1].1, n, m);
    }
}

/// Well-formedness of a sequence follows from well-formedness of each
/// element, and conversely.
pub proof fn lemma_objs_wf_index(s: Seq<ObjV>, n: int)
    ensures
        objs_wf(s, n) <==> (forall|i: int| 0 <= i < s.len() ==> obj_wf(#[trigger] s[i], n)),
    decreases s.len(),
{
    if s.len() > 0 {
        lemma_objs_wf_index(s.subrange(0, s.len() - 1), n);
        assert(forall|i: int|
            0 <= i < s.len() - 1 ==> s.subrange(0, s.len() - 1)[i] == #[trigger] s[i]);
    }
}

impl Clone for Object {
    /// Cloning preserves the value's view.
    fn clone(&self) -> (r: Self)
        ensures
            obj_v(r) == obj_v(*self),
        decreases self, 0int,
    {
        match self {
            Object::Int(i) => Object::Int(*i),
            Object::String(s) => Object::String(s.clone()),
            Object::Bool(b) => Object::Bool(*b),
            Object::Null => Object::Null,
            Object::Return(b) => Object::Return(Box::new((**b).clone())),
            Object::Error(s) => Object::Error(s.clone()),
            Object::Fn(ps, body, env) => Object::Fn(clone_idents(ps), clone_stmts(body), *env),
            Object::Builtin(f) => Object::Builtin(*f),
            Object::Array(v) => Object::Array(clone_objs(v)),
            Object::Hash(ps) => Object::Hash(clone_opairs(ps)),
        }
    }
}

/// Clones a sequence of values, preserving its view.
pub fn clone_objs(v: &Vec<Object>) -> (r: Vec<Object>)
    ensures
        objs_v(r@) == objs_v(v@),
    decreases v@, 1int,
{
    let mut r: Vec<Object> = Vec::new();
    let mut i: usize = 0;
    while i < v.len()
        invariant
            i <= v.len(),
            objs_v(r@) == objs_v(v@.subrange(0, i as int)),
        decreases v.len() - i,
    {
        let ghost prefix = r@;
        proof {
            assert(decreases_to!(v@, 1int => v@[i as int], 0int));
        }
        let c = v[i].clone();
        let ghost cg = c;
        r.push(c);
        proof {
            lemma_objs_v_push(prefix, cg);
            assert(r@ =~= prefix.push(cg));
            assert(v@.subrange(0, i + 1).subrange(0, i as int) =~= v@.subrange(0, i as int));
            assert(objs_v(v@.subrange(0, i + 1)) == objs_v(v@.subrange(0, i as int)).push(
                obj_v(v@[i as int]),
            ));
        }
        i += 1;
    }
    proof {
        assert(v@.subrange(0, v@.len() as int) =~= v@);
    }
    r
}

/// Clones a sequence of key/value pairs, preserving its view.
pub fn clone_opairs(v: &Vec<(Object, Object)>) -> (r: Vec<(Object, Object)>)
    ensures
        opairs_v(r@) == opairs_v(v@),
    decreases v@, 1int,
{
    let mut r: Vec<(Object, Object)> = Vec::new();
    let mut i: usize = 0;
    while i < v.len()
        invariant
            i <= v.len(),
            opairs_v(r@) == opairs_v(v@.subrange(0, i as int)),
        decreases v.len() - i,
    {
        let ghost prefix = r@;
        proof {
            assert(decreases_to!(v@, 1int => v@[i as int], 0int));
            assert(decreases_to!(v@[i as int], 0int => v@[i as int].0, 0int));
            assert(decreases_to!(v@[i as int], 0int => v@[i as int].1, 0int));
        }
        let e = (v[i].0.clone(), v[i].1.clone());
        let ghost eg = e;
        r.push(e);
        proof {
            lemma_opairs_v_push(prefix, eg);
            assert(r@ =~= prefix.push(eg));
            assert(v@.subrange(0, i + 1).subrange(0, i as int) =~= v@.subrange(0, i as int));
            assert(opairs_v(v@.subrange(0, i + 1)) == opairs_v(v@.subrange(0, i as int)).push(
                (obj_v(v@[i as int].0), obj_v(v@[i as int].1)),
            ));
        }
        i += 1;
    }
    proof {
        assert(v@.subrange(0, v@.len() as int) =~= v@);
    }
    r
}

/// The decimal digit character for `d`.
pub open spec fn digit_seq(d: int) -> Seq<char> {
    if d == 0 {
        "0"@
    } else if d == 1 {
        "1"@
    } else if d == 2 {
        "2"@
    } else if d == 3 {
        "3"@
    } else if d == 4 {
        "4"@
    } else if d == 5 {
        "5"@
    } else if d == 6 {
        "6"@
    } else if d == 7 {
        "7"@
    } else if d == 8 {
        "8"@
    } else {
        "9"@
    }
}

/// Decimal rendering of a nonnegative integer, without leading zeros.
pub open spec fn dec_digits(n: int) -> Seq<char>
    decreases n,
{
    if n < 10 {
        digit_seq(n)
    } else {
        dec_digits(n / 10) + digit_seq(n % 10)
    }
}

/// Decimal rendering of an integer, with a leading minus sign when
/// negative.
pub open spec fn dec_int(n: int) -> Seq<char> {
    if n < 0 {
        "-"@ + dec_digits(-n)
    } else {
        dec_digits(n)
    }
}

fn digit_str(d: u64) -> (r: &'static str)
    requires
        d < 10,
    ensures
        r@ == digit_seq(d as int),
{
    match d {
        0 => "0",
        1 => "1",
        2 => "2",
        3 => "3",
        4 => "4",
        5 => "5",
        6 => "6",
        7 => "7",
        8 => "8",
        _ => "9",
    }
}

/// Renders a nonnegative number in decimal.
pub fn render_u64(n: u64) -> (r: String)
    ensures
        r@ == dec_digits(n as int),
    decreases n,
{
    if n < 10 {
        digit_str(n).to_owned()
    } else {
        let mut s = render_u64(n / 10);
        s.append(digit_str(n % 10));
        s
    }
}

/// Renders a signed number in decimal.
pub fn render_int(n: i32) -> (r: String)
    ensures
        r@ == dec_int(n as int),
{
    if n >= 0 {
        render_u64(n as u64)
    } else {
        let mut s = "-".to_owned();
        let m = -(n as i64);
        s.append(render_u64(m as u64).as_str());
        s
    }
}

/// The canonical text of a value: how the display collaborator prints it.
/// A function renders only its parameter list; its body is opaque text.
pub open spec fn render_obj(o: ObjV) -> Seq<char>
    decreases o, 0int,
{
    match o {
        ObjV::Int(i) => dec_int(i as int),
        ObjV::Str(s) => s,
        ObjV::Bool(b) => if b {
            "true"@
        } else {
            "false"@
        },
        ObjV::Null => "null"@,
        ObjV::Return(b) => render_obj(*b),
        ObjV::Error(s) => s,
        ObjV::Fn(ps, _, _) => "fn("@ + join_names(ps) + ") { ... }"@,
        ObjV::Builtin(_) => "[builtin fn]"@,
        ObjV::Array(els) => "["@ + join_objs(els) + "]"@,
        ObjV::Hash(ps) => "{"@ + join_opairs(ps) + "}"@,
    }
}

/// Comma-separated parameter names.
pub open spec fn join_names(s: Seq<Seq<char>>) -> Seq<char>
    decreases s.len(),
{
    if s.len() == 0 {
        Seq::empty()
    } else if s.len() == 1 {
        s[0]
    } else {
        join_names(s.subrange(0, s.len() - 1)) + ", "@ + s[s.len() - 1]
    }
}

/// Comma-separated renderings of a value sequence.
pub open spec fn join_objs(s: Seq<ObjV>) -> Seq<char>
    decreases s, 1int,
{
    if s.len() == 0 {
        Seq::empty()
    } else if s.len() == 1 {
        render_obj(s[0])
    } else {
        join_objs(s.subrange(0, s.len() - 1)) + ", "@ + render_obj(s[s.len() - 1])
    }
}

/// Comma-separated `key: value` renderings of a pair sequence.
pub open spec fn join_opairs(s: Seq<(ObjV, ObjV)>) -> Seq<char>
    decreases s, 1int,
{
    if s.len() == 0 {
        Seq::empty()
    } else if s.len() == 1 {
        render_obj(s[0].0) + ": "@ + render_obj(s[0].1)
    } else {
        join_opairs(s.subrange(0, s.len() - 1)) + ", "@ + render_obj(s[s.len() - 1].0) + ": "@
            + render_obj(s[s.len() - 1].1)
    }
}

impl Object {
    /// Renders the value as text, exactly as [`render_obj`] describes.
    pub fn render(&self) -> (r: String)
        ensures
            r@ == render_obj(obj_v(*self)),
        decreases self, 2int,
    {
        match self {
            Object::Int(i) => render_int(*i),
            Object::String(s) => s.clone(),
            Object::Bool(b) => if *b {
                "true".to_owned()
            } else {
                "false".to_owned()
            },
            Object::Null => "null".to_owned(),
            Object::Return(b) => (**b).render(),
            Object::Error(s) => s.clone(),
            Object::Fn(ps, _, _) => {
                let mut r = "fn(".to_owned();
                r.append(join_names_exec(ps).as_str());
                r.append(") { ... }");
                r
            },
            Object::Builtin(_) => "[builtin fn]".to_owned(),
            Object::Array(els) => {
                let mut r = "[".to_owned();
                r.append(join_objs_exec(els).as_str());
                r.append("]");
                r
            },
            Object::Hash(ps) => {
                let mut r = "{".to_owned();
                r.append(join_opairs_exec(ps).as_str());
                r.append("}");
                r
            },
        }
    }
}

/// Joins parameter names with commas.
fn join_names_exec(v: &Vec<Ident>) -> (r: String)
    ensures
        r@ == join_names(idents_v(v@)),
{
    let mut r = String::new();
    let mut i: usize = 0;
    while i < v.len()
        invariant
            i <= v.len(),
            r@ == join_names(idents_v(v@).subrange(0, i as int)),
        decreases v.len() - i,
    {
        if i > 0 {
            r.append(", ");
        }
        r.append(v[i].0.as_str());
        proof {
            let names = idents_v(v@);
            assert(names.subrange(0, i + 1).subrange(0, i as int) =~= names.subrange(0, i as int));
            assert(names.subrange(0, i + 1)[i as int] == v@[i as int]@);
            if i == 0 {
                assert(r@ == names.subrange(0, 1)[0]);
            }
        }
        i += 1;
    }
    proof {
        assert(idents_v(v@).subrange(0, v@.len() as int) =~= idents_v(v@));
    }
    r
}

/// Joins element renderings with commas.
fn join_objs_exec(v: &Vec<Object>) -> (r: String)
    ensures
        r@ == join_objs(objs_v(v@)),
    decreases v@, 3int,
{
    let mut r = String::new();
    let mut i: usize = 0;
    while i < v.len()
        invariant
            i <= v.len(),
            r@ == join_objs(objs_v(v@.subrange(0, i as int))),
        decreases v.len() - i,
    {
        if i > 0 {
            r.append(", ");
        }
        proof {
            assert(decreases_to!(v@, 3int => v@[i as int], 2int));
        }
        r.append(v[i].render().as_str());
        proof {
            let ghost sub1 = v@.subrange(0, i + 1);
            assert(sub1.subrange(0, i as int) =~= v@.subrange(0, i as int));
            assert(objs_v(sub1) == objs_v(v@.subrange(0, i as int)).push(obj_v(v@[i as int])));
            lemma_objs_v(v@.subrange(0, i as int));
            assert(objs_v(sub1).subrange(0, i as int) =~= objs_v(v@.subrange(0, i as int)));
        }
        i += 1;
    }
    proof {
        assert(v@.subrange(0, v@.len() as int) =~= v@);
    }
    r
}

/// Joins `key: value` renderings with commas.
fn join_opairs_exec(v: &Vec<(Object, Object)>) -> (r: String)
    ensures
        r@ == join_opairs(opairs_v(v@)),
    decreases v@, 3int,
{
    let mut r = String::new();
    let mut i: usize = 0;
    while i < v.len()
        invariant
            i <= v.len(),
            r@ == join_opairs(opairs_v(v@.subrange(0, i as int))),
        decreases v.len() - i,
    {
        if i > 0 {
            r.append(", ");
        }
        proof {
            assert(decreases_to!(v@, 3int => v@[i as int], 2int));
            assert(decreases_to!(v@[i as int], 2int => v@[i as int].0, 2int));
            assert(decreases_to!(v@[i as int], 2int => v@[i as int].1, 2int));
        }
        r.append(v[i].0.render().as_str());
        r.append(": ");
        r.append(v[i].1.render().as_str());
        proof {
            let ghost sub1 = v@.subrange(0, i + 1);
            assert(sub1.subrange(0, i as int) =~= v@.subrange(0, i as int));
            assert(opairs_v(sub1) == opairs_v(v@.subrange(0, i as int)).push(
                (obj_v(v@[i as int].0), obj_v(v@[i as int].1)),
            ));
            lemma_opairs_v(v@.subrange(0, i as int));
            assert(opairs_v(sub1).subrange(0, i as int) =~= opairs_v(v@.subrange(0, i as int)));
        }
        i += 1;
    }
    proof {
        assert(v@.subrange(0, v@.len() as int) =~= v@);
    }
    r
}

} // verus!
