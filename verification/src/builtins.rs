//! The native functions built into the interpreter: `len`, `tail`, `push`.
//!
//! Each is total: a wrong argument count or an unsupported argument kind
//! becomes an `Error` value, never a panic.

use vstd::prelude::*;
use vstd::string::StringExecFns;
use vstd::utf8::encode_utf8;
use crate::object::{
    BuiltinFn, ObjV, Object, obj_v, objs_v, obj_wf, objs_wf, dec_digits, render_obj, render_u64,
    lemma_objs_v, lemma_objs_wf_index, clone_objs, lemma_objs_v_push,
};

verus! {

/// The arity fault message of a builtin: how many arguments it takes,
/// and how many it was given.
pub open spec fn msg_builtin_arity(expected: int, given: int) -> Seq<char> {
    "expected arguments: "@ + dec_digits(expected) + "\ngiven arguments: "@ + dec_digits(given)
}

/// What `len` returns: the length of a string in bytes of its UTF-8
/// form, or of an array in elements, as a fixed-width integer (truncated
/// if it does not fit); a fault otherwise.
pub open spec fn sp_len(args: Seq<ObjV>) -> ObjV {
    if args.len() != 1 {
        ObjV::Error(msg_builtin_arity(1, args.len() as int))
    } else {
        match args[0] {
            ObjV::Str(s) => ObjV::Int((encode_utf8(s).len() as usize) as i32),
            ObjV::Array(a) => ObjV::Int(a.len() as i32),
            _ => ObjV::Error("argument to `len` not supported, got: "@ + render_obj(args[0])),
        }
    }
}

/// What `tail` returns: all elements of an array but the first; `Null` for
/// an empty array; a fault for anything that is not an array.
pub open spec fn sp_tail(args: Seq<ObjV>) -> ObjV {
    if args.len() != 1 {
        ObjV::Error(msg_builtin_arity(1, args.len() as int))
    } else {
        match args[0] {
            ObjV::Array(a) => if a.len() == 0 {
                ObjV::Null
            } else {
                ObjV::Array(a.subrange(1, a.len() as int))
            },
            _ => ObjV::Error("argument to `tail` not supported, got "@ + render_obj(args[0])),
        }
    }
}

/// What `push` returns: a new array with the second argument appended; a
/// fault when the first argument is not an array.
pub open spec fn sp_push(args: Seq<ObjV>) -> ObjV {
    if args.len() != 2 {
        ObjV::Error(msg_builtin_arity(2, args.len() as int))
    } else {
        match args[0] {
            ObjV::Array(a) => ObjV::Array(a.push(args[1])),
            _ => ObjV::Error("argument to `push` not supported, got "@ + render_obj(args[0])),
        }
    }
}

/// What a builtin call returns, as a function of its arguments alone:
/// builtins never read or change the environment.
pub open spec fn sp_builtin(f: BuiltinFn, args: Seq<ObjV>) -> ObjV {
    match f {
        BuiltinFn::Len => sp_len(args),
        BuiltinFn::Tail => sp_tail(args),
        BuiltinFn::Push => sp_push(args),
    }
}

/// The builtin bound to a name, if any. Builtins shadow user bindings of
/// the same name unconditionally.
pub open spec fn sp_builtin_lookup(name: Seq<char>) -> Option<ObjV> {
    if name == "len"@ {
        Some(ObjV::Builtin(BuiltinFn::Len))
    } else if name == "tail"@ {
        Some(ObjV::Builtin(BuiltinFn::Tail))
    } else if name == "push"@ {
        Some(ObjV::Builtin(BuiltinFn::Push))
    } else {
        None
    }
}

/// A builtin's result never captures a scope: it is well formed against
/// any arena its arguments are well formed against.
pub proof fn lemma_sp_builtin_wf(f: BuiltinFn, args: Seq<ObjV>, n: int)
    requires
        objs_wf(args, n),
    ensures
        obj_wf(sp_builtin(f, args), n),
{
    lemma_objs_wf_index(args, n);
    match f {
        BuiltinFn::Len => {},
        BuiltinFn::Tail => {
            if args.len() == 1 {
                match args[0] {
                    ObjV::Array(a) => {
                        if a.len() > 0 {
                            lemma_objs_wf_index(a, n);
                            lemma_objs_wf_index(a.subrange(1, a.len() as int), n);
                        }
                    },
                    _ => {},
                }
            }
        },
        BuiltinFn::Push => {
            if args.len() == 2 {
                match args[0] {
                    ObjV::Array(a) => {
                        lemma_objs_wf_index(a, n);
                        lemma_objs_wf_index(a.push(args[1]), n);
                    },
                    _ => {},
                }
            }
        },
    }
}

/// The builtin arity fault message for a builtin taking `expected`
/// arguments that was given `given`.
fn builtin_arity_error(expected: u64, given: usize) -> (r: Object)
    ensures
        obj_v(r) == ObjV::Error(msg_builtin_arity(expected as int, given as int)),
{
    let mut m = "expected arguments: ".to_owned();
    m.append(render_u64(expected).as_str());
    m.append("\ngiven arguments: ");
    m.append(render_u64(given as u64).as_str());
    Object::Error(m)
}

/// `len(x)`: the length of a string or an array.
pub fn monkey_len(args: Vec<Object>) -> (r: Object)
    ensures
        obj_v(r) == sp_builtin(BuiltinFn::Len, objs_v(args@)),
{
    proof {
        lemma_objs_v(args@);
    }
    if args.len() != 1 {
        return builtin_arity_error(1, args.len());
    }
    match &args[0] {
        Object::String(s) => {
            let n = s.as_str().len();
            #[verifier::truncate]
            let i = n as i32;
            Object::Int(i)
        },
        Object::Array(a) => {
            proof {
                lemma_objs_v(a@);
            }
            #[verifier::truncate]
            let i = a.len() as i32;
            Object::Int(i)
        },
        o => {
            let mut m = "argument to `len` not supported, got: ".to_owned();
            m.append(o.render().as_str());
            Object::Error(m)
        },
    }
}

/// `tail(xs)`: all elements of `xs` but the first; `Null` when `xs` is
/// empty.
pub fn monkey_tail(args: Vec<Object>) -> (r: Object)
    ensures
        obj_v(r) == sp_builtin(BuiltinFn::Tail, objs_v(args@)),
{
    proof {
        lemma_objs_v(args@);
    }
    if args.len() != 1 {
        return builtin_arity_error(1, args.len());
    }
    match &args[0] {
        Object::Array(a) => {
            proof {
                lemma_objs_v(a@);
            }
            if a.len() == 0 {
                return Object::Null;
            }
            let mut rest: Vec<Object> = Vec::new();
            let mut i: usize = 1;
            while i < a.len()
                invariant
                    1 <= i <= a@.len(),
                    objs_v(rest@) == objs_v(a@).subrange(1, i as int),
                decreases a@.len() - i,
            {
                let ghost prefix = rest@;
                let c = a[i].clone();
                let ghost cg = c;
                rest.push(c);
                proof {
                    lemma_objs_v_push(prefix, cg);
                    assert(rest@ =~= prefix.push(cg));
                    lemma_objs_v(a@);
                    assert(objs_v(a@).subrange(1, i + 1) =~= objs_v(a@).subrange(1, i as int).push(
                        objs_v(a@)[i as int],
                    ));
                }
                i += 1;
            }
            proof {
                lemma_objs_v(a@);
                assert(objs_v(rest@) =~= objs_v(a@).subrange(1, a@.len() as int));
            }
            Object::Array(rest)
        },
        o => {
            let mut m = "argument to `tail` not supported, got ".to_owned();
            m.append(o.render().as_str());
            Object::Error(m)
        },
    }
}

/// `push(xs, x)`: a new array holding the elements of `xs` then `x`.
pub fn monkey_push(args: Vec<Object>) -> (r: Object)
    ensures
        obj_v(r) == sp_builtin(BuiltinFn::Push, objs_v(args@)),
{
    proof {
        lemma_objs_v(args@);
    }
    if args.len() != 2 {
        return builtin_arity_error(2, args.len());
    }
    match &args[0] {
        Object::Array(a) => {
            proof {
                lemma_objs_v(a@);
            }
            let mut out = clone_objs(a);
            let x = args[1].clone();
            let ghost xg = x;
            let ghost pre = out@;
            out.push(x);
            proof {
                lemma_objs_v_push(pre, xg);
                assert(out@ =~= pre.push(xg));
            }
            Object::Array(out)
        },
        o => {
            let mut m = "argument to `push` not supported, got ".to_owned();
            m.append(o.render().as_str());
            Object::Error(m)
        },
    }
}

/// The builtin table: each builtin under its name. Kept for hosts that
/// want to list or re-export the builtins; identifier resolution itself
/// checks the builtin names directly.
pub fn new_builtins() -> (r: Vec<(String, Object)>)
    ensures
        r@.len() == 3,
        r@[0].0@ == "len"@ && obj_v(r@[0].1) == ObjV::Builtin(BuiltinFn::Len),
        r@[1].0@ == "tail"@ && obj_v(r@[1].1) == ObjV::Builtin(BuiltinFn::Tail),
        r@[2].0@ == "push"@ && obj_v(r@[2].1) == ObjV::Builtin(BuiltinFn::Push),
{
    let mut builtins: Vec<(String, Object)> = Vec::new();
    builtins.push(("len".to_owned(), Object::Builtin(BuiltinFn::Len)));
    builtins.push(("tail".to_owned(), Object::Builtin(BuiltinFn::Tail)));
    builtins.push(("push".to_owned(), Object::Builtin(BuiltinFn::Push)));
    builtins
}

} // verus!
