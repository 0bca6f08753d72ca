//! The inference engine: derives a type and an accumulating substitution for
//! an expression tree, threading every intermediate substitution through the
//! environment and through previously computed types before continuing, so
//! information flows strictly left to right through the recursion.
//!
//! The typing environment maps expression variables to types; the context
//! pairs it with the fresh-variable counter that is threaded through every
//! recursive call so sibling sub-expressions never mint the same variable.

use vstd::prelude::*;
use vstd::string::StringExecFns;

use crate::types::Expression;
use crate::types::InferenceError;
use crate::types::SpecError;
use crate::types::SpecExpression;
use crate::types::SpecType;
use crate::types::Type;
use crate::subst::Substitution;
use crate::subst::apply_spec;
use crate::subst::appl_subs_to_type;
use crate::subst::assoc_get;
use crate::subst::assoc_map;
use crate::subst::compose_spec;
use crate::subst::compose_substitution;
use crate::subst::lemma_assoc_map_empty;
use crate::subst::lemma_assoc_map_push;
use crate::unify::unify;
use crate::unify::unify_spec;

verus! {

/// The typing environment: expression-variable names bound to types, keys
/// unique. Extending it yields a new environment; the parent stays valid.
#[derive(Debug)]
pub struct Env {
    pub entries: Vec<(String, Type)>,
}

impl View for Env {
    type V = Map<Seq<char>, SpecType>;

    open spec fn view(&self) -> Map<Seq<char>, SpecType> {
        assoc_map(self.entries@)
    }
}

impl Env {
    /// The empty environment.
    pub fn new() -> (env: Env)
        ensures
            env@ == Map::<Seq<char>, SpecType>::empty(),
    {
        proof {
            lemma_assoc_map_empty();
        }
        Env { entries: Vec::new() }
    }

    /// The initially seeded environment, binding `true` and `false` to the
    /// named type `Bool`.
    pub fn intial() -> (env: Env)
        ensures
            env@ == Map::<Seq<char>, SpecType>::empty().insert(
                "true"@,
                (SpecType::Named { name: "Bool"@ }),
            ).insert("false"@, (SpecType::Named { name: "Bool"@ })),
    {
        let mut entries: Vec<(String, Type)> = Vec::new();
        let e1 = ("true".to_owned(), Type::TNamed { name: "Bool".to_owned() });
        let ghost g1 = e1;
        entries.push(e1);
        let e2 = ("false".to_owned(), Type::TNamed { name: "Bool".to_owned() });
        let ghost g2 = e2;
        let ghost pre = entries@;
        entries.push(e2);
        proof {
            lemma_assoc_map_empty();
            lemma_assoc_map_push(Seq::empty(), g1);
            assert(pre =~= Seq::<(String, Type)>::empty().push(g1));
            lemma_assoc_map_push(pre, g2);
            assert(entries@ =~= pre.push(g2));
        }
        Env { entries }
    }

    /// The type bound to a name, if any.
    pub fn get<'a>(&'a self, name: &String) -> (r: Option<&'a Type>)
        ensures
            match r {
                Some(t) => self@.dom().contains(name@) && t@ == self@[name@],
                None => !self@.dom().contains(name@),
            },
    {
        assoc_get(&self.entries, name)
    }
}

/// The state of one inference run: the environment and the counter from
/// which fresh type-variable names are minted.
#[derive(Debug)]
pub struct Context {
    pub next: u64,
    pub env: Env,
}

impl Context {
    /// A fresh context over an environment, with the counter at zero.
    pub fn new(env: Env) -> (ctx: Context)
        ensures
            ctx.next == 0,
            ctx.env == env,
    {
        Context { next: 0, env }
    }
}

/// An element-wise copy of an association list; the copy models the same
/// map.
fn copy_entries(src: &Vec<(String, Type)>) -> (r: Vec<(String, Type)>)
    ensures
        r@ == src@,
{
    let mut r: Vec<(String, Type)> = Vec::new();
    let mut i: usize = 0;
    while i < src.len()
        invariant
            i <= src.len(),
            r@ =~= src@.take(i as int),
        decreases src.len() - i,
    {
        r.push((src[i].0.clone(), src[i].1.clone()));
        proof {
            assert(r@ =~= src@.take(i as int + 1));
        }
        i = i + 1;
    }
    proof {
        assert(src@.take(src@.len() as int) =~= src@);
    }
    r
}

/// Extends a context's environment with one binding, shadowing any previous
/// binding of that name; the given context is untouched.
pub fn add_to_context(ctx: &Context, name: &String, type_: &Type) -> (r: Context)
    ensures
        r.env@ == ctx.env@.insert(name@, type_@),
        r.next == ctx.next,
{
    let mut entries = copy_entries(&ctx.env.entries);
    let entry = (name.clone(), type_.clone());
    let ghost e = entry;
    let ghost pre = entries@;
    entries.push(entry);
    proof {
        lemma_assoc_map_push(pre, e);
        assert(entries@ =~= pre.push(e));
    }
    Context { next: ctx.next, env: Env { entries } }
}

/// The environment with a substitution applied to every bound type.
pub open spec fn apply_env(
    s: Map<Seq<char>, SpecType>,
    env: Map<Seq<char>, SpecType>,
) -> Map<Seq<char>, SpecType> {
    Map::new(|k: Seq<char>| env.dom().contains(k), |k: Seq<char>| apply_spec(s, env[k]))
}

/// Applies a substitution to each type in a context's environment, returning
/// a new context with the same counter; the given context is untouched.
pub fn apply_subs_to_ctx(subs: &Substitution, ctx: &Context) -> (r: Context)
    ensures
        r.env@ == apply_env(subs@, ctx.env@),
        r.next == ctx.next,
{
    let src = &ctx.env.entries;
    let mut entries: Vec<(String, Type)> = Vec::new();
    proof {
        lemma_assoc_map_empty();
        assert(src@.take(0int) =~= Seq::<(String, Type)>::empty());
        assert(apply_env(subs@, Map::<Seq<char>, SpecType>::empty()) =~= Map::<
            Seq<char>,
            SpecType,
        >::empty());
    }
    let mut i: usize = 0;
    while i < src.len()
        invariant
            i <= src.len(),
            assoc_map(entries@) == apply_env(subs@, assoc_map(src@.take(i as int))),
        decreases src.len() - i,
    {
        let ghost pre = entries@;
        let ghost m = assoc_map(src@.take(i as int));
        let mapped = appl_subs_to_type(subs, &src[i].1);
        let entry = (src[i].0.clone(), mapped);
        let ghost e = entry;
        entries.push(entry);
        proof {
            lemma_assoc_map_push(pre, e);
            assert(src@.take(i as int + 1).drop_last() =~= src@.take(i as int));
            assert(src@.take(i as int + 1).last() == src@[i as int]);
            assert(apply_env(subs@, m.insert(e.0@, src@[i as int].1@)) =~= apply_env(
                subs@,
                m,
            ).insert(e.0@, apply_spec(subs@, src@[i as int].1@)));
        }
        i = i + 1;
    }
    proof {
        assert(src@.take(src@.len() as int) =~= src@);
    }
    Context { next: ctx.next, env: Env { entries } }
}

/// The decimal digit characters.
pub open spec fn digit_char(d: nat) -> char {
    if d == 0 {
        '0'
    } else if d == 1 {
        '1'
    } else if d == 2 {
        '2'
    } else if d == 3 {
        '3'
    } else if d == 4 {
        '4'
    } else if d == 5 {
        '5'
    } else if d == 6 {
        '6'
    } else if d == 7 {
        '7'
    } else if d == 8 {
        '8'
    } else {
        '9'
    }
}

/// The decimal digits of a number, most significant first.
pub open spec fn dec_digits(n: nat) -> Seq<char>
    decreases n,
{
    if n < 10 {
        seq![digit_char(n)]
    } else {
        dec_digits(n / 10).push(digit_char(n % 10))
    }
}

/// The name of the `n`-th minted type variable: `T` followed by `n` in
/// decimal.
pub open spec fn type_var_name(n: nat) -> Seq<char> {
    seq!['T'] + dec_digits(n)
}

/// One decimal digit as text.
fn digit_str(d: u64) -> (r: &'static str)
    requires
        d < 10,
    ensures
        r@ == seq![digit_char(d as nat)],
{
    if d == 0 {
        proof {
            reveal_strlit("0");
            assert("0"@ =~= seq![digit_char(d as nat)]);
        }
        "0"
    } else if d == 1 {
        proof {
            reveal_strlit("1");
            assert("1"@ =~= seq![digit_char(d as nat)]);
        }
        "1"
    } else if d == 2 {
        proof {
            reveal_strlit("2");
            assert("2"@ =~= seq![digit_char(d as nat)]);
        }
        "2"
    } else if d == 3 {
        proof {
            reveal_strlit("3");
            assert("3"@ =~= seq![digit_char(d as nat)]);
        }
        "3"
    } else if d == 4 {
        proof {
            reveal_strlit("4");
            assert("4"@ =~= seq![digit_char(d as nat)]);
        }
        "4"
    } else if d == 5 {
        proof {
            reveal_strlit("5");
            assert("5"@ =~= seq![digit_char(d as nat)]);
        }
        "5"
    } else if d == 6 {
        proof {
            reveal_strlit("6");
            assert("6"@ =~= seq![digit_char(d as nat)]);
        }
        "6"
    } else if d == 7 {
        proof {
            reveal_strlit("7");
            assert("7"@ =~= seq![digit_char(d as nat)]);
        }
        "7"
    } else if d == 8 {
        proof {
            reveal_strlit("8");
            assert("8"@ =~= seq![digit_char(d as nat)]);
        }
        "8"
    } else {
        proof {
            reveal_strlit("9");
            assert("9"@ =~= seq![digit_char(d as nat)]);
        }
        "9"
    }
}

/// A number in decimal.
fn dec_str(n: u64) -> (r: String)
    ensures
        r@ == dec_digits(n as nat),
    decreases n,
{
    if n < 10 {
        digit_str(n).to_owned()
    } else {
        let mut s = dec_str(n / 10);
        s.append(digit_str(n % 10));
        proof {
            assert(s@ =~= dec_digits((n / 10) as nat).push(digit_char((n % 10) as nat)));
        }
        s
    }
}

/// Mints a fresh type variable from the context's counter and advances the
/// counter, so no later mint in the same run reuses the name.
pub fn new_type_var(ctx: &mut Context) -> (r: Type)
    requires
        old(ctx).next < u64::MAX,
    ensures
        r@ == (SpecType::Var { name: type_var_name(old(ctx).next as nat) }),
        final(ctx).next == old(ctx).next + 1,
        final(ctx).env == old(ctx).env,
{
    let idx = ctx.next;
    ctx.next = ctx.next + 1;
    let mut name = "T".to_owned();
    let digits = dec_str(idx);
    name.append(digits.as_str());
    proof {
        reveal_strlit("T");
        assert(name@ =~= seq!['T'] + dec_digits(idx as nat));
    }
    Type::TVar { name }
}

/// How many type variables inferring an expression mints: one per lambda
/// and one per application.
pub open spec fn mints(e: SpecExpression) -> nat
    decreases e,
{
    match e {
        SpecExpression::Int { .. } => 0,
        SpecExpression::Var { .. } => 0,
        SpecExpression::Func { param, body } => 1 + mints(*body),
        SpecExpression::Call { func, arg } => mints(*func) + mints(*arg) + 1,
        SpecExpression::If { cond, true_b, false_b } => mints(*cond) + mints(*true_b) + mints(
            *false_b,
        ),
    }
}

/// What inferring an expression yields under an environment and counter:
/// the inferred type, the accumulated substitution and the advanced counter,
/// or the first error met reading the expression left to right.
///
/// A conditional's condition is unified with `Bool`; its branches are
/// inferred under the accumulated substitutions and unified with each other,
/// and the result is the final substitution applied to the first branch's
/// type. An application re-unifies the resolved function domain with the
/// argument type; when the accumulated substitution resolves the applied
/// expression to something other than a function type, the mismatch of that
/// type with the expected function shape is reported as a typed error.
pub open spec fn infer_spec(
    env: Map<Seq<char>, SpecType>,
    next: nat,
    e: SpecExpression,
) -> Result<(SpecType, Map<Seq<char>, SpecType>, nat), SpecError>
    decreases e,
{
    match e {
        SpecExpression::Int { .. } => Ok(
            ((SpecType::Named { name: "Int"@ }), Map::<Seq<char>, SpecType>::empty(), next),
        ),
        SpecExpression::Var { name } => if env.dom().contains(name) {
            Ok((env[name], Map::<Seq<char>, SpecType>::empty(), next))
        } else {
            Err(SpecError::UnboundVariable { name })
        },
        SpecExpression::Func { param, body } => {
            let tv = SpecType::Var { name: type_var_name(next) };
            match infer_spec(env.insert(param, tv), next + 1, *body) {
                Err(er) => Err(er),
                Ok((bt, s, n1)) => Ok(
                    (
                        (SpecType::Fun { from: Box::new(apply_spec(s, tv)), to: Box::new(bt) }),
                        s,
                        n1,
                    ),
                ),
            }
        },
        SpecExpression::Call { func, arg } => match infer_spec(env, next, *func) {
            Err(er) => Err(er),
            Ok((ft, s1, n1)) => match infer_spec(apply_env(s1, env), n1, *arg) {
                Err(er) => Err(er),
                Ok((at, s2, n2)) => {
                    let nv = SpecType::Var { name: type_var_name(n2) };
                    let shape = SpecType::Fun { from: Box::new(at), to: Box::new(nv) };
                    let s3 = compose_spec(s1, s2);
                    match unify_spec(shape, ft) {
                        Err(er) => Err(er),
                        Ok(s4) => {
                            let s5 = compose_spec(s4, s3);
                            match apply_spec(s5, ft) {
                                SpecType::Fun { from, to } => match unify_spec(
                                    apply_spec(s5, *from),
                                    at,
                                ) {
                                    Err(er) => Err(er),
                                    Ok(s6) => {
                                        let s7 = compose_spec(s5, s6);
                                        Ok((apply_spec(s7, *to), s7, n2 + 1))
                                    },
                                },
                                _ => Err(
                                    SpecError::TypeMismatch {
                                        expected: shape,
                                        found: apply_spec(s5, ft),
                                    },
                                ),
                            }
                        },
                    }
                },
            },
        },
        SpecExpression::If { cond, true_b, false_b } => match infer_spec(env, next, *cond) {
            Err(er) => Err(er),
            Ok((ct, s1, n1)) => match unify_spec(ct, (SpecType::Named { name: "Bool"@ })) {
                Err(er) => Err(er),
                Ok(s2) => {
                    let acc1 = compose_spec(s2, s1);
                    match infer_spec(apply_env(acc1, env), n1, *true_b) {
                        Err(er) => Err(er),
                        Ok((tt, s3, n2)) => {
                            let acc2 = compose_spec(s3, acc1);
                            match infer_spec(apply_env(acc2, env), n2, *false_b) {
                                Err(er) => Err(er),
                                Ok((et, s4, n3)) => match unify_spec(apply_spec(s4, tt), et) {
                                    Err(er) => Err(er),
                                    Ok(s5) => {
                                        let sf = compose_spec(s5, compose_spec(s4, acc2));
                                        Ok((apply_spec(sf, tt), sf, n3))
                                    },
                                },
                            }
                        },
                    }
                },
            },
        },
    }
}

/// Infers the type of an expression under a context, returning the type and
/// the substitution that resolves the type variables discovered along the
/// way. The environment is only read; the counter is advanced by every mint
/// and never reused.
pub fn infer(ctx: &mut Context, e: &Expression) -> (r: Result<
    (Type, Substitution),
    InferenceError,
>)
    requires
        old(ctx).next as nat + mints(e@) <= u64::MAX as nat,
    ensures
        final(ctx).env == old(ctx).env,
        old(ctx).next <= final(ctx).next,
        final(ctx).next as nat <= old(ctx).next as nat + mints(e@),
        match r {
            Ok(ts) => infer_spec(old(ctx).env@, old(ctx).next as nat, e@) == Ok::<
                (SpecType, Map<Seq<char>, SpecType>, nat),
                SpecError,
            >((ts.0@, ts.1@, final(ctx).next as nat)),
            Err(er) => infer_spec(old(ctx).env@, old(ctx).next as nat, e@) == Err::<
                (SpecType, Map<Seq<char>, SpecType>, nat),
                SpecError,
            >(er@),
        },
    decreases *e,
{
    match e {
        Expression::EInt { .. } => Ok(
            (Type::TNamed { name: "Int".to_owned() }, Substitution::new()),
        ),
        Expression::EVar { name } => match assoc_get(&ctx.env.entries, name) {
            Some(t) => Ok((t.clone(), Substitution::new())),
            None => Err(InferenceError::UnboundVariable { name: name.clone() }),
        },
        Expression::EFunc { param, body } => {
            let tv = new_type_var(ctx);
            let mut new_ctx = add_to_context(ctx, param, &tv);
            let r = infer(&mut new_ctx, body);
            ctx.next = new_ctx.next;
            match r {
                Err(er) => Err(er),
                Ok((bt, s)) => {
                    let from = appl_subs_to_type(&s, &tv);
                    Ok((Type::TFun { from: Box::new(from), to: Box::new(bt) }, s))
                },
            }
        },
        Expression::ECall { func, arg } => {
            let r1 = infer(ctx, func);
            match r1 {
                Err(er) => Err(er),
                Ok((ft, s1)) => {
                    let mut arg_ctx = apply_subs_to_ctx(&s1, ctx);
                    let r2 = infer(&mut arg_ctx, arg);
                    ctx.next = arg_ctx.next;
                    match r2 {
                        Err(er) => Err(er),
                        Ok((at, s2)) => {
                            let nv = new_type_var(ctx);
                            let shape = Type::TFun { from: Box::new(at.clone()), to: Box::new(nv) };
                            let s3 = compose_substitution(&s1, &s2);
                            let r4 = unify(&shape, &ft);
                            match r4 {
                                Err(er) => Err(er),
                                Ok(s4) => {
                                    let s5 = compose_substitution(&s4, &s3);
                                    let fu = appl_subs_to_type(&s5, &ft);
                                    match fu {
                                        Type::TFun { from, to } => {
                                            let fd = appl_subs_to_type(&s5, &from);
                                            let r6 = unify(&fd, &at);
                                            match r6 {
                                                Err(er) => Err(er),
                                                Ok(s6) => {
                                                    let s7 = compose_substitution(&s5, &s6);
                                                    let rt = appl_subs_to_type(&s7, &to);
                                                    Ok((rt, s7))
                                                },
                                            }
                                        },
                                        _ => Err(
                                            InferenceError::TypeMismatch {
                                                expected: shape,
                                                found: fu,
                                            },
                                        ),
                                    }
                                },
                            }
                        },
                    }
                },
            }
        },
        Expression::EIf { cond, true_b, false_b } => {
            let r1 = infer(ctx, cond);
            match r1 {
                Err(er) => Err(er),
                Ok((ct, s1)) => {
                    let bool_ty = Type::TNamed { name: "Bool".to_owned() };
                    let r2 = unify(&ct, &bool_ty);
                    match r2 {
                        Err(er) => Err(er),
                        Ok(s2) => {
                            let acc1 = compose_substitution(&s2, &s1);
                            let mut then_ctx = apply_subs_to_ctx(&acc1, ctx);
                            let r3 = infer(&mut then_ctx, true_b);
                            ctx.next = then_ctx.next;
                            match r3 {
                                Err(er) => Err(er),
                                Ok((tt, s3)) => {
                                    let acc2 = compose_substitution(&s3, &acc1);
                                    let mut else_ctx = apply_subs_to_ctx(&acc2, ctx);
                                    let r4 = infer(&mut else_ctx, false_b);
                                    ctx.next = else_ctx.next;
                                    match r4 {
                                        Err(er) => Err(er),
                                        Ok((et, s4)) => {
                                            let tt2 = appl_subs_to_type(&s4, &tt);
                                            let r5 = unify(&tt2, &et);
                                            match r5 {
                                                Err(er) => Err(er),
                                                Ok(s5) => {
                                                    let acc3 = compose_substitution(&s4, &acc2);
                                                    let sf = compose_substitution(&s5, &acc3);
                                                    let rt = appl_subs_to_type(&sf, &tt);
                                                    Ok((rt, sf))
                                                },
                                            }
                                        },
                                    }
                                },
                            }
                        },
                    }
                },
            }
        },
    }
}

} // verus!
