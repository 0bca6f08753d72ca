//! The unifier: computes the most general substitution making two types
//! syntactically equal, guarding every variable binding with the occurs
//! check.
//!
//! Unification recurses on types rewritten by intermediate substitutions, so
//! its termination is not structural: the measure is the number of distinct
//! type variables in the pair, then the combined node count. The ghost
//! definition `unify_fuel` is indexed by a recursion budget; the budget is
//! monotone and always sufficient, which totalises it into `unify_spec`, the
//! contract of the executable `unify`.

use vstd::prelude::*;
use vstd::set_lib::lemma_len_subset;

use crate::types::InferenceError;
use crate::types::SpecError;
use crate::types::SpecType;
use crate::types::Type;
use crate::types::lemma_type_vars_finite;
use crate::types::type_size;
use crate::types::type_vars;
use crate::subst::Substitution;
use crate::subst::apply_spec;
use crate::subst::compose_spec;
use crate::subst::lemma_apply_compose;
use crate::subst::lemma_apply_disjoint;
use crate::subst::lemma_apply_empty_identity;
use crate::subst::lemma_apply_vars;

verus! {

/// Whether the variable `name` occurs anywhere in `t`.
pub open spec fn occurs_spec(name: Seq<char>, t: SpecType) -> bool
    decreases t,
{
    match t {
        SpecType::Named { .. } => false,
        SpecType::Var { name: n } => n == name,
        SpecType::Fun { from, to } => occurs_spec(name, *from) || occurs_spec(name, *to),
    }
}

/// Occurrence agrees with membership in the variable set.
pub proof fn lemma_occurs_vars(name: Seq<char>, t: SpecType)
    ensures
        occurs_spec(name, t) <==> type_vars(t).contains(name),
    decreases t,
{
    match t {
        SpecType::Named { .. } => {},
        SpecType::Var { .. } => {},
        SpecType::Fun { from, to } => {
            lemma_occurs_vars(name, *from);
            lemma_occurs_vars(name, *to);
        },
    }
}

/// Checks whether the variable `name` occurs in `t`, recursively.
pub fn contains(t: &Type, name: &String) -> (r: bool)
    ensures
        r == occurs_spec(name@, t@),
    decreases *t,
{
    match t {
        Type::TNamed { .. } => false,
        Type::TVar { name: n } => *n == *name,
        Type::TFun { from, to } => contains(from, name) || contains(to, name),
    }
}

/// What binding a variable to a type yields: the identity substitution when
/// the type is that very variable, the infinite-type error when the variable
/// occurs in the type, and otherwise the singleton substitution.
pub open spec fn bind_spec(name: Seq<char>, t: SpecType) -> Result<
    Map<Seq<char>, SpecType>,
    SpecError,
> {
    if t == (SpecType::Var { name }) {
        Ok(Map::empty())
    } else if occurs_spec(name, t) {
        Err(SpecError::InfiniteType { name, ty: t })
    } else {
        Ok(Map::empty().insert(name, t))
    }
}

/// Creates the substitution binding `name` to `t`, unless the occurs check
/// rejects the binding as an infinite type.
pub fn var_bind(name: &String, t: &Type) -> (r: Result<Substitution, InferenceError>)
    ensures
        match r {
            Ok(s) => bind_spec(name@, t@) == Ok::<Map<Seq<char>, SpecType>, SpecError>(s@),
            Err(e) => bind_spec(name@, t@) == Err::<Map<Seq<char>, SpecType>, SpecError>(e@),
        },
{
    if let Type::TVar { name: n } = t {
        if *n == *name {
            return Ok(Substitution::new());
        }
    }
    if contains(t, name) {
        return Err(InferenceError::InfiniteType { name: name.clone(), ty: t.clone() });
    }
    Ok(Substitution::singleton(name, t))
}

/// Occurs check soundness: binding a variable to a type other than itself
/// fails with the infinite-type error exactly when the variable occurs in
/// the type. (Binding a variable to itself succeeds with the identity
/// substitution even though the variable trivially occurs there.)
pub proof fn lemma_occurs_check_soundness(name: Seq<char>, t: SpecType)
    requires
        t != (SpecType::Var { name }),
    ensures
        bind_spec(name, t) == Err::<Map<Seq<char>, SpecType>, SpecError>(
            SpecError::InfiniteType { name, ty: t },
        ) <==> occurs_spec(name, t),
        bind_spec(name, t) is Err <==> occurs_spec(name, t),
{
}

/// Unification under a recursion budget. `None` means the budget ran out;
/// the budget is otherwise inessential: `lemma_unify_fuel_mono` shows the
/// answer never changes once defined, and `lemma_unify_defined` shows some
/// budget always suffices.
pub open spec fn unify_fuel(t1: SpecType, t2: SpecType, fuel: nat) -> Option<
    Result<Map<Seq<char>, SpecType>, SpecError>,
>
    decreases fuel,
{
    if fuel == 0 {
        None
    } else {
        match (t1, t2) {
            (SpecType::Named { name: a }, SpecType::Named { name: b }) => if a == b {
                Some(Ok(Map::empty()))
            } else {
                Some(Err(SpecError::TypeMismatch { expected: t1, found: t2 }))
            },
            (SpecType::Var { name: a }, _) => Some(bind_spec(a, t2)),
            (_, SpecType::Var { name: b }) => Some(bind_spec(b, t1)),
            (SpecType::Fun { from: f1, to: o1 }, SpecType::Fun { from: f2, to: o2 }) => {
                match unify_fuel(*f1, *f2, (fuel - 1) as nat) {
                    None => None,
                    Some(Err(e)) => Some(Err(e)),
                    Some(Ok(s1)) => match unify_fuel(
                        apply_spec(s1, *o1),
                        apply_spec(s1, *o2),
                        (fuel - 1) as nat,
                    ) {
                        None => None,
                        Some(Err(e)) => Some(Err(e)),
                        Some(Ok(s2)) => Some(Ok(compose_spec(s2, s1))),
                    },
                }
            },
            _ => Some(Err(SpecError::TypeMismatch { expected: t1, found: t2 })),
        }
    }
}

/// Once the budget suffices, a larger budget gives the same answer.
pub proof fn lemma_unify_fuel_mono(t1: SpecType, t2: SpecType, f1: nat, f2: nat)
    requires
        f1 <= f2,
        unify_fuel(t1, t2, f1) is Some,
    ensures
        unify_fuel(t1, t2, f2) == unify_fuel(t1, t2, f1),
    decreases f1,
{
    match (t1, t2) {
        (SpecType::Fun { from: g1, to: o1 }, SpecType::Fun { from: g2, to: o2 }) => {
            let r1 = unify_fuel(*g1, *g2, (f1 - 1) as nat);
            assert(r1 is Some);
            lemma_unify_fuel_mono(*g1, *g2, (f1 - 1) as nat, (f2 - 1) as nat);
            if let Some(Ok(s1)) = r1 {
                let a1 = apply_spec(s1, *o1);
                let a2 = apply_spec(s1, *o2);
                assert(unify_fuel(a1, a2, (f1 - 1) as nat) is Some);
                lemma_unify_fuel_mono(a1, a2, (f1 - 1) as nat, (f2 - 1) as nat);
            }
        },
        _ => {},
    }
}

/// The distinct type variables of a pair of types; the primary termination
/// measure of unification.
pub open spec fn vars_len(t1: SpecType, t2: SpecType) -> nat {
    type_vars(t1).union(type_vars(t2)).len()
}

/// What a successful unification's substitution looks like syntactically:
/// its keys are variables of the unified pair, and every bound type only
/// mentions variables of the pair and none of the keys.
pub open spec fn unify_result_ok(s: Map<Seq<char>, SpecType>, t1: SpecType, t2: SpecType) -> bool {
    &&& s.dom().subset_of(type_vars(t1).union(type_vars(t2)))
    &&& forall|k: Seq<char>| #[trigger]
        s.dom().contains(k) ==> type_vars(s[k]).subset_of(type_vars(t1).union(type_vars(t2)))
            && type_vars(s[k]).disjoint(s.dom())
}

/// A successful unification's substitution satisfies `unify_result_ok`.
pub proof fn lemma_unify_fuel_props(
    t1: SpecType,
    t2: SpecType,
    fuel: nat,
    s: Map<Seq<char>, SpecType>,
)
    requires
        unify_fuel(t1, t2, fuel) == Some(Ok::<Map<Seq<char>, SpecType>, SpecError>(s)),
    ensures
        unify_result_ok(s, t1, t2),
    decreases fuel,
{
    let v12 = type_vars(t1).union(type_vars(t2));
    match (t1, t2) {
        (SpecType::Named { name: a }, SpecType::Named { name: b }) => {},
        (SpecType::Var { name: a }, _) => {
            if t2 != (SpecType::Var { name: a }) {
                lemma_occurs_vars(a, t2);
            }
        },
        (_, SpecType::Var { name: b }) => {
            if t1 != (SpecType::Var { name: b }) {
                lemma_occurs_vars(b, t1);
            }
        },
        (SpecType::Fun { from: g1, to: o1 }, SpecType::Fun { from: g2, to: o2 }) => {
            let r1 = unify_fuel(*g1, *g2, (fuel - 1) as nat);
            if let Some(Ok(s1)) = r1 {
                let vf = type_vars(*g1).union(type_vars(*g2));
                lemma_unify_fuel_props(*g1, *g2, (fuel - 1) as nat, s1);
                let a1 = apply_spec(s1, *o1);
                let a2 = apply_spec(s1, *o2);
                let r2 = unify_fuel(a1, a2, (fuel - 1) as nat);
                if let Some(Ok(s2)) = r2 {
                    let va = type_vars(a1).union(type_vars(a2));
                    lemma_unify_fuel_props(a1, a2, (fuel - 1) as nat, s2);
                    lemma_apply_vars(s1, vf, *o1);
                    lemma_apply_vars(s1, vf, *o2);
                    assert(s == compose_spec(s2, s1));
                    assert forall|k: Seq<char>| #[trigger] s.dom().contains(k) implies type_vars(
                        s[k],
                    ).subset_of(v12) && type_vars(s[k]).disjoint(s.dom()) by {
                        if s1.dom().contains(k) {
                            assert(s[k] == apply_spec(s2, s1[k]));
                            lemma_apply_vars(s2, va, s1[k]);
                        } else {
                            assert(s2.dom().contains(k));
                            assert(s[k] == s2[k]);
                            assert(type_vars(s2[k]).subset_of(va));
                            assert(type_vars(s2[k]).disjoint(s2.dom()));
                        }
                    }
                }
            }
        },
        _ => {},
    }
}

/// The measure of the pair unified after the domains of two function types:
/// it never grows, and it strictly shrinks unless the first unification
/// bound nothing (in which case the pair is untouched and smaller in size).
pub proof fn lemma_second_call_measure(
    f1: SpecType,
    o1: SpecType,
    f2: SpecType,
    o2: SpecType,
    s1: Map<Seq<char>, SpecType>,
)
    requires
        unify_result_ok(s1, f1, f2),
    ensures
        vars_len(apply_spec(s1, o1), apply_spec(s1, o2)) <= vars_len(
            (SpecType::Fun { from: Box::new(f1), to: Box::new(o1) }),
            (SpecType::Fun { from: Box::new(f2), to: Box::new(o2) }),
        ),
        s1.dom().len() == 0 ==> apply_spec(s1, o1) == o1 && apply_spec(s1, o2) == o2,
        s1.dom().len() != 0 ==> vars_len(apply_spec(s1, o1), apply_spec(s1, o2)) < vars_len(
            (SpecType::Fun { from: Box::new(f1), to: Box::new(o1) }),
            (SpecType::Fun { from: Box::new(f2), to: Box::new(o2) }),
        ),
{
    let vf = type_vars(f1).union(type_vars(f2));
    let tt1 = SpecType::Fun { from: Box::new(f1), to: Box::new(o1) };
    let tt2 = SpecType::Fun { from: Box::new(f2), to: Box::new(o2) };
    let v = type_vars(tt1).union(type_vars(tt2));
    lemma_type_vars_finite(f1);
    lemma_type_vars_finite(f2);
    lemma_type_vars_finite(o1);
    lemma_type_vars_finite(o2);
    let a1 = apply_spec(s1, o1);
    let a2 = apply_spec(s1, o2);
    let va = type_vars(a1).union(type_vars(a2));
    lemma_apply_vars(s1, vf, o1);
    lemma_apply_vars(s1, vf, o2);
    assert(va.subset_of(v.difference(s1.dom())));
    assert(v.finite());
    lemma_len_subset(va, v);
    if s1.dom().len() == 0 {
        lemma_len_subset(s1.dom(), vf);
        assert(s1.dom().finite());
        s1.dom().lemma_len0_is_empty();
        assert(s1 =~= Map::<Seq<char>, SpecType>::empty());
        lemma_apply_empty_identity(o1);
        lemma_apply_empty_identity(o2);
    } else {
        lemma_len_subset(s1.dom(), vf);
        if forall|x: Seq<char>| !(#[trigger] s1.dom().contains(x)) {
            assert(s1.dom() =~= Set::<Seq<char>>::empty());
        }
        let x = choose|x: Seq<char>| s1.dom().contains(x);
        assert(v.contains(x));
        assert(!va.contains(x));
        va.lemma_subset_not_in_lt(v, x);
    }
}

/// Some budget always suffices for unification to answer.
pub proof fn lemma_unify_defined(t1: SpecType, t2: SpecType)
    ensures
        exists|f: nat| unify_fuel(t1, t2, f) is Some,
    decreases vars_len(t1, t2), type_size(t1) + type_size(t2),
{
    if !(t1 is Fun) || !(t2 is Fun) || t1 is Var || t2 is Var {
        assert(unify_fuel(t1, t2, 1) is Some);
    } else {
        match (t1, t2) {
            (SpecType::Fun { from: g1, to: o1 }, SpecType::Fun { from: g2, to: o2 }) => {
                let v12 = type_vars(t1).union(type_vars(t2));
                let vf = type_vars(*g1).union(type_vars(*g2));
                lemma_type_vars_finite(t1);
                lemma_type_vars_finite(t2);
                lemma_len_subset(vf, v12);
                lemma_unify_defined(*g1, *g2);
                let fa = choose|f: nat| unify_fuel(*g1, *g2, f) is Some;
                match unify_fuel(*g1, *g2, fa) {
                    Some(Err(e)) => {
                        assert(unify_fuel(t1, t2, fa + 1) is Some);
                    },
                    Some(Ok(s1)) => {
                        lemma_unify_fuel_props(*g1, *g2, fa, s1);
                        lemma_second_call_measure(*g1, *o1, *g2, *o2, s1);
                        let a1 = apply_spec(s1, *o1);
                        let a2 = apply_spec(s1, *o2);
                        lemma_unify_defined(a1, a2);
                        let fb = choose|f: nat| unify_fuel(a1, a2, f) is Some;
                        let fc = if fa <= fb {
                            fb
                        } else {
                            fa
                        };
                        lemma_unify_fuel_mono(*g1, *g2, fa, fc);
                        lemma_unify_fuel_mono(a1, a2, fb, fc);
                        assert(unify_fuel(t1, t2, fc + 1) is Some);
                    },
                    _ => {
                        assert(false);
                    },
                }
            },
            _ => {
                assert(false);
            },
        }
    }
}

/// What unifying two types yields: the most general substitution making
/// them equal, or the error that rules one out. Defined as `unify_fuel` at
/// a sufficient budget; by `lemma_unify_defined` and `lemma_unify_fuel_mono`
/// the choice of budget is immaterial.
pub open spec fn unify_spec(t1: SpecType, t2: SpecType) -> Result<
    Map<Seq<char>, SpecType>,
    SpecError,
> {
    unify_fuel(t1, t2, choose|f: nat| unify_fuel(t1, t2, f) is Some)->Some_0
}

/// Any sufficient budget computes `unify_spec`.
pub proof fn lemma_unify_spec_fuel(t1: SpecType, t2: SpecType, f: nat)
    requires
        unify_fuel(t1, t2, f) is Some,
    ensures
        unify_fuel(t1, t2, f) == Some(unify_spec(t1, t2)),
{
    let g = choose|g: nat| unify_fuel(t1, t2, g) is Some;
    assert(unify_fuel(t1, t2, g) is Some);
    if f <= g {
        lemma_unify_fuel_mono(t1, t2, f, g);
    } else {
        lemma_unify_fuel_mono(t1, t2, g, f);
    }
}

/// Unifies two types: the result substitution makes them equal, and an
/// error reports either a mismatch of concrete shapes or a binding the
/// occurs check rejected.
pub fn unify(t1: &Type, t2: &Type) -> (r: Result<Substitution, InferenceError>)
    ensures
        match r {
            Ok(s) => unify_spec(t1@, t2@) == Ok::<Map<Seq<char>, SpecType>, SpecError>(s@),
            Err(e) => unify_spec(t1@, t2@) == Err::<Map<Seq<char>, SpecType>, SpecError>(e@),
        },
    decreases vars_len(t1@, t2@), type_size(t1@) + type_size(t2@),
{
    match (t1, t2) {
        (Type::TNamed { name: a }, Type::TNamed { name: b }) => {
            proof {
                assert(unify_fuel(t1@, t2@, 1) is Some);
                lemma_unify_spec_fuel(t1@, t2@, 1);
            }
            if *a == *b {
                Ok(Substitution::new())
            } else {
                Err(InferenceError::TypeMismatch { expected: t1.clone(), found: t2.clone() })
            }
        },
        (Type::TVar { name: a }, _) => {
            proof {
                assert(unify_fuel(t1@, t2@, 1) is Some);
                lemma_unify_spec_fuel(t1@, t2@, 1);
            }
            var_bind(a, t2)
        },
        (_, Type::TVar { name: b }) => {
            proof {
                assert(unify_fuel(t1@, t2@, 1) is Some);
                lemma_unify_spec_fuel(t1@, t2@, 1);
            }
            var_bind(b, t1)
        },
        (Type::TFun { from: f1, to: o1 }, Type::TFun { from: f2, to: o2 }) => {
            proof {
                let v12 = type_vars(t1@).union(type_vars(t2@));
                let vf = type_vars(f1@).union(type_vars(f2@));
                lemma_type_vars_finite(t1@);
                lemma_type_vars_finite(t2@);
                lemma_len_subset(vf, v12);
            }
            let r1 = unify(f1, f2);
            match r1 {
                Err(e) => {
                    proof {
                        lemma_unify_defined(f1@, f2@);
                        let ga = choose|f: nat| unify_fuel(f1@, f2@, f) is Some;
                        lemma_unify_spec_fuel(f1@, f2@, ga);
                        assert(unify_fuel(t1@, t2@, ga + 1) == Some(
                            Err::<Map<Seq<char>, SpecType>, SpecError>(e@),
                        ));
                        lemma_unify_spec_fuel(t1@, t2@, ga + 1);
                    }
                    Err(e)
                },
                Ok(s1x) => {
                    proof {
                        lemma_unify_defined(f1@, f2@);
                        let ga = choose|f: nat| unify_fuel(f1@, f2@, f) is Some;
                        lemma_unify_spec_fuel(f1@, f2@, ga);
                        lemma_unify_fuel_props(f1@, f2@, ga, s1x@);
                        lemma_second_call_measure(f1@, o1@, f2@, o2@, s1x@);
                    }
                    let a1 = crate::subst::appl_subs_to_type(&s1x, o1);
                    let a2 = crate::subst::appl_subs_to_type(&s1x, o2);
                    let r2 = unify(&a1, &a2);
                    proof {
                        lemma_unify_defined(f1@, f2@);
                        let ga = choose|f: nat| unify_fuel(f1@, f2@, f) is Some;
                        lemma_unify_spec_fuel(f1@, f2@, ga);
                        lemma_unify_defined(a1@, a2@);
                        let gb = choose|f: nat| unify_fuel(a1@, a2@, f) is Some;
                        lemma_unify_spec_fuel(a1@, a2@, gb);
                        let gc: nat = if ga <= gb {
                            gb
                        } else {
                            ga
                        };
                        lemma_unify_fuel_mono(f1@, f2@, ga, gc);
                        lemma_unify_fuel_mono(a1@, a2@, gb, gc);
                        assert(unify_fuel(t1@, t2@, gc + 1) is Some);
                        lemma_unify_spec_fuel(t1@, t2@, gc + 1);
                    }
                    match r2 {
                        Err(e) => Err(e),
                        Ok(s2x) => Ok(crate::subst::compose_substitution(&s2x, &s1x)),
                    }
                },
            }
        },
        _ => {
            proof {
                assert(unify_fuel(t1@, t2@, 1) is Some);
                lemma_unify_spec_fuel(t1@, t2@, 1);
            }
            Err(InferenceError::TypeMismatch { expected: t1.clone(), found: t2.clone() })
        },
    }
}


/// Whether a substitution makes two types equal.
pub open spec fn unifies(s: Map<Seq<char>, SpecType>, t1: SpecType, t2: SpecType) -> bool {
    apply_spec(s, t1) == apply_spec(s, t2)
}

/// Whether `sigma` is `d` composed after `s` extensionally: applying `sigma`
/// equals applying `s` and then `d`, on every type. When this holds of some
/// `d`, `s` is at least as general as `sigma`.
pub open spec fn extends(
    sigma: Map<Seq<char>, SpecType>,
    d: Map<Seq<char>, SpecType>,
    s: Map<Seq<char>, SpecType>,
) -> bool {
    forall|u: SpecType| #[trigger] apply_spec(sigma, u) == apply_spec(d, apply_spec(s, u))
}

/// A type in which a variable occurs is at least as large as the variable
/// under any substitution, and strictly larger unless it is the variable.
proof fn lemma_occurs_apply_size(s: Map<Seq<char>, SpecType>, a: Seq<char>, t: SpecType)
    requires
        occurs_spec(a, t),
    ensures
        type_size(apply_spec(s, t)) >= type_size(apply_spec(s, (SpecType::Var { name: a }))),
        t != (SpecType::Var { name: a }) ==> type_size(apply_spec(s, t)) > type_size(
            apply_spec(s, (SpecType::Var { name: a })),
        ),
    decreases t,
{
    match t {
        SpecType::Named { .. } => {},
        SpecType::Var { .. } => {},
        SpecType::Fun { from, to } => {
            if occurs_spec(a, *from) {
                lemma_occurs_apply_size(s, a, *from);
            } else {
                lemma_occurs_apply_size(s, a, *to);
            }
        },
    }
}

/// Rewriting by a singleton binding changes nothing under a substitution
/// that already equates the bound variable with its type.
proof fn lemma_subst_absorb(
    sigma: Map<Seq<char>, SpecType>,
    a: Seq<char>,
    t: SpecType,
    u: SpecType,
)
    requires
        apply_spec(sigma, (SpecType::Var { name: a })) == apply_spec(sigma, t),
    ensures
        apply_spec(sigma, apply_spec(Map::empty().insert(a, t), u)) == apply_spec(sigma, u),
    decreases u,
{
    match u {
        SpecType::Named { .. } => {},
        SpecType::Var { name } => {},
        SpecType::Fun { from, to } => {
            lemma_subst_absorb(sigma, a, t, *from);
            lemma_subst_absorb(sigma, a, t, *to);
        },
    }
}

/// Soundness: a substitution returned under any sufficient budget makes the
/// two types equal.
proof fn lemma_unify_fuel_sound(
    t1: SpecType,
    t2: SpecType,
    fuel: nat,
    s: Map<Seq<char>, SpecType>,
)
    requires
        unify_fuel(t1, t2, fuel) == Some(Ok::<Map<Seq<char>, SpecType>, SpecError>(s)),
    ensures
        unifies(s, t1, t2),
    decreases fuel,
{
    match (t1, t2) {
        (SpecType::Named { name: a }, SpecType::Named { name: b }) => {
            lemma_apply_empty_identity(t1);
            lemma_apply_empty_identity(t2);
        },
        (SpecType::Var { name: a }, _) => {
            if t2 == (SpecType::Var { name: a }) {
                lemma_apply_empty_identity(t1);
                lemma_apply_empty_identity(t2);
            } else {
                lemma_occurs_vars(a, t2);
                lemma_apply_disjoint(s, t2);
            }
        },
        (_, SpecType::Var { name: b }) => {
            if t1 == (SpecType::Var { name: b }) {
                lemma_apply_empty_identity(t1);
                lemma_apply_empty_identity(t2);
            } else {
                lemma_occurs_vars(b, t1);
                lemma_apply_disjoint(s, t1);
            }
        },
        (SpecType::Fun { from: g1, to: o1 }, SpecType::Fun { from: g2, to: o2 }) => {
            let r1 = unify_fuel(*g1, *g2, (fuel - 1) as nat);
            if let Some(Ok(s1)) = r1 {
                lemma_unify_fuel_sound(*g1, *g2, (fuel - 1) as nat, s1);
                let a1 = apply_spec(s1, *o1);
                let a2 = apply_spec(s1, *o2);
                let r2 = unify_fuel(a1, a2, (fuel - 1) as nat);
                if let Some(Ok(s2)) = r2 {
                    lemma_unify_fuel_sound(a1, a2, (fuel - 1) as nat, s2);
                    lemma_apply_compose(s2, s1, *g1);
                    lemma_apply_compose(s2, s1, *g2);
                    lemma_apply_compose(s2, s1, *o1);
                    lemma_apply_compose(s2, s1, *o2);
                }
            }
        },
        _ => {},
    }
}

/// Soundness of unification: a returned substitution unifies the two types.
pub proof fn lemma_unify_spec_sound(t1: SpecType, t2: SpecType)
    ensures
        unify_spec(t1, t2) matches Ok(s) ==> unifies(s, t1, t2),
{
    lemma_unify_defined(t1, t2);
    let f = choose|f: nat| unify_fuel(t1, t2, f) is Some;
    lemma_unify_spec_fuel(t1, t2, f);
    if let Ok(s) = unify_spec(t1, t2) {
        lemma_unify_fuel_sound(t1, t2, f, s);
    }
}

/// Completeness and most-generality: whenever some substitution unifies two
/// types, unification succeeds, and every unifier factors through the
/// returned substitution.
#[verifier::rlimit(60)]
pub proof fn lemma_unify_complete(t1: SpecType, t2: SpecType, sigma: Map<Seq<char>, SpecType>)
    requires
        unifies(sigma, t1, t2),
    ensures
        unify_spec(t1, t2) is Ok,
        exists|d: Map<Seq<char>, SpecType>| extends(sigma, d, unify_spec(t1, t2)->Ok_0),
    decreases vars_len(t1, t2), type_size(t1) + type_size(t2),
{
    match (t1, t2) {
        (SpecType::Named { name: a }, SpecType::Named { name: b }) => {
            assert(unify_fuel(t1, t2, 1) is Some);
            lemma_unify_spec_fuel(t1, t2, 1);
            assert forall|u: SpecType| #[trigger]
                apply_spec(sigma, u) == apply_spec(
                    sigma,
                    apply_spec(Map::empty(), u),
                ) by {
                lemma_apply_empty_identity(u);
            }
            assert(extends(sigma, sigma, unify_spec(t1, t2)->Ok_0));
        },
        (SpecType::Var { name: a }, _) => {
            assert(unify_fuel(t1, t2, 1) is Some);
            lemma_unify_spec_fuel(t1, t2, 1);
            if t2 == (SpecType::Var { name: a }) {
                assert forall|u: SpecType| #[trigger]
                    apply_spec(sigma, u) == apply_spec(
                        sigma,
                        apply_spec(Map::empty(), u),
                    ) by {
                    lemma_apply_empty_identity(u);
                }
                assert(extends(sigma, sigma, unify_spec(t1, t2)->Ok_0));
            } else if occurs_spec(a, t2) {
                lemma_occurs_apply_size(sigma, a, t2);
                assert(false);
            } else {
                assert forall|u: SpecType| #[trigger]
                    apply_spec(sigma, u) == apply_spec(
                        sigma,
                        apply_spec(Map::empty().insert(a, t2), u),
                    ) by {
                    lemma_subst_absorb(sigma, a, t2, u);
                }
                assert(extends(sigma, sigma, unify_spec(t1, t2)->Ok_0));
            }
        },
        (_, SpecType::Var { name: b }) => {
            assert(unify_fuel(t1, t2, 1) is Some);
            lemma_unify_spec_fuel(t1, t2, 1);
            if occurs_spec(b, t1) {
                lemma_occurs_apply_size(sigma, b, t1);
                assert(false);
            } else {
                assert forall|u: SpecType| #[trigger]
                    apply_spec(sigma, u) == apply_spec(
                        sigma,
                        apply_spec(Map::empty().insert(b, t1), u),
                    ) by {
                    lemma_subst_absorb(sigma, b, t1, u);
                }
                assert(extends(sigma, sigma, unify_spec(t1, t2)->Ok_0));
            }
        },
        (SpecType::Fun { from: g1, to: o1 }, SpecType::Fun { from: g2, to: o2 }) => {
            assert(apply_spec(sigma, *g1) == apply_spec(sigma, *g2));
            assert(apply_spec(sigma, *o1) == apply_spec(sigma, *o2));
            let v12 = type_vars(t1).union(type_vars(t2));
            let vf = type_vars(*g1).union(type_vars(*g2));
            lemma_type_vars_finite(t1);
            lemma_type_vars_finite(t2);
            lemma_len_subset(vf, v12);
            lemma_unify_complete(*g1, *g2, sigma);
            let s1 = unify_spec(*g1, *g2)->Ok_0;
            let d1 = choose|d: Map<Seq<char>, SpecType>| extends(sigma, d, s1);
            lemma_unify_defined(*g1, *g2);
            let ga = choose|f: nat| unify_fuel(*g1, *g2, f) is Some;
            lemma_unify_spec_fuel(*g1, *g2, ga);
            lemma_unify_fuel_props(*g1, *g2, ga, s1);
            lemma_second_call_measure(*g1, *o1, *g2, *o2, s1);
            let a1 = apply_spec(s1, *o1);
            let a2 = apply_spec(s1, *o2);
            assert(apply_spec(sigma, *o1) == apply_spec(d1, a1));
            assert(apply_spec(sigma, *o2) == apply_spec(d1, a2));
            lemma_unify_complete(a1, a2, d1);
            let s2 = unify_spec(a1, a2)->Ok_0;
            let d2 = choose|d: Map<Seq<char>, SpecType>| extends(d1, d, s2);
            lemma_unify_defined(a1, a2);
            let gb = choose|f: nat| unify_fuel(a1, a2, f) is Some;
            lemma_unify_spec_fuel(a1, a2, gb);
            let gc: nat = if ga <= gb {
                gb
            } else {
                ga
            };
            lemma_unify_fuel_mono(*g1, *g2, ga, gc);
            lemma_unify_fuel_mono(a1, a2, gb, gc);
            assert(unify_fuel(t1, t2, gc + 1) == Some(
                Ok::<Map<Seq<char>, SpecType>, SpecError>(compose_spec(s2, s1)),
            ));
            lemma_unify_spec_fuel(t1, t2, gc + 1);
            assert forall|u: SpecType| #[trigger]
                apply_spec(sigma, u) == apply_spec(
                    d2,
                    apply_spec(compose_spec(s2, s1), u),
                ) by {
                assert(apply_spec(sigma, u) == apply_spec(d1, apply_spec(s1, u)));
                assert(apply_spec(d1, apply_spec(s1, u)) == apply_spec(
                    d2,
                    apply_spec(s2, apply_spec(s1, u)),
                ));
                lemma_apply_compose(s2, s1, u);
            }
            assert(extends(sigma, d2, unify_spec(t1, t2)->Ok_0));
        },
        _ => {
            assert(false);
        },
    }
}

/// Success is owed exactly to unifiable pairs: unification returns a
/// substitution if and only if some substitution makes the types equal.
pub proof fn lemma_unify_success_iff(t1: SpecType, t2: SpecType)
    ensures
        unify_spec(t1, t2) is Ok <==> exists|sigma: Map<Seq<char>, SpecType>|
            unifies(sigma, t1, t2),
{
    lemma_unify_spec_sound(t1, t2);
    if unify_spec(t1, t2) is Ok {
        let s = unify_spec(t1, t2)->Ok_0;
        assert(unifies(s, t1, t2));
    }
    if exists|sigma: Map<Seq<char>, SpecType>| unifies(sigma, t1, t2) {
        let sigma = choose|sigma: Map<Seq<char>, SpecType>| unifies(sigma, t1, t2);
        lemma_unify_complete(t1, t2, sigma);
    }
}

/// Unification symmetry of intent: unifying in either order succeeds or
/// fails together, and a substitution returned for either order makes the
/// two types equal.
pub proof fn lemma_unify_symmetry(t1: SpecType, t2: SpecType)
    ensures
        unify_spec(t1, t2) is Ok <==> unify_spec(t2, t1) is Ok,
        unify_spec(t1, t2) matches Ok(s) ==> unifies(s, t1, t2),
        unify_spec(t2, t1) matches Ok(s) ==> unifies(s, t1, t2),
{
    lemma_unify_spec_sound(t1, t2);
    lemma_unify_spec_sound(t2, t1);
    if let Ok(s) = unify_spec(t1, t2) {
        assert(unifies(s, t2, t1));
        lemma_unify_complete(t2, t1, s);
    }
    if let Ok(s) = unify_spec(t2, t1) {
        assert(unifies(s, t1, t2));
        lemma_unify_complete(t1, t2, s);
    }
}


/// A substitution returned by unification never mentions its own keys in a
/// bound type, so applying it a second time is a no-op on any type.
pub proof fn lemma_unify_spec_idempotent(t1: SpecType, t2: SpecType, u: SpecType)
    ensures
        unify_spec(t1, t2) matches Ok(s) ==> apply_spec(s, apply_spec(s, u)) == apply_spec(s, u),
{
    lemma_unify_defined(t1, t2);
    let f = choose|f: nat| unify_fuel(t1, t2, f) is Some;
    lemma_unify_spec_fuel(t1, t2, f);
    if let Ok(s) = unify_spec(t1, t2) {
        lemma_unify_fuel_props(t1, t2, f, s);
        assert(crate::subst::subst_no_self(s));
        crate::subst::lemma_apply_idempotent(s, u);
    }
}

} // verus!
