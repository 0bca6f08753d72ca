use hm_infer::infer::{add_to_context, infer, new_type_var, Context, Env};
use hm_infer::types::{Expression, InferenceError, Type};

fn named(n: &str) -> Type {
    Type::TNamed { name: n.to_string() }
}

fn tvar(n: &str) -> Type {
    Type::TVar { name: n.to_string() }
}

fn tfun(from: Type, to: Type) -> Type {
    Type::TFun { from: Box::new(from), to: Box::new(to) }
}

fn eint(v: i32) -> Expression {
    Expression::EInt { value: v }
}

fn evar(n: &str) -> Expression {
    Expression::EVar { name: n.to_string() }
}

fn efunc(param: &str, body: Expression) -> Expression {
    Expression::EFunc { param: param.to_string(), body: Box::new(body) }
}

fn ecall(func: Expression, arg: Expression) -> Expression {
    Expression::ECall { func: Box::new(func), arg: Box::new(arg) }
}

fn eif(cond: Expression, true_b: Expression, false_b: Expression) -> Expression {
    Expression::EIf {
        cond: Box::new(cond),
        true_b: Box::new(true_b),
        false_b: Box::new(false_b),
    }
}

#[test]
fn int_literal_is_int() {
    let mut ctx = Context::new(Env::new());
    let (ty, subs) = infer(&mut ctx, &eint(5)).unwrap();
    assert_eq!(ty, named("Int"));
    assert!(subs.entries.is_empty());
}

#[test]
fn identity_function() {
    let mut ctx = Context::new(Env::new());
    let (ty, _) = infer(&mut ctx, &efunc("a", evar("a"))).unwrap();
    assert_eq!(ty, tfun(tvar("T0"), tvar("T0")));
}

#[test]
fn constant_bool_function() {
    let mut ctx = Context::new(Env::intial());
    let (ty, _) = infer(&mut ctx, &efunc("a", evar("true"))).unwrap();
    assert_eq!(ty, tfun(tvar("T0"), named("Bool")));
}

#[test]
fn apply_identity_to_int() {
    let mut ctx = Context::new(Env::new());
    let (ty, _) = infer(&mut ctx, &ecall(efunc("a", evar("a")), eint(1))).unwrap();
    assert_eq!(ty, named("Int"));
}

#[test]
fn conditional_of_ints() {
    let mut ctx = Context::new(Env::intial());
    let (ty, _) = infer(&mut ctx, &eif(evar("true"), eint(1), eint(2))).unwrap();
    assert_eq!(ty, named("Int"));
}

#[test]
fn unbound_variable_fails() {
    let mut ctx = Context::new(Env::new());
    let err = infer(&mut ctx, &evar("x")).unwrap_err();
    assert_eq!(err, InferenceError::UnboundVariable { name: "x".to_string() });
}

#[test]
fn calling_an_int_fails() {
    let mut ctx = Context::new(Env::new());
    let err = infer(&mut ctx, &ecall(eint(1), eint(2))).unwrap_err();
    assert!(matches!(err, InferenceError::TypeMismatch { .. }));
}

#[test]
fn conditional_with_int_condition_fails() {
    let mut ctx = Context::new(Env::intial());
    let err = infer(&mut ctx, &eif(eint(0), eint(1), eint(2))).unwrap_err();
    assert_eq!(err, InferenceError::TypeMismatch { expected: named("Int"), found: named("Bool") });
}

#[test]
fn self_application_of_inferred_substitution_is_no_op() {
    // The substitution that resolves `(fn a => a) 1` no longer touches the
    // inferred type: applying it again changes nothing.
    let mut ctx = Context::new(Env::new());
    let (ty, subs) = infer(&mut ctx, &ecall(efunc("a", evar("a")), eint(1))).unwrap();
    let again = hm_infer::subst::appl_subs_to_type(&subs, &ty);
    assert_eq!(again, ty);
}

#[test]
fn self_application_after_conditional_is_no_op() {
    let mut ctx = Context::new(Env::intial());
    let expr = eif(evar("true"), efunc("a", evar("a")), efunc("b", evar("b")));
    let (ty, subs) = infer(&mut ctx, &expr).unwrap();
    let again = hm_infer::subst::appl_subs_to_type(&subs, &ty);
    assert_eq!(again, ty);
}

#[test]
fn sibling_lambdas_mint_distinct_variables() {
    // The counter is threaded through the whole derivation, so the two
    // lambdas receive distinct parameter variables.
    let mut ctx = Context::new(Env::intial());
    let expr = eif(evar("true"), efunc("a", evar("a")), efunc("b", evar("b")));
    // The branches unify by binding T0 to T1, and the final substitution is
    // applied to the first branch's type.
    let (ty, _) = infer(&mut ctx, &expr).unwrap();
    assert_eq!(ty, tfun(tvar("T1"), tvar("T1")));
    assert_eq!(ctx.next, 2);
}

#[test]
fn fresh_variable_names_follow_the_counter() {
    let mut ctx = Context::new(Env::new());
    ctx.next = 41;
    let tv = new_type_var(&mut ctx);
    assert_eq!(tv, tvar("T41"));
    assert_eq!(ctx.next, 42);
}

#[test]
fn initial_environment_binds_the_booleans() {
    let env = Env::intial();
    assert_eq!(env.get(&"true".to_string()), Some(&named("Bool")));
    assert_eq!(env.get(&"false".to_string()), Some(&named("Bool")));
    assert_eq!(env.get(&"x".to_string()), None);
}

#[test]
fn extending_a_context_shadows_only_the_child() {
    let env = Env::intial();
    let ctx = Context::new(env);
    let name = "true".to_string();
    let child = add_to_context(&ctx, &name, &named("Int"));
    assert_eq!(child.env.get(&name), Some(&named("Int")));
    assert_eq!(ctx.env.get(&name), Some(&named("Bool")));
}

#[test]
fn lambda_body_error_propagates() {
    let mut ctx = Context::new(Env::new());
    let err = infer(&mut ctx, &efunc("a", evar("b"))).unwrap_err();
    assert_eq!(err, InferenceError::UnboundVariable { name: "b".to_string() });
}

#[test]
fn branches_must_unify() {
    let mut ctx = Context::new(Env::intial());
    let err = infer(&mut ctx, &eif(evar("true"), eint(1), evar("false"))).unwrap_err();
    assert!(matches!(err, InferenceError::TypeMismatch { .. }));
}
