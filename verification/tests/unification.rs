use hm_infer::subst::appl_subs_to_type;
use hm_infer::types::{InferenceError, Type};
use hm_infer::unify::{contains, unify, var_bind};

fn named(n: &str) -> Type {
    Type::TNamed { name: n.to_string() }
}

fn tvar(n: &str) -> Type {
    Type::TVar { name: n.to_string() }
}

fn tfun(from: Type, to: Type) -> Type {
    Type::TFun { from: Box::new(from), to: Box::new(to) }
}

#[test]
fn equal_named_types_unify_with_empty_substitution() {
    let s = unify(&named("Int"), &named("Int")).unwrap();
    assert!(s.entries.is_empty());
}

#[test]
fn different_named_types_do_not_unify() {
    let err = unify(&named("Int"), &named("Bool")).unwrap_err();
    assert_eq!(err, InferenceError::TypeMismatch { expected: named("Int"), found: named("Bool") });
}

#[test]
fn named_and_function_types_do_not_unify() {
    let t = tfun(named("Int"), named("Int"));
    let err = unify(&named("Int"), &t).unwrap_err();
    assert_eq!(err, InferenceError::TypeMismatch { expected: named("Int"), found: t });
}

#[test]
fn variable_unifies_with_anything() {
    let s = unify(&tvar("a"), &named("Int")).unwrap();
    assert_eq!(s.get(&"a".to_string()), Some(&named("Int")));
    let s = unify(&named("Int"), &tvar("a")).unwrap();
    assert_eq!(s.get(&"a".to_string()), Some(&named("Int")));
}

#[test]
fn variable_unifies_with_itself_without_binding() {
    let s = unify(&tvar("a"), &tvar("a")).unwrap();
    assert!(s.entries.is_empty());
}

#[test]
fn function_types_unify_componentwise() {
    let t1 = tfun(tvar("a"), named("Int"));
    let t2 = tfun(named("Bool"), tvar("b"));
    let s = unify(&t1, &t2).unwrap();
    assert_eq!(appl_subs_to_type(&s, &t1), tfun(named("Bool"), named("Int")));
    assert_eq!(appl_subs_to_type(&s, &t1), appl_subs_to_type(&s, &t2));
}

#[test]
fn domain_bindings_reach_the_codomains() {
    // Unifying the domains binds a; the codomains are rewritten by that
    // binding before they are unified.
    let t1 = tfun(tvar("a"), tvar("a"));
    let t2 = tfun(named("Int"), tvar("b"));
    let s = unify(&t1, &t2).unwrap();
    assert_eq!(appl_subs_to_type(&s, &t1), tfun(named("Int"), named("Int")));
    assert_eq!(appl_subs_to_type(&s, &t2), tfun(named("Int"), named("Int")));
}

#[test]
fn unification_is_symmetric_in_success() {
    let t1 = tfun(tvar("a"), named("Int"));
    let t2 = tfun(named("Bool"), tvar("b"));
    let s12 = unify(&t1, &t2).unwrap();
    let s21 = unify(&t2, &t1).unwrap();
    assert_eq!(appl_subs_to_type(&s12, &t1), appl_subs_to_type(&s12, &t2));
    assert_eq!(appl_subs_to_type(&s21, &t1), appl_subs_to_type(&s21, &t2));
}

#[test]
fn unification_is_symmetric_in_failure() {
    assert!(unify(&named("Int"), &named("Bool")).is_err());
    assert!(unify(&named("Bool"), &named("Int")).is_err());
    let t = tfun(tvar("a"), named("Int"));
    assert!(unify(&named("Int"), &t).is_err());
    assert!(unify(&t, &named("Int")).is_err());
}

#[test]
fn occurs_check_rejects_infinite_types() {
    let t = tfun(tvar("a"), named("Int"));
    let err = unify(&tvar("a"), &t).unwrap_err();
    assert_eq!(err, InferenceError::InfiniteType { name: "a".to_string(), ty: t });
}

#[test]
fn bind_fails_exactly_when_the_variable_occurs() {
    let name = "a".to_string();
    let inside = tfun(named("Int"), tvar("a"));
    assert!(contains(&inside, &name));
    assert!(matches!(
        var_bind(&name, &inside),
        Err(InferenceError::InfiniteType { .. })
    ));
    let outside = tfun(named("Int"), tvar("b"));
    assert!(!contains(&outside, &name));
    let s = var_bind(&name, &outside).unwrap();
    assert_eq!(s.get(&name), Some(&outside));
}

#[test]
fn bind_of_a_variable_to_itself_is_empty() {
    let name = "a".to_string();
    assert!(contains(&tvar("a"), &name));
    let s = var_bind(&name, &tvar("a")).unwrap();
    assert!(s.entries.is_empty());
}

#[test]
fn occurs_is_structural() {
    let name = "a".to_string();
    assert!(!contains(&named("a"), &name));
    assert!(contains(&tvar("a"), &name));
    assert!(contains(&tfun(tvar("a"), named("Int")), &name));
    assert!(contains(&tfun(named("Int"), tfun(named("Bool"), tvar("a"))), &name));
    assert!(!contains(&tfun(named("Int"), named("Bool")), &name));
}
