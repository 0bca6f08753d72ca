use hm_infer::subst::{appl_subs_to_type, compose_substitution, Substitution};
use hm_infer::types::Type;

fn named(n: &str) -> Type {
    Type::TNamed { name: n.to_string() }
}

fn tvar(n: &str) -> Type {
    Type::TVar { name: n.to_string() }
}

fn tfun(from: Type, to: Type) -> Type {
    Type::TFun { from: Box::new(from), to: Box::new(to) }
}

#[test]
fn empty_substitution_is_identity() {
    let empty = Substitution::new();
    let t = tfun(tvar("a"), tfun(named("Int"), tvar("b")));
    assert_eq!(appl_subs_to_type(&empty, &t), t);
    assert_eq!(appl_subs_to_type(&empty, &named("Bool")), named("Bool"));
    assert_eq!(appl_subs_to_type(&empty, &tvar("a")), tvar("a"));
}

#[test]
fn apply_rewrites_variables_recursively() {
    // Applying {a: Bool, b: Int} to (a -> b) gives (Bool -> Int).
    let s = compose_substitution(
        &Substitution::singleton(&"a".to_string(), &named("Bool")),
        &Substitution::singleton(&"b".to_string(), &named("Int")),
    );
    let t = tfun(tvar("a"), tvar("b"));
    assert_eq!(appl_subs_to_type(&s, &t), tfun(named("Bool"), named("Int")));
}

#[test]
fn apply_leaves_unmapped_variables() {
    let s = Substitution::singleton(&"a".to_string(), &named("Int"));
    assert_eq!(appl_subs_to_type(&s, &tvar("c")), tvar("c"));
    assert_eq!(appl_subs_to_type(&s, &named("Bool")), named("Bool"));
}

#[test]
fn composition_applies_right_side_first() {
    // compose(s1, s2) binds each key of s2 to s1 applied to its type.
    let s1 = Substitution::singleton(&"a".to_string(), &named("Int"));
    let s2 = Substitution::singleton(&"b".to_string(), &tvar("a"));
    let c = compose_substitution(&s1, &s2);
    assert_eq!(c.get(&"b".to_string()), Some(&named("Int")));
}

#[test]
fn composition_keeps_left_side_bindings() {
    // Keys of s1 absent from s2 are carried through, not dropped.
    let s1 = Substitution::singleton(&"a".to_string(), &named("Int"));
    let s2 = Substitution::singleton(&"b".to_string(), &named("Bool"));
    let c = compose_substitution(&s1, &s2);
    assert_eq!(c.get(&"a".to_string()), Some(&named("Int")));
    assert_eq!(c.get(&"b".to_string()), Some(&named("Bool")));
}

#[test]
fn composition_is_associative_on_application() {
    let a = Substitution::singleton(&"x".to_string(), &named("Int"));
    let b = Substitution::singleton(&"y".to_string(), &tvar("x"));
    let c = Substitution::singleton(&"z".to_string(), &tfun(tvar("x"), tvar("y")));
    let left = compose_substitution(&a, &compose_substitution(&b, &c));
    let right = compose_substitution(&compose_substitution(&a, &b), &c);
    let t = tfun(tvar("z"), tfun(tvar("y"), tvar("x")));
    assert_eq!(appl_subs_to_type(&left, &t), appl_subs_to_type(&right, &t));
}

#[test]
fn lookup_reports_absent_names() {
    let s = Substitution::singleton(&"a".to_string(), &named("Int"));
    assert_eq!(s.get(&"missing".to_string()), None);
}

#[test]
fn apply_does_not_rewrite_substituted_results_again() {
    // Application replaces a variable by its bound type verbatim; it does
    // not chase bindings inside the inserted type.
    let s1 = Substitution::singleton(&"b".to_string(), &named("Int"));
    let s2 = Substitution::singleton(&"a".to_string(), &tvar("b"));
    let c = compose_substitution(&s2, &s1);
    // compose(s2, s1): b is bound to s2 applied to Int, which is Int;
    // a keeps its own binding Var("b").
    assert_eq!(c.get(&"b".to_string()), Some(&named("Int")));
    assert_eq!(c.get(&"a".to_string()), Some(&tvar("b")));
}
