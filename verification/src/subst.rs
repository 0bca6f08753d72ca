//! Substitutions: finite mappings from type-variable names to types, with
//! idempotent application and composition.
//!
//! A substitution is stored as an association list whose ghost model is a
//! `Map<Seq<char>, SpecType>`; when a name occurs twice the later entry wins,
//! so pushing an entry models `Map::insert`.

use vstd::prelude::*;

use crate::types::Type;
use crate::types::SpecType;
use crate::types::type_vars;

verus! {

/// The map modelled by an association list; a later entry shadows an
/// earlier one with the same name.
pub open spec fn assoc_map(s: Seq<(String, Type)>) -> Map<Seq<char>, SpecType>
    decreases s.len(),
{
    if s.len() == 0 {
        Map::empty()
    } else {
        assoc_map(s.drop_last()).insert(s.last().0@, s.last().1@)
    }
}

/// The empty association list models the empty map.
pub proof fn lemma_assoc_map_empty()
    ensures
        assoc_map(Seq::empty()) == Map::<Seq<char>, SpecType>::empty(),
{
    reveal_with_fuel(assoc_map, 1);
}

/// Appending an entry models an insertion.
pub proof fn lemma_assoc_map_push(s: Seq<(String, Type)>, e: (String, Type))
    ensures
        assoc_map(s.push(e)) == assoc_map(s).insert(e.0@, e.1@),
{
    assert(s.push(e).drop_last() =~= s);
    assert(s.push(e).last() == e);
}

/// A name absent from every entry is absent from the modelled map.
pub proof fn lemma_assoc_map_absent(s: Seq<(String, Type)>, k: Seq<char>)
    requires
        forall|j: int| 0 <= j < s.len() ==> s[j].0@ != k,
    ensures
        !assoc_map(s).dom().contains(k),
    decreases s.len(),
{
    if s.len() > 0 {
        lemma_assoc_map_absent(s.drop_last(), k);
    }
}

/// The modelled map sends a name to the value of its last entry.
pub proof fn lemma_assoc_map_get(s: Seq<(String, Type)>, i: int, k: Seq<char>)
    requires
        0 <= i < s.len(),
        s[i].0@ == k,
        forall|j: int| i < j < s.len() ==> s[j].0@ != k,
    ensures
        assoc_map(s).dom().contains(k),
        assoc_map(s)[k] == s[i].1@,
    decreases s.len(),
{
    if i < s.len() - 1 {
        lemma_assoc_map_get(s.drop_last(), i, k);
    }
}

/// A substitution: type-variable names mapped to the types that stand for
/// them. Applying it to a type that contains one of its own keys terminates
/// because the occurs check forbids a binding whose type contains the bound
/// name.
#[derive(Debug)]
pub struct Substitution {
    pub entries: Vec<(String, Type)>,
}

impl View for Substitution {
    type V = Map<Seq<char>, SpecType>;

    open spec fn view(&self) -> Map<Seq<char>, SpecType> {
        assoc_map(self.entries@)
    }
}

/// Looks a name up in an association list, honouring the last-entry-wins
/// model.
pub(crate) fn assoc_get<'a>(entries: &'a Vec<(String, Type)>, name: &String) -> (r: Option<
    &'a Type,
>)
    ensures
        match r {
            Some(t) => assoc_map(entries@).dom().contains(name@) && t@ == assoc_map(entries@)[name@],
            None => !assoc_map(entries@).dom().contains(name@),
        },
{
    let mut i: usize = entries.len();
    while i > 0
        invariant
            i <= entries.len(),
            forall|j: int| i <= j < entries@.len() ==> entries@[j].0@ != name@,
        decreases i,
    {
        i = i - 1;
        if entries[i].0 == *name {
            proof {
                lemma_assoc_map_get(entries@, i as int, name@);
            }
            return Some(&entries[i].1);
        }
    }
    proof {
        lemma_assoc_map_absent(entries@, name@);
    }
    None
}

impl Substitution {
    /// The identity substitution, with no keys.
    pub fn new() -> (s: Substitution)
        ensures
            s@ == Map::<Seq<char>, SpecType>::empty(),
    {
        Substitution { entries: Vec::new() }
    }

    /// The type a name is mapped to, if any.
    pub fn get<'a>(&'a self, name: &String) -> (r: Option<&'a Type>)
        ensures
            match r {
                Some(t) => self@.dom().contains(name@) && t@ == self@[name@],
                None => !self@.dom().contains(name@),
            },
    {
        assoc_get(&self.entries, name)
    }

    /// A substitution binding exactly one name. The caller has run the
    /// occurs check, so `name` does not occur in `t`.
    pub fn singleton(name: &String, t: &Type) -> (s: Substitution)
        ensures
            s@ == Map::<Seq<char>, SpecType>::empty().insert(name@, t@),
    {
        let mut entries: Vec<(String, Type)> = Vec::new();
        let entry = (name.clone(), t.clone());
        let ghost e = entry;
        entries.push(entry);
        proof {
            lemma_assoc_map_empty();
            lemma_assoc_map_push(Seq::empty(), e);
            assert(entries@ =~= Seq::<(String, Type)>::empty().push(e));
        }
        Substitution { entries }
    }
}

/// What applying a substitution to a type yields: every variable with an
/// entry is replaced by that entry's type (not further rewritten), other
/// variables and named types are unchanged, and function types are rewritten
/// structurally.
pub open spec fn apply_spec(s: Map<Seq<char>, SpecType>, t: SpecType) -> SpecType
    decreases t,
{
    match t {
        SpecType::Named { .. } => t,
        SpecType::Var { name } => if s.dom().contains(name) {
            s[name]
        } else {
            t
        },
        SpecType::Fun { from, to } => SpecType::Fun {
            from: Box::new(apply_spec(s, *from)),
            to: Box::new(apply_spec(s, *to)),
        },
    }
}

/// The composition `s1` after `s2`: applying it equals applying `s2` first
/// and `s1` second. Every key of `s2` is bound to `s1` applied to its value,
/// and the keys of `s1` absent from `s2` keep their own bindings.
pub open spec fn compose_spec(
    s1: Map<Seq<char>, SpecType>,
    s2: Map<Seq<char>, SpecType>,
) -> Map<Seq<char>, SpecType> {
    Map::new(
        |k: Seq<char>| s1.dom().contains(k) || s2.dom().contains(k),
        |k: Seq<char>|
            if s2.dom().contains(k) {
                apply_spec(s1, s2[k])
            } else {
                s1[k]
            },
    )
}

/// Replaces the variables of `type_` that `subst` maps, recursively through
/// function types.
pub fn appl_subs_to_type(subst: &Substitution, type_: &Type) -> (r: Type)
    ensures
        r@ == apply_spec(subst@, type_@),
    decreases *type_,
{
    match type_ {
        Type::TNamed { .. } => type_.clone(),
        Type::TVar { name } => match assoc_get(&subst.entries, name) {
            Some(t) => t.clone(),
            None => type_.clone(),
        },
        Type::TFun { from, to } => Type::TFun {
            from: Box::new(appl_subs_to_type(subst, from)),
            to: Box::new(appl_subs_to_type(subst, to)),
        },
    }
}

/// Combines two substitutions into the one that applies `s2` first and `s1`
/// second: `s2`'s values are rewritten by `s1`, and `s1`'s own bindings are
/// carried through for every name `s2` does not map.
pub fn compose_substitution(s1: &Substitution, s2: &Substitution) -> (r: Substitution)
    ensures
        r@ == compose_spec(s1@, s2@),
{
    let mut entries: Vec<(String, Type)> = Vec::new();
    proof {
        lemma_assoc_map_empty();
        assert(s1.entries@.take(0int) =~= Seq::<(String, Type)>::empty());
    }
    let mut i: usize = 0;
    while i < s1.entries.len()
        invariant
            i <= s1.entries.len(),
            assoc_map(entries@) == assoc_map(s1.entries@.take(i as int)),
        decreases s1.entries.len() - i,
    {
        let ghost pre = entries@;
        let entry = (s1.entries[i].0.clone(), s1.entries[i].1.clone());
        let ghost e = entry;
        entries.push(entry);
        proof {
            lemma_assoc_map_push(pre, e);
            assert(s1.entries@.take(i as int + 1).drop_last() =~= s1.entries@.take(i as int));
            assert(s1.entries@.take(i as int + 1).last() == s1.entries@[i as int]);
        }
        i = i + 1;
    }
    proof {
        assert(s1.entries@.take(s1.entries@.len() as int) =~= s1.entries@);
        assert(s2.entries@.take(0int) =~= Seq::<(String, Type)>::empty());
        assert(compose_spec(s1@, Map::empty()) =~= s1@);
    }
    let mut j: usize = 0;
    while j < s2.entries.len()
        invariant
            j <= s2.entries.len(),
            assoc_map(entries@) == compose_spec(s1@, assoc_map(s2.entries@.take(j as int))),
        decreases s2.entries.len() - j,
    {
        let ghost pre = entries@;
        let ghost m2 = assoc_map(s2.entries@.take(j as int));
        let mapped = appl_subs_to_type(s1, &s2.entries[j].1);
        let entry = (s2.entries[j].0.clone(), mapped);
        let ghost e = entry;
        entries.push(entry);
        proof {
            lemma_assoc_map_push(pre, e);
            assert(s2.entries@.take(j as int + 1).drop_last() =~= s2.entries@.take(j as int));
            assert(s2.entries@.take(j as int + 1).last() == s2.entries@[j as int]);
            assert(compose_spec(s1@, m2.insert(e.0@, s2.entries@[j as int].1@)) =~= compose_spec(
                s1@,
                m2,
            ).insert(e.0@, apply_spec(s1@, s2.entries@[j as int].1@)));
        }
        j = j + 1;
    }
    proof {
        assert(s2.entries@.take(s2.entries@.len() as int) =~= s2.entries@);
    }
    Substitution { entries }
}

/// Substitution identity: the empty substitution maps every type to itself.
pub proof fn lemma_apply_empty_identity(t: SpecType)
    ensures
        apply_spec(Map::empty(), t) == t,
    decreases t,
{
    match t {
        SpecType::Named { .. } => {},
        SpecType::Var { .. } => {},
        SpecType::Fun { from, to } => {
            lemma_apply_empty_identity(*from);
            lemma_apply_empty_identity(*to);
        },
    }
}

/// Applying a composition equals applying its right side first and its left
/// side second.
pub proof fn lemma_apply_compose(
    s1: Map<Seq<char>, SpecType>,
    s2: Map<Seq<char>, SpecType>,
    t: SpecType,
)
    ensures
        apply_spec(compose_spec(s1, s2), t) == apply_spec(s1, apply_spec(s2, t)),
    decreases t,
{
    match t {
        SpecType::Named { .. } => {},
        SpecType::Var { name } => {},
        SpecType::Fun { from, to } => {
            lemma_apply_compose(s1, s2, *from);
            lemma_apply_compose(s1, s2, *to);
        },
    }
}

/// Composition associativity: the two ways of composing three substitutions
/// give the same mapping, so they apply identically to every type.
pub proof fn lemma_compose_associative(
    a: Map<Seq<char>, SpecType>,
    b: Map<Seq<char>, SpecType>,
    c: Map<Seq<char>, SpecType>,
)
    ensures
        compose_spec(a, compose_spec(b, c)) == compose_spec(compose_spec(a, b), c),
        forall|t: SpecType| #[trigger] apply_spec(compose_spec(a, compose_spec(b, c)), t)
            == apply_spec(a, apply_spec(b, apply_spec(c, t))),
{
    assert forall|k: Seq<char>|
        compose_spec(a, compose_spec(b, c)).dom().contains(k) implies compose_spec(
        compose_spec(a, b),
        c,
    ).dom().contains(k) && compose_spec(a, compose_spec(b, c))[k] == compose_spec(
        compose_spec(a, b),
        c,
    )[k] by {
        if c.dom().contains(k) {
            lemma_apply_compose(a, b, c[k]);
        }
    }
    assert(compose_spec(a, compose_spec(b, c)) =~= compose_spec(compose_spec(a, b), c));
    assert forall|t: SpecType| #[trigger] apply_spec(compose_spec(a, compose_spec(b, c)), t)
        == apply_spec(a, apply_spec(b, apply_spec(c, t))) by {
        lemma_apply_compose(a, compose_spec(b, c), t);
        lemma_apply_compose(b, c, t);
    }
}

/// A substitution whose keys are all absent from a type leaves it unchanged.
pub proof fn lemma_apply_disjoint(s: Map<Seq<char>, SpecType>, t: SpecType)
    requires
        type_vars(t).disjoint(s.dom()),
    ensures
        apply_spec(s, t) == t,
    decreases t,
{
    match t {
        SpecType::Named { .. } => {},
        SpecType::Var { name } => {
            assert(type_vars(t).contains(name));
        },
        SpecType::Fun { from, to } => {
            assert(type_vars(*from).subset_of(type_vars(t)));
            assert(type_vars(*to).subset_of(type_vars(t)));
            lemma_apply_disjoint(s, *from);
            lemma_apply_disjoint(s, *to);
        },
    }
}

/// No key of a substitution survives its own application when no bound type
/// mentions a key, and no new variables appear beyond `bound`.
pub proof fn lemma_apply_vars(
    s: Map<Seq<char>, SpecType>,
    bound: Set<Seq<char>>,
    t: SpecType,
)
    requires
        forall|k: Seq<char>| #[trigger] s.dom().contains(k) ==> type_vars(s[k]).subset_of(bound)
            && type_vars(s[k]).disjoint(s.dom()),
    ensures
        type_vars(apply_spec(s, t)).subset_of(
            type_vars(t).union(bound).difference(s.dom()),
        ),
    decreases t,
{
    match t {
        SpecType::Named { .. } => {},
        SpecType::Var { name } => {},
        SpecType::Fun { from, to } => {
            lemma_apply_vars(s, bound, *from);
            lemma_apply_vars(s, bound, *to);
        },
    }
}

/// Whether no bound type mentions any key of the substitution; such a
/// substitution is idempotent.
pub open spec fn subst_no_self(s: Map<Seq<char>, SpecType>) -> bool {
    forall|k: Seq<char>| #[trigger] s.dom().contains(k) ==> type_vars(s[k]).disjoint(s.dom())
}

/// Self-application idempotence: a substitution none of whose bound types
/// mentions one of its keys rewrites its own output to itself, so applying
/// it a second time is a no-op.
pub proof fn lemma_apply_idempotent(s: Map<Seq<char>, SpecType>, t: SpecType)
    requires
        subst_no_self(s),
    ensures
        apply_spec(s, apply_spec(s, t)) == apply_spec(s, t),
    decreases t,
{
    match t {
        SpecType::Named { .. } => {},
        SpecType::Var { name } => {
            if s.dom().contains(name) {
                lemma_apply_disjoint(s, s[name]);
            }
        },
        SpecType::Fun { from, to } => {
            lemma_apply_idempotent(s, *from);
            lemma_apply_idempotent(s, *to);
        },
    }
}

} // verus!
