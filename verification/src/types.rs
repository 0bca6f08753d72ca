//! The expression tree being typed, the type tree produced by inference,
//! and the error values a failed inference carries, each with a ghost model
//! over `Seq<char>` names.

use vstd::prelude::*;

verus! {

/// An expression of the object language, owned by the caller and only read
/// by inference.
#[derive(Debug)]
pub enum Expression {
    EInt { value: i32 },
    EVar { name: String },
    EFunc { param: String, body: Box<Expression> },
    ECall { func: Box<Expression>, arg: Box<Expression> },
    EIf { cond: Box<Expression>, true_b: Box<Expression>, false_b: Box<Expression> },
}

/// A type of the object language: a concrete nominal type, an unresolved
/// type variable (two variables are the same iff their names are equal), or
/// a function type.
#[derive(Debug, PartialEq, Eq)]
pub enum Type {
    TNamed { name: String },
    TVar { name: String },
    TFun { from: Box<Type>, to: Box<Type> },
}

/// The ghost model of a `Type`: the same tree with names as `Seq<char>`.
pub enum SpecType {
    Named { name: Seq<char> },
    Var { name: Seq<char> },
    Fun { from: Box<SpecType>, to: Box<SpecType> },
}

/// The ghost model of an `Expression`.
pub enum SpecExpression {
    Int { value: int },
    Var { name: Seq<char> },
    Func { param: Seq<char>, body: Box<SpecExpression> },
    Call { func: Box<SpecExpression>, arg: Box<SpecExpression> },
    If { cond: Box<SpecExpression>, true_b: Box<SpecExpression>, false_b: Box<SpecExpression> },
}

impl View for Type {
    type V = SpecType;

    open spec fn view(&self) -> SpecType
        decreases self,
    {
        match self {
            Type::TNamed { name } => SpecType::Named { name: name@ },
            Type::TVar { name } => SpecType::Var { name: name@ },
            Type::TFun { from, to } => SpecType::Fun {
                from: Box::new((**from)@),
                to: Box::new((**to)@),
            },
        }
    }
}

impl View for Expression {
    type V = SpecExpression;

    open spec fn view(&self) -> SpecExpression
        decreases self,
    {
        match self {
            Expression::EInt { value } => SpecExpression::Int { value: *value as int },
            Expression::EVar { name } => SpecExpression::Var { name: name@ },
            Expression::EFunc { param, body } => SpecExpression::Func {
                param: param@,
                body: Box::new((**body)@),
            },
            Expression::ECall { func, arg } => SpecExpression::Call {
                func: Box::new((**func)@),
                arg: Box::new((**arg)@),
            },
            Expression::EIf { cond, true_b, false_b } => SpecExpression::If {
                cond: Box::new((**cond)@),
                true_b: Box::new((**true_b)@),
                false_b: Box::new((**false_b)@),
            },
        }
    }
}

impl Clone for Type {
    /// A deep copy; the copy models the same type.
    fn clone(&self) -> (res: Self)
        ensures
            res == *self,
        decreases *self,
    {
        match self {
            Type::TNamed { name } => Type::TNamed { name: name.clone() },
            Type::TVar { name } => Type::TVar { name: name.clone() },
            Type::TFun { from, to } => Type::TFun {
                from: Box::new((**from).clone()),
                to: Box::new((**to).clone()),
            },
        }
    }
}

/// The number of nodes in a type tree; the measure behind every structural
/// induction over types.
pub open spec fn type_size(t: SpecType) -> nat
    decreases t,
{
    match t {
        SpecType::Named { .. } => 1,
        SpecType::Var { .. } => 1,
        SpecType::Fun { from, to } => 1 + type_size(*from) + type_size(*to),
    }
}

/// The set of type-variable names occurring in a type.
pub open spec fn type_vars(t: SpecType) -> Set<Seq<char>>
    decreases t,
{
    match t {
        SpecType::Named { .. } => Set::empty(),
        SpecType::Var { name } => Set::empty().insert(name),
        SpecType::Fun { from, to } => type_vars(*from).union(type_vars(*to)),
    }
}

/// Every type has finitely many variables.
pub proof fn lemma_type_vars_finite(t: SpecType)
    ensures
        type_vars(t).finite(),
    decreases t,
{
    match t {
        SpecType::Named { .. } => {},
        SpecType::Var { .. } => {},
        SpecType::Fun { from, to } => {
            lemma_type_vars_finite(*from);
            lemma_type_vars_finite(*to);
        },
    }
}

/// A failed inference: a variable expression without a binding, two types
/// with incompatible shapes, or a binding the occurs check rejected.
#[derive(Debug, PartialEq, Eq)]
pub enum InferenceError {
    UnboundVariable { name: String },
    TypeMismatch { expected: Type, found: Type },
    InfiniteType { name: String, ty: Type },
}

/// The ghost model of an `InferenceError`.
pub enum SpecError {
    UnboundVariable { name: Seq<char> },
    TypeMismatch { expected: SpecType, found: SpecType },
    InfiniteType { name: Seq<char>, ty: SpecType },
}

impl View for InferenceError {
    type V = SpecError;

    open spec fn view(&self) -> SpecError {
        match self {
            InferenceError::UnboundVariable { name } => SpecError::UnboundVariable { name: name@ },
            InferenceError::TypeMismatch { expected, found } => SpecError::TypeMismatch {
                expected: expected@,
                found: found@,
            },
            InferenceError::InfiniteType { name, ty } => SpecError::InfiniteType {
                name: name@,
                ty: ty@,
            },
        }
    }
}

} // verus!
