//! Flat intermediate representation: indexed variables, arithmetic
//! expressions over them, directive / constraint / return statements and the
//! returning function shape — together with their witness semantics and an
//! executable constraint checker.

use vstd::prelude::*;
use crate::field::{Field, FieldOps};
use crate::solver::Solver;

verus! {

/// One wire of a flat function: a non-negative index, unique within the
/// function that declares it.
#[derive(Clone, Copy, Debug, PartialEq, Eq, Hash)]
pub struct FlatVariable {
    pub id: usize,
}

impl FlatVariable {
    pub fn new(id: usize) -> (r: Self)
        ensures
            r == (FlatVariable { id }),
    {
        FlatVariable { id }
    }
}

/// An immutable expression tree over literals, variable references, addition
/// and multiplication. No subtraction or division exists at this layer;
/// negative coefficients are folded into literals by the field's own
/// negation.
#[derive(Debug, PartialEq, Eq, Hash)]
pub enum FlatExpression<T> {
    Number(T),
    Identifier(FlatVariable),
    Add(Box<FlatExpression<T>>, Box<FlatExpression<T>>),
    Mult(Box<FlatExpression<T>>, Box<FlatExpression<T>>),
}

/// A declared function input: a variable plus a visibility flag, carried
/// through unchanged for later proving-key generation.
#[derive(Clone, Copy, Debug, PartialEq, Eq, Hash)]
pub struct FlatParameter {
    pub id: FlatVariable,
    pub private: bool,
}

impl FlatParameter {
    /// A private parameter over the given variable.
    pub fn private(id: FlatVariable) -> (r: Self)
        ensures
            r == (FlatParameter { id, private: true }),
    {
        FlatParameter { id, private: true }
    }
}

/// A non-deterministic hint declaration: input expressions, freshly declared
/// output variables, and the solver that proposes the outputs at witness
/// time. The constraint system never derives those outputs algebraically.
#[derive(Debug, PartialEq, Eq, Hash)]
pub struct FlatDirective<T> {
    pub inputs: Vec<FlatExpression<T>>,
    pub outputs: Vec<FlatVariable>,
    pub solver: Solver,
}

impl<T> FlatDirective<T> {
    /// A directive whose inputs are plain variable references.
    pub fn new(outputs: Vec<FlatVariable>, solver: Solver, inputs: Vec<FlatVariable>) -> (r: Self)
        ensures
            r.outputs@ == outputs@,
            r.solver == solver,
            r.inputs@.len() == inputs@.len(),
            forall|i: int|
                0 <= i < inputs@.len() ==> r.inputs@[i] == FlatExpression::<T>::Identifier(
                    inputs@[i],
                ),
    {
        let mut exprs: Vec<FlatExpression<T>> = Vec::new();
        let mut i: usize = 0;
        while i < inputs.len()
            invariant
                0 <= i <= inputs@.len(),
                exprs@.len() == i,
                forall|j: int|
                    0 <= j < i ==> exprs@[j] == FlatExpression::<T>::Identifier(inputs@[j]),
            decreases inputs@.len() - i,
        {
            exprs.push(FlatExpression::Identifier(inputs[i]));
            i += 1;
        }
        FlatDirective { inputs: exprs, outputs, solver }
    }
}

/// The ordered output tuple of a return statement.
#[derive(Debug, PartialEq, Eq, Hash)]
pub struct FlatExpressionList<T> {
    pub expressions: Vec<FlatExpression<T>>,
}

/// One statement of a flat function. Order is significant: a directive must
/// precede any statement that reads its outputs, and the single return
/// statement comes last.
#[derive(Debug, PartialEq, Eq, Hash)]
pub enum FlatStatement<T> {
    /// Asserts that the two expressions evaluate to equal values under any
    /// accepted witness: the only mechanism tying hinted values back to
    /// verifiable semantics.
    Condition(FlatExpression<T>, FlatExpression<T>),
    /// A non-deterministic hint declaration.
    Directive(FlatDirective<T>),
    /// The function's output tuple; terminal, at most one per function.
    Return(FlatExpressionList<T>),
}

/// An ordered parameter list plus an ordered statement list.
#[derive(Debug, PartialEq, Eq, Hash)]
pub struct FlatFunction<T> {
    pub arguments: Vec<FlatParameter>,
    pub statements: Vec<FlatStatement<T>>,
}

/// The value of an expression under a witness, in the field of `T`. Every
/// addition and multiplication is reduced modulo the field's modulus; a
/// variable beyond the witness reads as zero.
pub open spec fn eval_expr<T: Field>(e: FlatExpression<T>, w: Seq<nat>) -> nat
    decreases e,
{
    match e {
        FlatExpression::Number(v) => v.as_nat(),
        FlatExpression::Identifier(x) => if (x.id as nat) < w.len() {
            w[x.id as int]
        } else {
            0
        },
        FlatExpression::Add(a, b) => (eval_expr(*a, w) + eval_expr(*b, w)) % T::modulus_spec(),
        FlatExpression::Mult(a, b) => (eval_expr(*a, w) * eval_expr(*b, w)) % T::modulus_spec(),
    }
}

/// Whether a witness satisfies one statement: a condition demands equal
/// values; directives and returns constrain nothing by themselves.
pub open spec fn stmt_holds<T: Field>(s: FlatStatement<T>, w: Seq<nat>) -> bool {
    match s {
        FlatStatement::Condition(l, r) => eval_expr(l, w) == eval_expr(r, w),
        _ => true,
    }
}

/// Whether a witness satisfies every constraint of a function.
pub open spec fn function_holds<T: Field>(f: FlatFunction<T>, w: Seq<nat>) -> bool {
    forall|i: int| 0 <= i < f.statements@.len() ==> stmt_holds(#[trigger] f.statements@[i], w)
}

/// All variables an expression reads lie below the given bound.
pub open spec fn expr_in_bounds<T: Field>(e: FlatExpression<T>, n: nat) -> bool
    decreases e,
{
    match e {
        FlatExpression::Number(_) => true,
        FlatExpression::Identifier(x) => (x.id as nat) < n,
        FlatExpression::Add(a, b) => expr_in_bounds(*a, n) && expr_in_bounds(*b, n),
        FlatExpression::Mult(a, b) => expr_in_bounds(*a, n) && expr_in_bounds(*b, n),
    }
}

/// All variables a statement's conditions read lie below the given bound.
pub open spec fn stmt_in_bounds<T: Field>(s: FlatStatement<T>, n: nat) -> bool {
    match s {
        FlatStatement::Condition(l, r) => expr_in_bounds(l, n) && expr_in_bounds(r, n),
        _ => true,
    }
}

/// All conditions of the function read only variables below the bound.
pub open spec fn function_in_bounds<T: Field>(f: FlatFunction<T>, n: nat) -> bool {
    forall|i: int| 0 <= i < f.statements@.len() ==> stmt_in_bounds(#[trigger] f.statements@[i], n)
}

/// The field values a witness vector assigns, variable by variable.
pub open spec fn witness_values<T: Field>(w: Seq<T>) -> Seq<nat> {
    w.map(|i: int, v: T| v.as_nat())
}

/// Evaluates an expression under a witness; `None` exactly when the
/// expression reads a variable the witness does not cover.
pub fn evaluate<T: FieldOps>(e: &FlatExpression<T>, witness: &Vec<T>) -> (r: Option<T>)
    ensures
        r is Some <==> expr_in_bounds(*e, witness@.len()),
        r matches Some(v) ==> v.as_nat() == eval_expr(*e, witness_values(witness@)),
    decreases *e,
{
    match e {
        FlatExpression::Number(v) => Some(*v),
        FlatExpression::Identifier(x) => {
            if x.id < witness.len() {
                proof {
                    assert(witness_values(witness@)[x.id as int] == witness@[x.id as int].as_nat());
                }
                Some(witness[x.id])
            } else {
                None
            }
        },
        FlatExpression::Add(a, b) => {
            match (evaluate(a, witness), evaluate(b, witness)) {
                (Some(va), Some(vb)) => Some(va.add(&vb)),
                _ => None,
            }
        },
        FlatExpression::Mult(a, b) => {
            match (evaluate(a, witness), evaluate(b, witness)) {
                (Some(va), Some(vb)) => Some(va.mul(&vb)),
                _ => None,
            }
        },
    }
}

/// Whether the witness satisfies every constraint of the function, checked
/// by evaluating both sides of each condition in the field.
pub fn check_function<T: FieldOps>(f: &FlatFunction<T>, witness: &Vec<T>) -> (r: bool)
    ensures
        r == (function_in_bounds(*f, witness@.len()) && function_holds(
            *f,
            witness_values(witness@),
        )),
{
    let n = f.statements.len();
    let mut i: usize = 0;
    while i < n
        invariant
            n == f.statements@.len(),
            0 <= i <= n,
            forall|j: int| 0 <= j < i ==> stmt_in_bounds(#[trigger] f.statements@[j], witness@.len()),
            forall|j: int|
                0 <= j < i ==> stmt_holds(#[trigger] f.statements@[j], witness_values(witness@)),
        decreases n - i,
    {
        match &f.statements[i] {
            FlatStatement::Condition(lhs, rhs) => {
                let lv = evaluate(lhs, witness);
                let rv = evaluate(rhs, witness);
                match (lv, rv) {
                    (Some(a), Some(b)) => {
                        if !a.eq_value(&b) {
                            proof {
                                assert(!stmt_holds(f.statements@[i as int], witness_values(witness@)));
                            }
                            return false;
                        }
                    },
                    _ => {
                        proof {
                            assert(!stmt_in_bounds(f.statements@[i as int], witness@.len()));
                        }
                        return false;
                    },
                }
            },
            _ => {},
        }
        i += 1;
    }
    true
}

} // verus!
