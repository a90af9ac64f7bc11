//! Polynomial expressions over the cells of a row and its neighbours.

use crate::bn256::fr::fr_add;
use crate::bn256::fr::fr_mul;
use crate::bn256::fr::fr_neg;
use crate::bn256::fr::fr_sub;
use crate::bn256::fr::Fr;
use crate::plonk::circuit::AdviceQuery;
use crate::plonk::circuit::Challenge;
use crate::plonk::circuit::FixedQuery;
use crate::plonk::circuit::InstanceQuery;
use crate::plonk::circuit::Selector;
use vstd::prelude::*;

verus! {

/// What an expression is evaluated in: a number for every selector, cell
/// and challenge it may name.
pub struct Env {
    /// The value of a selector, by its index: one where enabled, else zero.
    pub selector: spec_fn(int) -> nat,
    /// The value of a fixed cell, by column index and rotation.
    pub fixed: spec_fn(int, int) -> nat,
    /// The value of an advice cell, by column index and rotation.
    pub advice: spec_fn(int, int) -> nat,
    /// The value of an instance cell, by column index and rotation.
    pub instance: spec_fn(int, int) -> nat,
    /// The value of a challenge, by its index.
    pub challenge: spec_fn(int) -> nat,
}

/// Marks `x` as a value computed for the node below a node with one child.
pub open spec fn between<T>(x: T) -> bool {
    true
}

/// Marks `x` and `y` as the values computed for the two nodes below a node.
pub open spec fn between_two<T>(x: T, y: T) -> bool {
    true
}

/// Low-degree expression representing an identity that must hold over the
/// committed columns.
#[derive(Debug)]
pub enum Expression {
    /// This is a constant polynomial
    Constant(Fr),
    /// This is a virtual selector
    Selector(Selector),
    /// This is a fixed column queried at a certain relative location
    Fixed(FixedQuery),
    /// This is an advice (witness) column queried at a certain relative location
    Advice(AdviceQuery),
    /// This is an instance (external) column queried at a certain relative location
    Instance(InstanceQuery),
    /// This is a challenge
    Challenge(Challenge),
    /// This is a negated polynomial
    Negated(Box<Expression>),
    /// This is the sum of two polynomials
    Sum(Box<Expression>, Box<Expression>),
    /// This is the product of two polynomials
    Product(Box<Expression>, Box<Expression>),
    /// This is a scaled polynomial
    Scaled(Box<Expression>, Fr),
}

impl Clone for Expression {
    fn clone(&self) -> (r: Self)
        ensures
            r == *self,
        decreases *self,
    {
        match self {
            Expression::Constant(c) => Expression::Constant(*c),
            Expression::Selector(s) => Expression::Selector(*s),
            Expression::Fixed(q) => Expression::Fixed(*q),
            Expression::Advice(q) => Expression::Advice(*q),
            Expression::Instance(q) => Expression::Instance(*q),
            Expression::Challenge(c) => Expression::Challenge(*c),
            Expression::Negated(a) => Expression::Negated(Box::new((**a).clone())),
            Expression::Sum(a, b) => Expression::Sum(
                Box::new((**a).clone()),
                Box::new((**b).clone()),
            ),
            Expression::Product(a, b) => Expression::Product(
                Box::new((**a).clone()),
                Box::new((**b).clone()),
            ),
            Expression::Scaled(a, f) => Expression::Scaled(Box::new((**a).clone()), *f),
        }
    }
}

impl Expression {
    /// The value of the polynomial in `env`.
    pub open spec fn value(self, env: Env) -> nat
        decreases self,
    {
        match self {
            Expression::Constant(c) => c@,
            Expression::Selector(s) => (env.selector)(s.0 as int),
            Expression::Fixed(q) => (env.fixed)(q.column_index as int, q.rotation.0 as int),
            Expression::Advice(q) => (env.advice)(q.column_index as int, q.rotation.0 as int),
            Expression::Instance(q) => (env.instance)(q.column_index as int, q.rotation.0 as int),
            Expression::Challenge(c) => (env.challenge)(c.index as int),
            Expression::Negated(a) => fr_neg(a.value(env)),
            Expression::Sum(a, b) => fr_add(a.value(env), b.value(env)),
            Expression::Product(a, b) => fr_mul(a.value(env), b.value(env)),
            Expression::Scaled(a, f) => fr_mul(a.value(env), f@),
        }
    }

    /// Whether a simple selector occurs in the expression.
    pub open spec fn has_simple_selector(self) -> bool
        decreases self,
    {
        match self {
            Expression::Selector(s) => s.1,
            Expression::Negated(a) => a.has_simple_selector(),
            Expression::Sum(a, b) => a.has_simple_selector() || b.has_simple_selector(),
            Expression::Product(a, b) => a.has_simple_selector() || b.has_simple_selector(),
            Expression::Scaled(a, _) => a.has_simple_selector(),
            _ => false,
        }
    }

    /// The degree of the polynomial: cells and selectors count one, products
    /// add, sums take the larger.
    pub open spec fn degree_of(self) -> nat
        decreases self,
    {
        match self {
            Expression::Constant(_) => 0,
            Expression::Challenge(_) => 0,
            Expression::Selector(_) => 1,
            Expression::Fixed(_) => 1,
            Expression::Advice(_) => 1,
            Expression::Instance(_) => 1,
            Expression::Negated(a) => a.degree_of(),
            Expression::Sum(a, b) => if a.degree_of() >= b.degree_of() {
                a.degree_of()
            } else {
                b.degree_of()
            },
            Expression::Product(a, b) => a.degree_of() + b.degree_of(),
            Expression::Scaled(a, _) => a.degree_of(),
        }
    }

    /// The estimated cost of evaluating the expression: a cell or selector
    /// costs 1, a negation 5, a sum 15, a product or a scaling 30.
    pub open spec fn complexity_of(self) -> nat
        decreases self,
    {
        match self {
            Expression::Constant(_) => 0,
            Expression::Challenge(_) => 0,
            Expression::Selector(_) => 1,
            Expression::Fixed(_) => 1,
            Expression::Advice(_) => 1,
            Expression::Instance(_) => 1,
            Expression::Negated(a) => a.complexity_of() + 5,
            Expression::Sum(a, b) => a.complexity_of() + b.complexity_of() + 15,
            Expression::Product(a, b) => a.complexity_of() + b.complexity_of() + 30,
            Expression::Scaled(a, _) => a.complexity_of() + 30,
        }
    }

    /// `r` is what the closures give for this expression: each leaf by the
    /// closure of its kind, each inner node by the closure of its kind on
    /// what the closures give for the nodes below it.
    pub open spec fn evaluated<T, C, S, FX, A, I, CH, N, SU, P, SC>(
        self,
        constant: &C,
        selector_column: &S,
        fixed_column: &FX,
        advice_column: &A,
        instance_column: &I,
        challenge: &CH,
        negated: &N,
        sum: &SU,
        product: &P,
        scaled: &SC,
        r: T,
    ) -> bool where
        C: Fn(Fr) -> T,
        S: Fn(Selector) -> T,
        FX: Fn(FixedQuery) -> T,
        A: Fn(AdviceQuery) -> T,
        I: Fn(InstanceQuery) -> T,
        CH: Fn(Challenge) -> T,
        N: Fn(T) -> T,
        SU: Fn(T, T) -> T,
        P: Fn(T, T) -> T,
        SC: Fn(T, Fr) -> T,

        decreases self,
    {
        match self {
            Expression::Constant(c) => constant.ensures((c,), r),
            Expression::Selector(s) => selector_column.ensures((s,), r),
            Expression::Fixed(q) => fixed_column.ensures((q,), r),
            Expression::Advice(q) => advice_column.ensures((q,), r),
            Expression::Instance(q) => instance_column.ensures((q,), r),
            Expression::Challenge(c) => challenge.ensures((c,), r),
            Expression::Negated(a) => exists|x: T|
                #[trigger] between(x) && a.evaluated(
                    constant,
                    selector_column,
                    fixed_column,
                    advice_column,
                    instance_column,
                    challenge,
                    negated,
                    sum,
                    product,
                    scaled,
                    x,
                ) && negated.ensures((x,), r),
            Expression::Sum(a, b) => exists|x: T, y: T|
                #[trigger] between_two(x, y) && a.evaluated(
                    constant,
                    selector_column,
                    fixed_column,
                    advice_column,
                    instance_column,
                    challenge,
                    negated,
                    sum,
                    product,
                    scaled,
                    x,
                ) && b.evaluated(
                    constant,
                    selector_column,
                    fixed_column,
                    advice_column,
                    instance_column,
                    challenge,
                    negated,
                    sum,
                    product,
                    scaled,
                    y,
                ) && sum.ensures((x, y), r),
            Expression::Product(a, b) => exists|x: T, y: T|
                #[trigger] between_two(x, y) && a.evaluated(
                    constant,
                    selector_column,
                    fixed_column,
                    advice_column,
                    instance_column,
                    challenge,
                    negated,
                    sum,
                    product,
                    scaled,
                    x,
                ) && b.evaluated(
                    constant,
                    selector_column,
                    fixed_column,
                    advice_column,
                    instance_column,
                    challenge,
                    negated,
                    sum,
                    product,
                    scaled,
                    y,
                ) && product.ensures((x, y), r),
            Expression::Scaled(a, f) => exists|x: T|
                #[trigger] between(x) && a.evaluated(
                    constant,
                    selector_column,
                    fixed_column,
                    advice_column,
                    instance_column,
                    challenge,
                    negated,
                    sum,
                    product,
                    scaled,
                    x,
                ) && scaled.ensures((x, f), r),
        }
    }

    /// Evaluate the polynomial using the provided closures to perform the
    /// operations.
    pub fn evaluate<T, C, S, FX, A, I, CH, N, SU, P, SC>(
        &self,
        constant: &C,
        selector_column: &S,
        fixed_column: &FX,
        advice_column: &A,
        instance_column: &I,
        challenge: &CH,
        negated: &N,
        sum: &SU,
        product: &P,
        scaled: &SC,
    ) -> (r: T) where
        C: Fn(Fr) -> T,
        S: Fn(Selector) -> T,
        FX: Fn(FixedQuery) -> T,
        A: Fn(AdviceQuery) -> T,
        I: Fn(InstanceQuery) -> T,
        CH: Fn(Challenge) -> T,
        N: Fn(T) -> T,
        SU: Fn(T, T) -> T,
        P: Fn(T, T) -> T,
        SC: Fn(T, Fr) -> T,

        requires
            forall|x: Fr| #[trigger] constant.requires((x,)),
            forall|x: Selector| #[trigger] selector_column.requires((x,)),
            forall|x: FixedQuery| #[trigger] fixed_column.requires((x,)),
            forall|x: AdviceQuery| #[trigger] advice_column.requires((x,)),
            forall|x: InstanceQuery| #[trigger] instance_column.requires((x,)),
            forall|x: Challenge| #[trigger] challenge.requires((x,)),
            forall|x: T| #[trigger] negated.requires((x,)),
            forall|x: T, y: T| #[trigger] sum.requires((x, y)),
            forall|x: T, y: T| #[trigger] product.requires((x, y)),
            forall|x: T, f: Fr| #[trigger] scaled.requires((x, f)),
        ensures
            self.evaluated(
                constant,
                selector_column,
                fixed_column,
                advice_column,
                instance_column,
                challenge,
                negated,
                sum,
                product,
                scaled,
                r,
            ),
        decreases *self,
    {
        match self {
            Expression::Constant(scalar) => constant(*scalar),
            Expression::Selector(selector) => selector_column(*selector),
            Expression::Fixed(query) => fixed_column(*query),
            Expression::Advice(query) => advice_column(*query),
            Expression::Instance(query) => instance_column(*query),
            Expression::Challenge(value) => challenge(*value),
            Expression::Negated(a) => {
                let x = a.evaluate(
                    constant,
                    selector_column,
                    fixed_column,
                    advice_column,
                    instance_column,
                    challenge,
                    negated,
                    sum,
                    product,
                    scaled,
                );
                let ghost gx = x;
                let r = negated(x);
                assert(between(gx));
                r
            },
            Expression::Sum(a, b) => {
                let x = a.evaluate(
                    constant,
                    selector_column,
                    fixed_column,
                    advice_column,
                    instance_column,
                    challenge,
                    negated,
                    sum,
                    product,
                    scaled,
                );
                let y = b.evaluate(
                    constant,
                    selector_column,
                    fixed_column,
                    advice_column,
                    instance_column,
                    challenge,
                    negated,
                    sum,
                    product,
                    scaled,
                );
                let ghost gx = x;
                let ghost gy = y;
                let r = sum(x, y);
                assert(between_two(gx, gy));
                r
            },
            Expression::Product(a, b) => {
                let x = a.evaluate(
                    constant,
                    selector_column,
                    fixed_column,
                    advice_column,
                    instance_column,
                    challenge,
                    negated,
                    sum,
                    product,
                    scaled,
                );
                let y = b.evaluate(
                    constant,
                    selector_column,
                    fixed_column,
                    advice_column,
                    instance_column,
                    challenge,
                    negated,
                    sum,
                    product,
                    scaled,
                );
                let ghost gx = x;
                let ghost gy = y;
                let r = product(x, y);
                assert(between_two(gx, gy));
                r
            },
            Expression::Scaled(a, f) => {
                let x = a.evaluate(
                    constant,
                    selector_column,
                    fixed_column,
                    advice_column,
                    instance_column,
                    challenge,
                    negated,
                    sum,
                    product,
                    scaled,
                );
                let ghost gx = x;
                let r = scaled(x, *f);
                assert(between(gx));
                r
            },
        }
    }

    /// Compute the degree of this polynomial.
    pub fn degree(&self) -> (r: usize)
        requires
            self.complexity_of() <= usize::MAX,
        ensures
            r == self.degree_of(),
        decreases *self,
    {
        proof {
            self.lemma_degree_below_complexity();
        }
        match self {
            Expression::Constant(_) => 0,
            Expression::Selector(_) => 1,
            Expression::Fixed(_) => 1,
            Expression::Advice(_) => 1,
            Expression::Instance(_) => 1,
            Expression::Challenge(_) => 0,
            Expression::Negated(poly) => poly.degree(),
            Expression::Sum(a, b) => {
                let x = a.degree();
                let y = b.degree();
                if x >= y {
                    x
                } else {
                    y
                }
            },
            Expression::Product(a, b) => {
                proof {
                    a.lemma_degree_below_complexity();
                    b.lemma_degree_below_complexity();
                }
                a.degree() + b.degree()
            },
            Expression::Scaled(poly, _) => poly.degree(),
        }
    }

    /// Approximate the computational complexity of this expression.
    pub fn complexity(&self) -> (r: usize)
        requires
            self.complexity_of() <= usize::MAX,
        ensures
            r == self.complexity_of(),
        decreases *self,
    {
        match self {
            Expression::Constant(_) => 0,
            Expression::Selector(_) => 1,
            Expression::Fixed(_) => 1,
            Expression::Advice(_) => 1,
            Expression::Instance(_) => 1,
            Expression::Challenge(_) => 0,
            Expression::Negated(poly) => poly.complexity() + 5,
            Expression::Sum(a, b) => a.complexity() + b.complexity() + 15,
            Expression::Product(a, b) => a.complexity() + b.complexity() + 30,
            Expression::Scaled(poly, _) => poly.complexity() + 30,
        }
    }

    /// The degree of an expression is at most its complexity.
    pub proof fn lemma_degree_below_complexity(self)
        ensures
            self.degree_of() <= self.complexity_of(),
        decreases self,
    {
        match self {
            Expression::Negated(a) => {
                a.lemma_degree_below_complexity();
            },
            Expression::Sum(a, b) => {
                a.lemma_degree_below_complexity();
                b.lemma_degree_below_complexity();
            },
            Expression::Product(a, b) => {
                a.lemma_degree_below_complexity();
                b.lemma_degree_below_complexity();
            },
            Expression::Scaled(a, _) => {
                a.lemma_degree_below_complexity();
            },
            _ => {},
        }
    }

    /// Returns whether or not this expression contains a simple `Selector`.
    pub fn contains_simple_selector(&self) -> (r: bool)
        ensures
            r == self.has_simple_selector(),
        decreases *self,
    {
        match self {
            Expression::Selector(selector) => selector.is_simple(),
            Expression::Negated(a) => a.contains_simple_selector(),
            Expression::Sum(a, b) => a.contains_simple_selector() || b.contains_simple_selector(),
            Expression::Product(a, b) => a.contains_simple_selector()
                || b.contains_simple_selector(),
            Expression::Scaled(a, _) => a.contains_simple_selector(),
            _ => false,
        }
    }

    /// The constant polynomial `c`.
    pub fn constant(c: Fr) -> (r: Expression)
        ensures
            r == Expression::Constant(c),
            forall|env: Env| #[trigger] r.value(env) == c@,
            !r.has_simple_selector(),
            r.complexity_of() == 0,
    {
        Expression::Constant(c)
    }

    /// The negated expression.
    pub fn neg(self) -> (r: Expression)
        ensures
            r == Expression::Negated(Box::new(self)),
            forall|env: Env| #[trigger] r.value(env) == fr_neg(self.value(env)),
            r.has_simple_selector() == self.has_simple_selector(),
            r.complexity_of() == self.complexity_of() + 5,
    {
        Expression::Negated(Box::new(self))
    }

    /// The sum of two expressions without simple selectors.
    pub fn add(self, rhs: Expression) -> (r: Expression)
        requires
            !self.has_simple_selector(),
            !rhs.has_simple_selector(),
        ensures
            r == Expression::Sum(Box::new(self), Box::new(rhs)),
            forall|env: Env| #[trigger] r.value(env) == fr_add(self.value(env), rhs.value(env)),
            !r.has_simple_selector(),
            r.complexity_of() == self.complexity_of() + rhs.complexity_of() + 15,
    {
        Expression::Sum(Box::new(self), Box::new(rhs))
    }

    /// The difference of two expressions without simple selectors: the sum
    /// of the first and the negated second.
    pub fn sub(self, rhs: Expression) -> (r: Expression)
        requires
            !self.has_simple_selector(),
            !rhs.has_simple_selector(),
        ensures
            r == Expression::Sum(Box::new(self), Box::new(Expression::Negated(Box::new(rhs)))),
            forall|env: Env| #[trigger] r.value(env) == fr_sub(self.value(env), rhs.value(env)),
            !r.has_simple_selector(),
            r.complexity_of() == self.complexity_of() + rhs.complexity_of() + 20,
    {
        let ghost negated = Expression::Negated(Box::new(rhs));
        let r = Expression::Sum(Box::new(self), Box::new(Expression::Negated(Box::new(rhs))));
        assert forall|env: Env| #[trigger]
            r.value(env) == fr_sub(self.value(env), rhs.value(env)) by {
            assert(negated.value(env) == fr_neg(rhs.value(env)));
            lemma_add_neg_is_sub(self.value(env), rhs.value(env));
        }
        assert(negated.has_simple_selector() == rhs.has_simple_selector());
        assert(negated.complexity_of() == rhs.complexity_of() + 5);
        r
    }

    /// The product of two expressions, at most one of them with a simple
    /// selector.
    pub fn mul(self, rhs: Expression) -> (r: Expression)
        requires
            !(self.has_simple_selector() && rhs.has_simple_selector()),
        ensures
            r == Expression::Product(Box::new(self), Box::new(rhs)),
            forall|env: Env| #[trigger] r.value(env) == fr_mul(self.value(env), rhs.value(env)),
            r.has_simple_selector() == (self.has_simple_selector() || rhs.has_simple_selector()),
            r.complexity_of() == self.complexity_of() + rhs.complexity_of() + 30,
    {
        Expression::Product(Box::new(self), Box::new(rhs))
    }

    /// The expression scaled by a constant.
    pub fn scale(self, rhs: Fr) -> (r: Expression)
        ensures
            r == Expression::Scaled(Box::new(self), rhs),
            forall|env: Env| #[trigger] r.value(env) == fr_mul(self.value(env), rhs@),
            r.has_simple_selector() == self.has_simple_selector(),
            r.complexity_of() == self.complexity_of() + 30,
    {
        Expression::Scaled(Box::new(self), rhs)
    }

    /// Square this expression.
    pub fn square(self) -> (r: Expression)
        requires
            !self.has_simple_selector(),
        ensures
            r == Expression::Product(Box::new(self), Box::new(self)),
            forall|env: Env| #[trigger] r.value(env) == fr_mul(self.value(env), self.value(env)),
    {
        self.clone().mul(self)
    }
}

/// The difference in the field is the sum with the negation.
pub proof fn lemma_add_neg_is_sub(a: nat, b: nat)
    ensures
        fr_add(a, fr_neg(b)) == fr_sub(a, b),
{
    let p = crate::bn256::fr::fr_modulus() as int;
    vstd::arithmetic::div_mod::lemma_add_mod_noop_right(a as int, -(b as int), p);
}

} // verus!
