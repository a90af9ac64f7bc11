//! The description of a circuit: how many columns, selectors and challenges
//! it has, and which gates, lookups and equality-enabled columns.

use crate::plonk::circuit::Advice;
use crate::plonk::circuit::AdviceQuery;
use crate::plonk::circuit::Any;
use crate::plonk::circuit::Challenge;
use crate::plonk::circuit::Column;
use crate::plonk::circuit::Fixed;
use crate::plonk::circuit::FixedQuery;
use crate::plonk::circuit::Instance;
use crate::plonk::circuit::InstanceQuery;
use crate::plonk::circuit::Phase;
use crate::plonk::circuit::Selector;
use crate::plonk::circuit::TableColumn;
use crate::plonk::expression::Env;
use crate::plonk::expression::Expression;
use crate::plonk::permutation::Argument;
use crate::plonk::sealed;
use crate::poly::Rotation;
use vstd::prelude::*;

verus! {

/// A named set of polynomials that must all vanish on every row.
#[derive(Debug)]
pub struct Gate {
    pub name: &'static str,
    pub polys: Vec<Expression>,
}

impl Gate {
    /// Returns constraints of this gate.
    pub fn polynomials(&self) -> (r: &Vec<Expression>)
        ensures
            *r == self.polys,
    {
        &self.polys
    }

    /// Every polynomial of this gate vanishes in `env`.
    pub open spec fn holds(self, env: Env) -> bool {
        forall|j: int| 0 <= j < self.polys@.len() ==> (#[trigger] self.polys@[j]).value(env) == 0
    }
}

/// A lookup: on every row the input must occur in the table column.
#[derive(Debug)]
pub struct Lookup {
    pub name: &'static str,
    pub input: Expression,
    pub table: TableColumn,
}

/// This is a description of the circuit environment, such as its gates,
/// column and permutation arrangements.
#[derive(Debug)]
pub struct ConstraintSystem {
    pub num_fixed_columns: usize,
    pub num_advice_columns: usize,
    pub num_instance_columns: usize,
    pub num_selectors: usize,
    pub num_challenges: usize,
    /// The phase of each advice column.
    pub advice_column_phase: Vec<sealed::Phase>,
    /// The phase of each challenge.
    pub challenge_phase: Vec<sealed::Phase>,
    pub gates: Vec<Gate>,
    pub advice_queries: Vec<(Column<Advice>, Rotation)>,
    pub instance_queries: Vec<(Column<Instance>, Rotation)>,
    pub fixed_queries: Vec<(Column<Fixed>, Rotation)>,
    /// The columns whose cells may be constrained equal.
    pub permutation: Argument,
    pub lookups: Vec<Lookup>,
}

/// The query `q` is that of `column` at `at`.
pub open spec fn is_advice_query(q: (Column<Advice>, Rotation), column: Column<Advice>, at: Rotation) -> bool {
    q.0.index == column.index && q.0.column_type.phase.0 == column.column_type.phase.0 && q.1.0
        == at.0
}

/// The query `q` is that of `column` at `at`.
pub open spec fn is_fixed_query(q: (Column<Fixed>, Rotation), column: Column<Fixed>, at: Rotation) -> bool {
    q.0.index == column.index && q.1.0 == at.0
}

/// The query `q` is that of `column` at `at`.
pub open spec fn is_instance_query(
    q: (Column<Instance>, Rotation),
    column: Column<Instance>,
    at: Rotation,
) -> bool {
    q.0.index == column.index && q.1.0 == at.0
}

impl Default for ConstraintSystem {
    fn default() -> (r: ConstraintSystem)
        ensures
            r.well_formed(),
            r.num_fixed_columns == 0,
            r.num_advice_columns == 0,
            r.num_instance_columns == 0,
            r.num_selectors == 0,
            r.num_challenges == 0,
            r.gates@.len() == 0,
            r.lookups@.len() == 0,
            r.permutation.columns@.len() == 0,
    {
        ConstraintSystem {
            num_fixed_columns: 0,
            num_advice_columns: 0,
            num_instance_columns: 0,
            num_selectors: 0,
            num_challenges: 0,
            advice_column_phase: Vec::new(),
            challenge_phase: Vec::new(),
            gates: Vec::new(),
            advice_queries: Vec::new(),
            instance_queries: Vec::new(),
            fixed_queries: Vec::new(),
            permutation: Argument::new(),
            lookups: Vec::new(),
        }
    }
}

impl ConstraintSystem {
    /// The phase lists are as long as the counts they belong to.
    pub open spec fn well_formed(&self) -> bool {
        &&& self.advice_column_phase@.len() == self.num_advice_columns
        &&& self.challenge_phase@.len() == self.num_challenges
    }

    /// Some advice column is in phase `phase`.
    pub open spec fn phase_exists(&self, phase: u8) -> bool {
        exists|i: int|
            0 <= i < self.advice_column_phase@.len() && (#[trigger] self.advice_column_phase@[i]).0
                == phase
    }

    /// Everything but what `f` changes is as in `before`: used to say what a
    /// method leaves alone.
    pub open spec fn same_columns(&self, before: &ConstraintSystem) -> bool {
        &&& self.num_fixed_columns == before.num_fixed_columns
        &&& self.num_advice_columns == before.num_advice_columns
        &&& self.num_instance_columns == before.num_instance_columns
        &&& self.num_selectors == before.num_selectors
        &&& self.num_challenges == before.num_challenges
        &&& self.advice_column_phase == before.advice_column_phase
        &&& self.challenge_phase == before.challenge_phase
    }

    /// Gates, lookups and equality-enabled columns are as in `before`.
    pub open spec fn same_constraints(&self, before: &ConstraintSystem) -> bool {
        &&& self.gates == before.gates
        &&& self.lookups == before.lookups
        &&& self.permutation == before.permutation
    }

    /// Allocate a new (simple) selector. Simple selectors cannot be added to
    /// expressions nor multiplied by other expressions containing simple
    /// selectors.
    pub fn selector(&mut self) -> (r: Selector)
        requires
            old(self).num_selectors < usize::MAX,
        ensures
            r == Selector(old(self).num_selectors, true),
            final(self).num_selectors == old(self).num_selectors + 1,
            final(self).num_fixed_columns == old(self).num_fixed_columns,
            final(self).num_advice_columns == old(self).num_advice_columns,
            final(self).num_instance_columns == old(self).num_instance_columns,
            final(self).num_challenges == old(self).num_challenges,
            final(self).advice_column_phase == old(self).advice_column_phase,
            final(self).challenge_phase == old(self).challenge_phase,
            final(self).same_constraints(old(self)),
    {
        let index = self.num_selectors;
        self.num_selectors += 1;
        Selector(index, true)
    }

    /// Allocate a new complex selector that can appear anywhere within
    /// expressions.
    pub fn complex_selector(&mut self) -> (r: Selector)
        requires
            old(self).num_selectors < usize::MAX,
        ensures
            r == Selector(old(self).num_selectors, false),
            final(self).num_selectors == old(self).num_selectors + 1,
            final(self).num_fixed_columns == old(self).num_fixed_columns,
            final(self).num_advice_columns == old(self).num_advice_columns,
            final(self).num_instance_columns == old(self).num_instance_columns,
            final(self).num_challenges == old(self).num_challenges,
            final(self).advice_column_phase == old(self).advice_column_phase,
            final(self).challenge_phase == old(self).challenge_phase,
            final(self).same_constraints(old(self)),
    {
        let index = self.num_selectors;
        self.num_selectors += 1;
        Selector(index, false)
    }

    /// Allocate a new fixed column.
    pub fn fixed_column(&mut self) -> (r: Column<Fixed>)
        requires
            old(self).num_fixed_columns < usize::MAX,
        ensures
            r.index == old(self).num_fixed_columns,
            final(self).num_fixed_columns == old(self).num_fixed_columns + 1,
            final(self).num_selectors == old(self).num_selectors,
            final(self).num_advice_columns == old(self).num_advice_columns,
            final(self).num_instance_columns == old(self).num_instance_columns,
            final(self).num_challenges == old(self).num_challenges,
            final(self).advice_column_phase == old(self).advice_column_phase,
            final(self).challenge_phase == old(self).challenge_phase,
            final(self).same_constraints(old(self)),
    {
        let tmp = Column { index: self.num_fixed_columns, column_type: Fixed };
        self.num_fixed_columns += 1;
        tmp
    }

    /// Allocates a new fixed column that can be used in a lookup table.
    pub fn lookup_table_column(&mut self) -> (r: TableColumn)
        requires
            old(self).num_fixed_columns < usize::MAX,
        ensures
            r.inner.index == old(self).num_fixed_columns,
            final(self).num_fixed_columns == old(self).num_fixed_columns + 1,
            final(self).num_selectors == old(self).num_selectors,
            final(self).num_advice_columns == old(self).num_advice_columns,
            final(self).num_instance_columns == old(self).num_instance_columns,
            final(self).num_challenges == old(self).num_challenges,
            final(self).advice_column_phase == old(self).advice_column_phase,
            final(self).challenge_phase == old(self).challenge_phase,
            final(self).same_constraints(old(self)),
    {
        TableColumn { inner: self.fixed_column() }
    }

    /// Allocate a new instance column.
    pub fn instance_column(&mut self) -> (r: Column<Instance>)
        requires
            old(self).num_instance_columns < usize::MAX,
        ensures
            r.index == old(self).num_instance_columns,
            final(self).num_instance_columns == old(self).num_instance_columns + 1,
            final(self).num_selectors == old(self).num_selectors,
            final(self).num_advice_columns == old(self).num_advice_columns,
            final(self).num_fixed_columns == old(self).num_fixed_columns,
            final(self).num_challenges == old(self).num_challenges,
            final(self).advice_column_phase == old(self).advice_column_phase,
            final(self).challenge_phase == old(self).challenge_phase,
            final(self).same_constraints(old(self)),
    {
        let tmp = Column { index: self.num_instance_columns, column_type: Instance };
        self.num_instance_columns += 1;
        tmp
    }

    /// Allocate a new advice column at `FirstPhase`.
    pub fn advice_column(&mut self) -> (r: Column<Advice>)
        requires
            old(self).num_advice_columns < usize::MAX,
            old(self).well_formed(),
        ensures
            r.index == old(self).num_advice_columns,
            r.column_type.phase.0 == 0,
            final(self).num_advice_columns == old(self).num_advice_columns + 1,
            final(self).advice_column_phase@ == old(self).advice_column_phase@.push(
                sealed::Phase(0),
            ),
            final(self).well_formed(),
            final(self).num_selectors == old(self).num_selectors,
            final(self).num_instance_columns == old(self).num_instance_columns,
            final(self).num_fixed_columns == old(self).num_fixed_columns,
            final(self).num_challenges == old(self).num_challenges,
            final(self).challenge_phase == old(self).challenge_phase,
            final(self).same_constraints(old(self)),
    {
        let phase = sealed::Phase(0);
        let tmp = Column { index: self.num_advice_columns, column_type: Advice { phase } };
        self.num_advice_columns += 1;
        self.advice_column_phase.push(phase);
        tmp
    }

    /// Allocate a new advice column in given phase. A phase after the first
    /// needs a column in the phase before it.
    pub fn advice_column_in<P: Phase>(&mut self, phase: P) -> (r: Column<Advice>)
        requires
            old(self).num_advice_columns < usize::MAX,
            old(self).well_formed(),
            phase.number() > 0 ==> old(self).phase_exists((phase.number() - 1) as u8),
        ensures
            r.index == old(self).num_advice_columns,
            r.column_type.phase.0 == phase.number(),
            final(self).num_advice_columns == old(self).num_advice_columns + 1,
            final(self).advice_column_phase@ == old(self).advice_column_phase@.push(
                sealed::Phase(phase.number()),
            ),
            final(self).well_formed(),
            final(self).num_selectors == old(self).num_selectors,
            final(self).num_instance_columns == old(self).num_instance_columns,
            final(self).num_fixed_columns == old(self).num_fixed_columns,
            final(self).num_challenges == old(self).num_challenges,
            final(self).challenge_phase == old(self).challenge_phase,
            final(self).same_constraints(old(self)),
    {
        let phase = phase.to_sealed();
        let tmp = Column { index: self.num_advice_columns, column_type: Advice { phase } };
        self.num_advice_columns += 1;
        self.advice_column_phase.push(phase);
        tmp
    }

    /// Requests a challenge that is usable after the given phase, which
    /// needs a column in that phase.
    pub fn challenge_usable_after<P: Phase>(&mut self, phase: P) -> (r: Challenge)
        requires
            old(self).num_challenges < usize::MAX,
            old(self).well_formed(),
            old(self).phase_exists(phase.number()),
        ensures
            r.index == old(self).num_challenges,
            r.phase.0 == phase.number(),
            final(self).num_challenges == old(self).num_challenges + 1,
            final(self).challenge_phase@ == old(self).challenge_phase@.push(
                sealed::Phase(phase.number()),
            ),
            final(self).well_formed(),
            final(self).num_selectors == old(self).num_selectors,
            final(self).num_instance_columns == old(self).num_instance_columns,
            final(self).num_fixed_columns == old(self).num_fixed_columns,
            final(self).num_advice_columns == old(self).num_advice_columns,
            final(self).advice_column_phase == old(self).advice_column_phase,
            final(self).same_constraints(old(self)),
    {
        let phase = phase.to_sealed();
        let tmp = Challenge { index: self.num_challenges, phase };
        self.num_challenges += 1;
        self.challenge_phase.push(phase);
        tmp
    }

    /// Whether some advice column is in `phase`.
    pub fn has_phase(&self, phase: sealed::Phase) -> (r: bool)
        ensures
            r == self.phase_exists(phase.0),
    {
        let mut i: usize = 0;
        while i < self.advice_column_phase.len()
            invariant
                i <= self.advice_column_phase@.len(),
                forall|k: int| 0 <= k < i ==> (#[trigger] self.advice_column_phase@[k]).0 != phase.0,
            decreases self.advice_column_phase@.len() - i,
        {
            if self.advice_column_phase[i].0 == phase.0 {
                return true;
            }
            i += 1;
        }
        false
    }

    /// The largest phase of an advice column, zero without columns.
    pub fn max_phase(&self) -> (r: u8)
        ensures
            forall|k: int|
                0 <= k < self.advice_column_phase@.len() ==> (
                #[trigger] self.advice_column_phase@[k]).0 <= r,
            r == 0 || self.phase_exists(r),
    {
        let mut max: u8 = 0;
        let mut i: usize = 0;
        while i < self.advice_column_phase.len()
            invariant
                i <= self.advice_column_phase@.len(),
                forall|k: int| 0 <= k < i ==> (#[trigger] self.advice_column_phase@[k]).0 <= max,
                max == 0 || self.phase_exists(max),
            decreases self.advice_column_phase@.len() - i,
        {
            if self.advice_column_phase[i].0 > max {
                max = self.advice_column_phase[i].0;
            }
            i += 1;
        }
        max
    }

    /// Enable the ability to enforce equality over cells in this column.
    pub fn enable_equality(&mut self, column: Column<Any>)
        ensures
            final(self).same_columns(old(self)),
            final(self).gates == old(self).gates,
            final(self).lookups == old(self).lookups,
            final(self).permutation.columns@ == Argument::with_column(
                old(self).permutation.columns@,
                column,
            ),
    {
        self.permutation.add_column(column);
    }

    /// Query a selector at the current position.
    pub fn query_selector(&self, selector: Selector) -> (r: Expression)
        ensures
            r == Expression::Selector(selector),
            forall|env: Env| #[trigger] r.value(env) == (env.selector)(selector.0 as int),
            r.has_simple_selector() == selector.1,
            r.complexity_of() == 1,
    {
        Expression::Selector(selector)
    }

    /// Query an advice column at a relative position.
    pub fn query_advice(&mut self, column: Column<Advice>, at: Rotation) -> (r: Expression)
        ensures
            r matches Expression::Advice(q) && q.column_index == column.index && q.rotation == at
                && q.phase == column.column_type.phase,
            forall|env: Env| #[trigger]
                r.value(env) == (env.advice)(column.index as int, at.0 as int),
            !r.has_simple_selector(),
            r.complexity_of() == 1,
            final(self).same_columns(old(self)),
            final(self).same_constraints(old(self)),
    {
        let index = self.query_advice_index(column, at);
        Expression::Advice(
            AdviceQuery {
                index,
                column_index: column.index,
                rotation: at,
                phase: column.column_type.phase,
            },
        )
    }

    /// Query a fixed column at a relative position.
    pub fn query_fixed(&mut self, column: Column<Fixed>, at: Rotation) -> (r: Expression)
        ensures
            r matches Expression::Fixed(q) && q.column_index == column.index && q.rotation == at,
            forall|env: Env| #[trigger]
                r.value(env) == (env.fixed)(column.index as int, at.0 as int),
            !r.has_simple_selector(),
            r.complexity_of() == 1,
            final(self).same_columns(old(self)),
            final(self).same_constraints(old(self)),
    {
        let index = self.query_fixed_index(column, at);
        Expression::Fixed(FixedQuery { index, column_index: column.index, rotation: at })
    }

    /// Query an instance column at a relative position.
    pub fn query_instance(&mut self, column: Column<Instance>, at: Rotation) -> (r: Expression)
        ensures
            r matches Expression::Instance(q) && q.column_index == column.index && q.rotation
                == at,
            forall|env: Env| #[trigger]
                r.value(env) == (env.instance)(column.index as int, at.0 as int),
            !r.has_simple_selector(),
            r.complexity_of() == 1,
            final(self).same_columns(old(self)),
            final(self).same_constraints(old(self)),
    {
        let index = self.query_instance_index(column, at);
        Expression::Instance(InstanceQuery { index, column_index: column.index, rotation: at })
    }

    /// Query a challenge.
    pub fn query_challenge(&self, challenge: Challenge) -> (r: Expression)
        ensures
            r == Expression::Challenge(challenge),
            forall|env: Env| #[trigger] r.value(env) == (env.challenge)(challenge.index as int),
            !r.has_simple_selector(),
            r.complexity_of() == 0,
    {
        Expression::Challenge(challenge)
    }

    /// The index of the query of `column` at `at`: that of the first such
    /// query, or of a new one at the end where there was none.
    pub fn query_advice_index(&mut self, column: Column<Advice>, at: Rotation) -> (index: usize)
        ensures
            index <= old(self).advice_queries@.len(),
            forall|k: int|
                0 <= k < index ==> !is_advice_query(#[trigger] old(self).advice_queries@[k], column, at),
            index < old(self).advice_queries@.len() ==> is_advice_query(
                old(self).advice_queries@[index as int],
                column,
                at,
            ) && final(self).advice_queries == old(self).advice_queries,
            index == old(self).advice_queries@.len() ==> final(self).advice_queries@ == old(
                self,
            ).advice_queries@.push((column, at)),
            final(self).same_columns(old(self)),
            final(self).same_constraints(old(self)),
            final(self).fixed_queries == old(self).fixed_queries,
            final(self).instance_queries == old(self).instance_queries,
    {
        let mut i: usize = 0;
        while i < self.advice_queries.len()
            invariant
                i <= self.advice_queries@.len(),
                *self == *old(self),
                forall|k: int|
                    0 <= k < i ==> !is_advice_query(#[trigger] self.advice_queries@[k], column, at),
            decreases self.advice_queries@.len() - i,
        {
            let q = &self.advice_queries[i];
            if q.0.index == column.index && q.0.column_type.phase.0 == column.column_type.phase.0 && q.1.0 == at.0 {
                return i;
            }
            i += 1;
        }
        let index = self.advice_queries.len();
        self.advice_queries.push((column, at));
        index
    }

    /// The index of the query of `column` at `at`: that of the first such
    /// query, or of a new one at the end where there was none.
    pub fn query_fixed_index(&mut self, column: Column<Fixed>, at: Rotation) -> (index: usize)
        ensures
            index <= old(self).fixed_queries@.len(),
            forall|k: int|
                0 <= k < index ==> !is_fixed_query(#[trigger] old(self).fixed_queries@[k], column, at),
            index < old(self).fixed_queries@.len() ==> is_fixed_query(
                old(self).fixed_queries@[index as int],
                column,
                at,
            ) && final(self).fixed_queries == old(self).fixed_queries,
            index == old(self).fixed_queries@.len() ==> final(self).fixed_queries@ == old(
                self,
            ).fixed_queries@.push((column, at)),
            final(self).same_columns(old(self)),
            final(self).same_constraints(old(self)),
            final(self).advice_queries == old(self).advice_queries,
            final(self).instance_queries == old(self).instance_queries,
    {
        let mut i: usize = 0;
        while i < self.fixed_queries.len()
            invariant
                i <= self.fixed_queries@.len(),
                *self == *old(self),
                forall|k: int|
                    0 <= k < i ==> !is_fixed_query(#[trigger] self.fixed_queries@[k], column, at),
            decreases self.fixed_queries@.len() - i,
        {
            let q = &self.fixed_queries[i];
            if q.0.index == column.index && q.1.0 == at.0 {
                return i;
            }
            i += 1;
        }
        let index = self.fixed_queries.len();
        self.fixed_queries.push((column, at));
        index
    }

    /// The index of the query of `column` at `at`: that of the first such
    /// query, or of a new one at the end where there was none.
    pub fn query_instance_index(&mut self, column: Column<Instance>, at: Rotation) -> (index: usize)
        ensures
            index <= old(self).instance_queries@.len(),
            forall|k: int|
                0 <= k < index ==> !is_instance_query(#[trigger] old(self).instance_queries@[k], column, at),
            index < old(self).instance_queries@.len() ==> is_instance_query(
                old(self).instance_queries@[index as int],
                column,
                at,
            ) && final(self).instance_queries == old(self).instance_queries,
            index == old(self).instance_queries@.len() ==> final(self).instance_queries@ == old(
                self,
            ).instance_queries@.push((column, at)),
            final(self).same_columns(old(self)),
            final(self).same_constraints(old(self)),
            final(self).advice_queries == old(self).advice_queries,
            final(self).fixed_queries == old(self).fixed_queries,
    {
        let mut i: usize = 0;
        while i < self.instance_queries.len()
            invariant
                i <= self.instance_queries@.len(),
                *self == *old(self),
                forall|k: int|
                    0 <= k < i ==> !is_instance_query(#[trigger] self.instance_queries@[k], column, at),
            decreases self.instance_queries@.len() - i,
        {
            let q = &self.instance_queries[i];
            if q.0.index == column.index && q.1.0 == at.0 {
                return i;
            }
            i += 1;
        }
        let index = self.instance_queries.len();
        self.instance_queries.push((column, at));
        index
    }

    /// Creates a new gate from at least one polynomial.
    pub fn create_gate(&mut self, name: &'static str, polys: Vec<Expression>)
        requires
            polys@.len() > 0,
        ensures
            final(self).gates@ == old(self).gates@.push(Gate { name, polys }),
            final(self).same_columns(old(self)),
            final(self).lookups == old(self).lookups,
            final(self).permutation == old(self).permutation,
            final(self).advice_queries == old(self).advice_queries,
            final(self).fixed_queries == old(self).fixed_queries,
            final(self).instance_queries == old(self).instance_queries,
    {
        self.gates.push(Gate { name, polys });
    }

    /// Add a lookup argument for an input expression without simple
    /// selector and the table column it needs to match. Returns its index.
    pub fn lookup(&mut self, name: &'static str, input: Expression, table: TableColumn) -> (index:
        usize)
        requires
            !input.has_simple_selector(),
        ensures
            index == old(self).lookups@.len(),
            final(self).lookups@ == old(self).lookups@.push(Lookup { name, input, table }),
            final(self).same_columns(old(self)),
            final(self).gates == old(self).gates,
            final(self).permutation == old(self).permutation,
    {
        let index = self.lookups.len();
        self.query_fixed_index(table.inner(), Rotation::cur());
        self.lookups.push(Lookup { name, input, table });
        index
    }
}

} // verus!
