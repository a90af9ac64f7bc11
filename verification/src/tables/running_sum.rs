//! What the input, output and program tables share: a column of values, a
//! column with their running sum, and a selector that enables the sum's
//! transition.

use crate::bn256::fr::fr_mul;
use crate::bn256::fr::fr_sub;
use crate::bn256::fr::Fr;
use crate::code::values;
use crate::linkage::rs_step;
use crate::linkage::running_sum;
use crate::plonk::circuit::Advice;
use crate::plonk::circuit::Challenge;
use crate::plonk::circuit::Column;
use crate::plonk::circuit::Selector;
use crate::plonk::constraint_system::ConstraintSystem;
use crate::plonk::expression::Env;
use crate::plonk::expression::Expression;
use crate::plonk::witness::AssignedCell;
use crate::plonk::witness::Error;
use crate::plonk::witness::Witness;
use crate::poly::Rotation;
use crate::utils::adv;
use crate::utils::chal;
use crate::utils::running_sum_step;
use crate::utils::sel;
use vstd::prelude::*;

verus! {

/// The running sum adds the value of the row: `rs' = rs * gamma + val`.
pub open spec fn rs_gate(
    env: Env,
    val: Column<Advice>,
    rs: Column<Advice>,
    s_rs: Selector,
    gamma: Challenge,
) -> nat {
    fr_mul(
        sel(env, s_rs),
        fr_sub(adv(env, rs, 1), rs_step(chal(env, gamma), adv(env, rs, 0), adv(env, val, 0))),
    )
}

/// The polynomial of the running sum's transition.
pub fn running_sum_poly(
    cs: &mut ConstraintSystem,
    val: Column<Advice>,
    rs: Column<Advice>,
    s_rs: Selector,
    gamma: Challenge,
) -> (r: Expression)
    ensures
        forall|env: Env| #[trigger] r.value(env) == rs_gate(env, val, rs, s_rs, gamma),
        final(cs).same_columns(old(cs)),
        final(cs).same_constraints(old(cs)),
{
    let val = cs.query_advice(val, Rotation::cur());
    let rs_cur = cs.query_advice(rs, Rotation::cur());
    let rs_next = cs.query_advice(rs, Rotation::next());
    let gamma = cs.query_challenge(gamma);
    let s_rs = cs.query_selector(s_rs);
    s_rs.mul(rs_next.sub(rs_cur.mul(gamma).add(val)))
}

/// What advice cell `(c, i)` holds once the first `n` values of `stream`
/// are loaded: the value column holds the values; the sum column holds at
/// row `i` the running sum of the first `i` values; every other cell is as
/// `before`.
pub open spec fn rs_loaded_advice(
    before: &Witness,
    val: Column<Advice>,
    rs: Column<Advice>,
    stream: Seq<nat>,
    gamma: nat,
    n: int,
    c: int,
    i: int,
) -> nat {
    if c == val.index && 0 <= i < n {
        stream[i]
    } else if c == rs.index && 0 <= i <= n {
        running_sum(stream.take(i), gamma)
    } else {
        before.advice_at(c, i)
    }
}

/// What selector `s` is on row `i` once the first `n` values are loaded:
/// the sum's selector is enabled on every loaded row; every other selector
/// is as `before`.
pub open spec fn rs_loaded_selector(before: &Witness, s_rs: Selector, n: int, s: int, i: int) -> nat {
    if s == s_rs.0 && 0 <= i < n {
        1
    } else {
        before.selector_at(s, i)
    }
}

/// `w` holds a stream and its running sums in the two columns, and the
/// sum's selector, as loading the stream into `before` leaves them,
/// whatever `w` holds elsewhere.
pub open spec fn rs_shows(
    w: &Witness,
    before: &Witness,
    val: Column<Advice>,
    rs: Column<Advice>,
    s_rs: Selector,
    stream: Seq<nat>,
    gamma: nat,
) -> bool {
    &&& forall|c: int, i: int|
        c == val.index || c == rs.index ==> #[trigger] w.advice_at(c, i) == rs_loaded_advice(
            before,
            val,
            rs,
            stream,
            gamma,
            stream.len() as int,
            c,
            i,
        )
    &&& forall|s: int, i: int|
        s == s_rs.0 ==> #[trigger] w.selector_at(s, i) == rs_loaded_selector(
            before,
            s_rs,
            stream.len() as int,
            s,
            i,
        )
}

/// Whether `witness` has the columns, the selector and the rows that
/// loading `len` values needs.
pub open spec fn rs_fits(
    witness: &Witness,
    val: Column<Advice>,
    rs: Column<Advice>,
    s_rs: Selector,
    len: int,
) -> bool {
    &&& rs.index < witness.advice@.len()
    &&& len < witness.rows
    &&& len > 0 ==> val.index < witness.advice@.len() && s_rs.0 < witness.selectors@.len()
}

/// Loads a stream of values and its running sum, and returns the cell that
/// holds the final sum.
pub fn load_running_sum(
    witness: &mut Witness,
    val: Column<Advice>,
    rs: Column<Advice>,
    s_rs: Selector,
    stream: &Vec<Fr>,
    gamma: Fr,
) -> (r: Result<AssignedCell, Error>)
    requires
        old(witness).well_formed(),
        val.index != rs.index,
    ensures
        final(witness).well_formed(),
        final(witness).rows == old(witness).rows,
        final(witness).advice@.len() == old(witness).advice@.len(),
        final(witness).selectors@.len() == old(witness).selectors@.len(),
        final(witness).fixed == old(witness).fixed,
        forall|c: int, i: int| #[trigger]
            final(witness).fixed_at(c, i) == old(witness).fixed_at(c, i),
        final(witness).instance == old(witness).instance,
        final(witness).challenges == old(witness).challenges,
        final(witness).copies == old(witness).copies,
        r.is_ok() <==> rs_fits(old(witness), val, rs, s_rs, stream@.len() as int),
        r.is_err() ==> r == Err::<AssignedCell, Error>(Error::BoundsFailure),
        r.is_ok() ==> r.unwrap().value@ == running_sum(values(stream@), gamma@)
            && r.unwrap().at(rs, stream@.len() as int),
        r.is_ok() ==> forall|c: int, i: int| #[trigger]
            final(witness).advice_at(c, i) == rs_loaded_advice(
                old(witness),
                val,
                rs,
                values(stream@),
                gamma@,
                stream@.len() as int,
                c,
                i,
            ),
        r.is_ok() ==> forall|s: int, i: int| #[trigger]
            final(witness).selector_at(s, i) == rs_loaded_selector(
                old(witness),
                s_rs,
                stream@.len() as int,
                s,
                i,
            ),
{
    let ghost before = *witness;
    let ghost numbers = values(stream@);
    // init rs_0
    let mut sum = Fr::zero();
    let mut cell = witness.assign_advice(rs, 0, sum)?;
    let len = stream.len();
    assert(numbers.take(0).len() == 0);
    let mut idx: usize = 0;
    while idx < len
        invariant
            idx <= len,
            len == stream@.len(),
            numbers == values(stream@),
            before == *old(witness),
            val.index != rs.index,
            witness.well_formed(),
            witness.rows == before.rows,
            witness.advice@.len() == before.advice@.len(),
            witness.selectors@.len() == before.selectors@.len(),
            witness.fixed == before.fixed,
            witness.instance == before.instance,
            witness.challenges == before.challenges,
            witness.copies == before.copies,
            rs.index < before.advice@.len(),
            idx < before.rows,
            idx > 0 ==> val.index < before.advice@.len() && s_rs.0 < before.selectors@.len(),
            sum@ == running_sum(numbers.take(idx as int), gamma@),
            cell.value == sum && cell.at(rs, idx as int),
            forall|c: int, r: int| #[trigger]
                witness.advice_at(c, r) == rs_loaded_advice(
                    &before,
                    val,
                    rs,
                    numbers,
                    gamma@,
                    idx as int,
                    c,
                    r,
                ),
            forall|s: int, r: int| #[trigger]
                witness.selector_at(s, r) == rs_loaded_selector(&before, s_rs, idx as int, s, r),
        decreases len - idx,
    {
        witness.enable_selector(&s_rs, idx)?;
        let v = stream[idx];
        witness.assign_advice(val, idx, v)?;
        proof {
            assert(numbers.take(idx + 1).drop_last() =~= numbers.take(idx as int));
        }
        sum = running_sum_step(&gamma, &sum, &v);
        if idx + 1 >= witness.rows {
            return Err(Error::BoundsFailure);
        }
        cell = witness.assign_advice(rs, idx + 1, sum)?;
        idx += 1;
    }
    proof {
        assert(numbers.take(len as int) =~= numbers);
    }
    Ok(cell)
}

} // verus!
