//! How the memory of a running machine changes over time.

use crate::interpreter::runs_for;
use crate::interpreter::vm_at;
use crate::interpreter::vm_status;
use crate::interpreter::Status;
use crate::linkage::lemma_vm_consistent;
use vstd::prelude::*;

verus! {

/// The memory pointer after `t` cycles.
pub open spec fn pointer_at(code: Seq<nat>, input: Seq<nat>, bits: u64, t: nat) -> nat {
    vm_at(code, input, bits, t).register.memory_pointer
}

/// The memory after `t` cycles.
pub open spec fn memory_at(code: Seq<nat>, input: Seq<nat>, bits: u64, t: nat) -> Seq<nat> {
    vm_at(code, input, bits, t).memory
}

/// Cell `k` was under the memory pointer after some number of cycles up to
/// `t`.
pub open spec fn visited(code: Seq<nat>, input: Seq<nat>, bits: u64, k: nat, t: nat) -> bool {
    exists|s: nat| s <= t && #[trigger] pointer_at(code, input, bits, s) == k
}

/// One cycle of a running machine keeps every cell that is not under the
/// memory pointer, adds at most one cell, and a new cell is a zero under
/// the memory pointer; where the pointer moves, no cell changes.
pub proof fn lemma_cycle(code: Seq<nat>, input: Seq<nat>, bits: u64, t: nat)
    requires
        runs_for(code, input, bits, t + 1),
    ensures
        ({
            let before = memory_at(code, input, bits, t);
            let after = memory_at(code, input, bits, t + 1);
            let mp = pointer_at(code, input, bits, t);
            let next = pointer_at(code, input, bits, t + 1);
            &&& mp < before.len()
            &&& next < after.len()
            &&& before.len() <= after.len() <= before.len() + 1
            &&& forall|k: int| 0 <= k < before.len() && k != mp ==> #[trigger] after[k] == before[k]
            &&& next != mp ==> after[mp as int] == before[mp as int]
            &&& next == mp || next == mp + 1 || next == mp - 1
            &&& after.len() == before.len() + 1 ==> next == before.len() && after[next as int] == 0
            &&& vm_at(code, input, bits, t).register.memory_value == before[mp as int]
            &&& vm_at(code, input, bits, t + 1).register.memory_value == after[next as int]
        }),
{
    assert(runs_for(code, input, bits, t));
    lemma_vm_consistent(code, input, bits, t);
    lemma_vm_consistent(code, input, bits, t + 1);
    let s = vm_at(code, input, bits, t);
    assert(vm_status(code, s) == Status::Running);
    assert(vm_at(code, input, bits, t + 1) == crate::interpreter::vm_step(code, bits, s));
}

/// Every cell of the memory has been under the memory pointer.
pub proof fn lemma_visited(code: Seq<nat>, input: Seq<nat>, bits: u64, k: nat, t: nat)
    requires
        runs_for(code, input, bits, t),
        k < memory_at(code, input, bits, t).len(),
    ensures
        visited(code, input, bits, k, t),
    decreases t,
{
    if t == 0 {
        assert(pointer_at(code, input, bits, 0) == k);
    } else {
        let j = (t - 1) as nat;
        assert(runs_for(code, input, bits, j));
        lemma_cycle(code, input, bits, j);
        if k < memory_at(code, input, bits, j).len() {
            lemma_visited(code, input, bits, k, j);
            let s = choose|s: nat| s <= j && #[trigger] pointer_at(code, input, bits, s) == k;
            assert(s <= t && pointer_at(code, input, bits, s) == k);
        } else {
            assert(pointer_at(code, input, bits, t) == k);
        }
    }
}

/// A cell holds zero when the memory pointer comes to it for the first
/// time.
pub proof fn lemma_first_visit(code: Seq<nat>, input: Seq<nat>, bits: u64, t: nat)
    requires
        runs_for(code, input, bits, t),
        forall|s: nat|
            s < t ==> #[trigger] pointer_at(code, input, bits, s) != pointer_at(code, input, bits, t),
    ensures
        vm_at(code, input, bits, t).register.memory_value == 0,
{
    if t > 0 {
        let j = (t - 1) as nat;
        let k = pointer_at(code, input, bits, t);
        assert(runs_for(code, input, bits, j));
        lemma_cycle(code, input, bits, j);
        assert(pointer_at(code, input, bits, j) != k);
        if k < memory_at(code, input, bits, j).len() {
            lemma_visited(code, input, bits, k, j);
            let s = choose|s: nat| s <= j && #[trigger] pointer_at(code, input, bits, s) == k;
            assert(s < t);
        }
    }
}

/// A cell that the memory pointer stays away from keeps its value.
pub proof fn lemma_cell_kept(
    code: Seq<nat>,
    input: Seq<nat>,
    bits: u64,
    k: nat,
    t1: nat,
    t2: nat,
)
    requires
        runs_for(code, input, bits, t2),
        t1 <= t2,
        k < memory_at(code, input, bits, t1).len(),
        forall|t: nat| t1 <= t < t2 ==> #[trigger] pointer_at(code, input, bits, t) != k,
    ensures
        k < memory_at(code, input, bits, t2).len(),
        memory_at(code, input, bits, t2)[k as int] == memory_at(code, input, bits, t1)[k as int],
    decreases t2 - t1,
{
    if t1 < t2 {
        let t = (t2 - 1) as nat;
        assert(runs_for(code, input, bits, t));
        lemma_cell_kept(code, input, bits, k, t1, t);
        lemma_cycle(code, input, bits, t);
        assert(pointer_at(code, input, bits, t) != k);
    }
}

/// Between two visits of a cell with no visit in between, the value seen
/// changes only if the second visit is the cycle after the first.
pub proof fn lemma_revisit(code: Seq<nat>, input: Seq<nat>, bits: u64, t1: nat, t2: nat)
    requires
        runs_for(code, input, bits, t2),
        t1 < t2,
        pointer_at(code, input, bits, t1) == pointer_at(code, input, bits, t2),
        forall|t: nat|
            t1 < t < t2 ==> #[trigger] pointer_at(code, input, bits, t) != pointer_at(
                code,
                input,
                bits,
                t1,
            ),
    ensures
        t2 == t1 + 1 || vm_at(code, input, bits, t2).register.memory_value == vm_at(
            code,
            input,
            bits,
            t1,
        ).register.memory_value,
{
    if t2 > t1 + 1 {
        let k = pointer_at(code, input, bits, t1);
        assert(runs_for(code, input, bits, t1 + 1));
        lemma_cycle(code, input, bits, t1);
        assert(pointer_at(code, input, bits, t1 + 1) != k);
        lemma_cell_kept(code, input, bits, k, t1 + 1, t2);
        assert(runs_for(code, input, bits, t2));
        lemma_vm_consistent(code, input, bits, t2);
        lemma_vm_consistent(code, input, bits, t1);
    }
}

} // verus!
