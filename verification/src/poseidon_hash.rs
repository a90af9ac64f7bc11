//! The pairwise hash reduction that binds a program and its input to one
//! field element.
//!
//! The compression function for a pair is handed in by the caller; the
//! reduction fixes only how a list is folded with it.

use crate::bn256::fr::Fr;
use crate::plonk::witness::Error;
use crate::utils::NIL_HASH_MSG;
use vstd::prelude::*;

verus! {

/// `next` is `cur` after one round: where `cur` has an odd number of
/// elements its last element comes first, unhashed; then follows, for each
/// pair of neighbours of `cur` in order, what `hasher` gives for the pair.
pub open spec fn hash_round<T, F: Fn([T; 2]) -> Result<T, Error>>(
    cur: Seq<T>,
    next: Seq<T>,
    hasher: &F,
) -> bool {
    let odd = (cur.len() % 2) as int;
    &&& next.len() == odd + cur.len() / 2
    &&& odd == 1 ==> next[0] == cur.last()
    &&& forall|j: int| 0 <= j < cur.len() / 2 ==> #[trigger] pair_hashed(cur, hasher, j, next[odd + j])
}

/// `h` is what `hasher` gives for the `j`-th pair of neighbours of `cur`.
pub open spec fn pair_hashed<T, F: Fn([T; 2]) -> Result<T, Error>>(
    cur: Seq<T>,
    hasher: &F,
    j: int,
    h: T,
) -> bool {
    exists|pair: [T; 2]| #[trigger] is_pair(pair, cur, j) && hasher.ensures((pair,), Ok(h))
}

/// `pair` holds elements `2 * j` and `2 * j + 1` of `cur`.
pub open spec fn is_pair<T>(pair: [T; 2], cur: Seq<T>, j: int) -> bool {
    pair@ == seq![cur[2 * j], cur[2 * j + 1]]
}

/// Marks `next` as the list after a round.
pub open spec fn after_round<T>(next: Seq<T>) -> bool {
    true
}

/// Rounds of hashing take `cur` to the single element `r`.
pub open spec fn reduces_to<T, F: Fn([T; 2]) -> Result<T, Error>>(
    cur: Seq<T>,
    hasher: &F,
    r: T,
) -> bool
    decreases cur.len(),
{
    if cur.len() == 0 {
        false
    } else if cur.len() == 1 {
        r == cur[0]
    } else {
        exists|next: Seq<T>|
            #[trigger] after_round(next) && hash_round(cur, next, hasher) && reduces_to(
                next,
                hasher,
                r,
            )
    }
}

/// Some round of the reduction from `cur` meets a pair for which `hasher`
/// fails with `e`.
pub open spec fn fails_with<T, F: Fn([T; 2]) -> Result<T, Error>>(
    cur: Seq<T>,
    hasher: &F,
    e: Error,
) -> bool {
    exists|pair: [T; 2]| #[trigger] hasher.ensures((pair,), Err(e))
}

/// `hasher` gives one result for one pair.
pub open spec fn deterministic<T, F: Fn([T; 2]) -> Result<T, Error>>(hasher: &F) -> bool {
    forall|pair: [T; 2], a: Result<T, Error>, b: Result<T, Error>|
        #[trigger] hasher.ensures((pair,), a) && #[trigger] hasher.ensures((pair,), b) ==> a == b
}

/// With a hasher that gives one result for one pair, a round has one
/// outcome.
pub proof fn lemma_round_deterministic<T, F: Fn([T; 2]) -> Result<T, Error>>(
    cur: Seq<T>,
    a: Seq<T>,
    b: Seq<T>,
    hasher: &F,
)
    requires
        deterministic(hasher),
        hash_round(cur, a, hasher),
        hash_round(cur, b, hasher),
    ensures
        a == b,
{
    let odd = (cur.len() % 2) as int;
    assert forall|i: int| 0 <= i < a.len() implies a[i] == b[i] by {
        if i >= odd {
            let j = i - odd;
            assert(pair_hashed(cur, hasher, j, a[odd + j]));
            assert(pair_hashed(cur, hasher, j, b[odd + j]));
            let pa = choose|pair: [T; 2]|
                #[trigger] is_pair(pair, cur, j) && hasher.ensures((pair,), Ok(a[odd + j]));
            let pb = choose|pair: [T; 2]|
                #[trigger] is_pair(pair, cur, j) && hasher.ensures((pair,), Ok(b[odd + j]));
            assert(pa@ == pb@);
            assert(pa =~= pb);
            assert(Ok::<T, Error>(a[odd + j]) == Ok::<T, Error>(b[odd + j]));
        }
    }
    assert(a =~= b);
}

/// Running the reduction twice on the same list with the same hasher gives
/// the same element, where the hasher gives one result for one pair.
pub proof fn lemma_reduction_deterministic<T, F: Fn([T; 2]) -> Result<T, Error>>(
    cur: Seq<T>,
    hasher: &F,
    a: T,
    b: T,
)
    requires
        deterministic(hasher),
        reduces_to(cur, hasher, a),
        reduces_to(cur, hasher, b),
    ensures
        a == b,
    decreases cur.len(),
{
    if cur.len() > 1 {
        let na = choose|next: Seq<T>|
            #[trigger] after_round(next) && hash_round(cur, next, hasher) && reduces_to(
                next,
                hasher,
                a,
            );
        let nb = choose|next: Seq<T>|
            #[trigger] after_round(next) && hash_round(cur, next, hasher) && reduces_to(
                next,
                hasher,
                b,
            );
        lemma_round_deterministic(cur, na, nb, hasher);
        lemma_reduction_deterministic(na, hasher, a, b);
    }
}

/// Reduces a list to one element: each round hashes the pairs of
/// neighbours, and carries the last element of a list of odd length to the
/// front of the next round, unhashed. The first failure of `hasher` ends
/// the reduction.
pub fn poseidon_hash<T, F: Fn([T; 2]) -> Result<T, Error>>(inputs: Vec<T>, hasher: &F) -> (r: Result<
    T,
    Error,
>)
    requires
        inputs@.len() != 0,
        forall|pair: [T; 2]| #[trigger] hasher.requires((pair,)),
    ensures
        match r {
            Ok(v) => reduces_to(inputs@, hasher, v),
            Err(e) => fails_with(inputs@, hasher, e),
        },
{
    let mut cur_hash = inputs;
    while cur_hash.len() > 1
        invariant
            cur_hash@.len() >= 1,
            forall|pair: [T; 2]| #[trigger] hasher.requires((pair,)),
            forall|v: T| reduces_to(cur_hash@, hasher, v) ==> reduces_to(inputs@, hasher, v),
        decreases cur_hash@.len(),
    {
        let ghost cur = cur_hash@;
        let ghost odd = (cur.len() % 2) as int;
        let mut to_hash: Vec<T> = Vec::new();
        if cur_hash.len() % 2 == 1 {
            let last = cur_hash.pop().unwrap();
            to_hash.push(last);
        }
        let pairs = cur_hash.len() / 2;
        // turn the rest over, so that the pairs come off the end in order
        let mut rest: Vec<T> = Vec::new();
        while cur_hash.len() > 0
            invariant
                cur_hash@.len() + rest@.len() == 2 * pairs,
                2 * pairs <= cur.len(),
                cur_hash@ == cur.subrange(0, cur_hash@.len() as int),
                forall|k: int| 0 <= k < rest@.len() ==> rest@[k] == cur[2 * pairs - 1 - k],
            decreases cur_hash@.len(),
        {
            let x = cur_hash.pop().unwrap();
            rest.push(x);
        }
        let mut j: usize = 0;
        while j < pairs
            invariant
                j <= pairs,
                pairs == cur.len() / 2,
                odd == cur.len() % 2,
                rest@.len() == 2 * (pairs - j),
                forall|k: int| 0 <= k < rest@.len() ==> rest@[k] == cur[2 * pairs - 1 - k],
                to_hash@.len() == odd + j,
                odd == 1 ==> to_hash@[0] == cur.last(),
                forall|pair: [T; 2]| #[trigger] hasher.requires((pair,)),
                forall|k: int|
                    0 <= k < j ==> #[trigger] pair_hashed(cur, hasher, k, to_hash@[odd + k]),
            decreases pairs - j,
        {
            let first = rest.pop().unwrap();
            let second = rest.pop().unwrap();
            let pair = [first, second];
            let ghost p = pair;
            assert(p@ =~= seq![cur[2 * j], cur[2 * j + 1]]);
            let ghost so_far = to_hash@;
            match hasher(pair) {
                Ok(h) => {
                    to_hash.push(h);
                    assert(is_pair(p, cur, j as int) && hasher.ensures((p,), Ok(h)));
                    assert(pair_hashed(cur, hasher, j as int, to_hash@[odd + j]));
                    assert forall|k: int| 0 <= k < j implies #[trigger] pair_hashed(
                        cur,
                        hasher,
                        k,
                        to_hash@[odd + k],
                    ) by {
                        assert(pair_hashed(cur, hasher, k, so_far[odd + k]));
                    }
                },
                Err(e) => {
                    return Err(e);
                },
            }
            j += 1;
        }
        proof {
            let next = to_hash@;
            assert(hash_round(cur, next, hasher));
            assert(after_round(next));
            assert forall|v: T| reduces_to(next, hasher, v) implies reduces_to(
                inputs@,
                hasher,
                v,
            ) by {
                assert(reduces_to(cur, hasher, v));
            }
        }
        cur_hash = to_hash;
    }
    let r = cur_hash.pop().unwrap();
    Ok(r)
}

/// The list that stands for an input in the hash: the input, or the
/// sentinel alone where the input is empty.
pub open spec fn input_message(input: Seq<Fr>) -> Seq<Fr> {
    if input.len() == 0 {
        seq![Fr::from_nat(NIL_HASH_MSG as nat)]
    } else {
        input
    }
}

/// `r` binds `program` and `input`: it is the hash of the pair of the
/// reduction of the program and the reduction of the input's message.
pub open spec fn binds<F: Fn([Fr; 2]) -> Result<Fr, Error>>(
    program: Seq<Fr>,
    input: Seq<Fr>,
    hasher: &F,
    r: Fr,
) -> bool {
    exists|program_hash: Fr, input_hash: Fr|
        #[trigger] reduces_to(program, hasher, program_hash) && #[trigger] reduces_to(
            input_message(input),
            hasher,
            input_hash,
        ) && reduces_to(seq![program_hash, input_hash], hasher, r)
}

/// The public commitment to a program and its input.
pub fn hash_program<F: Fn([Fr; 2]) -> Result<Fr, Error>>(
    program: Vec<Fr>,
    input: Vec<Fr>,
    hasher: &F,
) -> (r: Result<Fr, Error>)
    requires
        program@.len() != 0,
        forall|pair: [Fr; 2]| #[trigger] hasher.requires((pair,)),
    ensures
        match r {
            Ok(v) => binds(program@, input@, hasher, v),
            Err(e) => exists|pair: [Fr; 2]| #[trigger] hasher.ensures((pair,), Err(e)),
        },
{
    let ghost message = input_message(input@);
    let program_hash = poseidon_hash(program, hasher)?;
    let input_hash = if input.len() == 0 {
        let nil = Fr::from_u64(NIL_HASH_MSG);
        proof {
            Fr::lemma_from_nat_view(NIL_HASH_MSG as nat);
            nil.lemma_view_injective(Fr::from_nat(NIL_HASH_MSG as nat));
        }
        let mut m: Vec<Fr> = Vec::new();
        m.push(nil);
        assert(m@ =~= message);
        poseidon_hash(m, hasher)?
    } else {
        poseidon_hash(input, hasher)?
    };
    let mut both: Vec<Fr> = Vec::new();
    both.push(program_hash);
    both.push(input_hash);
    assert(both@ =~= seq![program_hash, input_hash]);
    poseidon_hash(both, hasher)
}

} // verus!
