use vstd::prelude::*;
use crate::evm::{ContractBehaviorView, spec_call_outcome, spec_call_state, spec_is_failed};
use crate::codec::spec_encode_calldata;
use vstd::string::StrSliceExecFns;

verus! {

/// The fuzzer configuration, as the property-testing collaborator takes it.
/// Failure persistence is always off in this engine.
pub struct FuzzConfig {
    pub cases: u32,
    pub max_local_rejects: u32,
    pub max_global_rejects: u32,
}

impl FuzzConfig {
    pub fn new(cases: u32, max_local_rejects: u32, max_global_rejects: u32) -> (r: FuzzConfig)
        ensures
            r.cases == cases,
            r.max_local_rejects == max_local_rejects,
            r.max_global_rejects == max_global_rejects,
    {
        FuzzConfig { cases, max_local_rejects, max_global_rejects }
    }
}

/// One step of the deterministic pseudo-random generator: a linear
/// congruential step on 64 bits.
pub open spec fn spec_prng_next(state: u64) -> u64 {
    vstd::wrapping::u64_specs::wrapping_add(
        vstd::wrapping::u64_specs::wrapping_mul(state, 6364136223846793005),
        1442695040888963407,
    )
}

pub fn prng_next(state: u64) -> (r: u64)
    ensures
        r == spec_prng_next(state),
{
    state.wrapping_mul(6364136223846793005).wrapping_add(1442695040888963407)
}

/// The seed a suite derives for one of its fuzz tests: a fold of the test
/// signature's characters into the suite seed, so that runs are reproducible.
pub open spec fn spec_test_seed(suite_seed: u64, sig: Seq<char>) -> u64
    decreases sig.len(),
{
    if sig.len() == 0 {
        suite_seed
    } else {
        spec_prng_next(
            vstd::wrapping::u64_specs::wrapping_add(
                spec_test_seed(suite_seed, sig.drop_last()),
                sig.last() as u64,
            ),
        )
    }
}

pub fn test_seed(suite_seed: u64, sig: &str) -> (r: u64)
    ensures
        r == spec_test_seed(suite_seed, sig@),
{
    let n: usize = sig.unicode_len();
    let mut state: u64 = suite_seed;
    let mut i: usize = 0;
    while i < n
        invariant
            0 <= i <= n,
            n == sig@.len(),
            state == spec_test_seed(suite_seed, sig@.subrange(0, i as int)),
        decreases n - i,
    {
        let c: char = sig.get_char(i);
        state = prng_next(state.wrapping_add(c as u64));
        proof {
            let cur = sig@.subrange(0, i + 1 as int);
            assert(cur.drop_last() =~= sig@.subrange(0, i as int));
            assert(cur.last() == sig@[i as int]);
        }
        i = i + 1;
    }
    proof {
        assert(sig@.subrange(0, n as int) =~= sig@);
    }
    state
}

/// The argument words of one generated case: one generator step per
/// parameter, with the state threaded through.
pub open spec fn spec_gen_args(seed: u64, arity: nat) -> (Seq<u64>, u64)
    decreases arity,
{
    if arity == 0 {
        (Seq::<u64>::empty(), seed)
    } else {
        let (pre, s) = spec_gen_args(seed, (arity - 1) as nat);
        (pre.push(spec_prng_next(s)), spec_prng_next(s))
    }
}

pub fn gen_args(seed: u64, arity: usize) -> (r: (Vec<u64>, u64))
    ensures
        r.0@ == spec_gen_args(seed, arity as nat).0,
        r.1 == spec_gen_args(seed, arity as nat).1,
{
    let mut args: Vec<u64> = Vec::new();
    let mut state: u64 = seed;
    let mut i: usize = 0;
    while i < arity
        invariant
            0 <= i <= arity,
            args@ == spec_gen_args(seed, i as nat).0,
            state == spec_gen_args(seed, i as nat).1,
        decreases arity - i,
    {
        proof {
            if i == 0 {
                assert(spec_gen_args(seed, 0).1 == seed);
            }
        }
        state = prng_next(state);
        args.push(state);
        proof {
            assert(spec_gen_args(seed, (i + 1) as nat).0 =~= args@);
        }
        i = i + 1;
    }
    proof {
        if arity == 0 {
            assert(args@ =~= spec_gen_args(seed, 0).0);
        }
    }
    (args, state)
}

/// Whether one fuzz case fails its expected-outcome rule, as a function of
/// the post-`setUp` state and the generated arguments.
pub open spec fn spec_case_fails(
    contracts: Seq<ContractBehaviorView>,
    st: crate::evm::EvmStateView,
    to: Seq<u8>,
    sig: Seq<char>,
    expected_revert: bool,
    args: Seq<u64>,
) -> bool {
    let data = spec_encode_calldata(sig, args);
    let outcome = spec_call_outcome(contracts, st, to, data);
    let after = spec_call_state(contracts, st, to, data);
    !crate::spec_verdict(expected_revert, outcome.reverted, spec_is_failed(after, to))
}

/// The sum of the argument words, the measure that shrinking decreases.
pub open spec fn spec_args_sum(args: Seq<u64>) -> nat
    decreases args.len(),
{
    if args.len() == 0 {
        0
    } else {
        args[0] as nat + spec_args_sum(args.skip(1))
    }
}

pub proof fn lemma_args_sum_update(args: Seq<u64>, c: int, v: u64)
    requires
        0 <= c < args.len(),
        v < args[c],
    ensures
        spec_args_sum(args.update(c, v)) < spec_args_sum(args),
    decreases args.len(),
{
    if c == 0 {
        assert(args.update(0, v).skip(1) =~= args.skip(1));
    } else {
        assert(args.update(c, v).skip(1) =~= args.skip(1).update(c - 1, v));
        assert(args.update(c, v)[0] == args[0]);
        lemma_args_sum_update(args.skip(1), c - 1, v);
    }
}

/// The first smaller failing variant of `args`, scanning the coordinates
/// from `c` upward, trying each coordinate halved and then decremented.
pub open spec fn spec_first_improvement(
    contracts: Seq<ContractBehaviorView>,
    st: crate::evm::EvmStateView,
    to: Seq<u8>,
    sig: Seq<char>,
    expected_revert: bool,
    args: Seq<u64>,
    c: int,
) -> Option<Seq<u64>>
    decreases args.len() - c,
{
    if c < 0 || c >= args.len() {
        None
    } else if args[c] > 0 && spec_case_fails(
        contracts,
        st,
        to,
        sig,
        expected_revert,
        args.update(c, args[c] / 2),
    ) {
        Some(args.update(c, args[c] / 2))
    } else if args[c] > 0 && spec_case_fails(
        contracts,
        st,
        to,
        sig,
        expected_revert,
        args.update(c, (args[c] - 1) as u64),
    ) {
        Some(args.update(c, (args[c] - 1) as u64))
    } else {
        spec_first_improvement(contracts, st, to, sig, expected_revert, args, c + 1)
    }
}

pub proof fn lemma_first_improvement_smaller(
    contracts: Seq<ContractBehaviorView>,
    st: crate::evm::EvmStateView,
    to: Seq<u8>,
    sig: Seq<char>,
    expected_revert: bool,
    args: Seq<u64>,
    c: int,
)
    ensures
        spec_first_improvement(contracts, st, to, sig, expected_revert, args, c) matches Some(a)
            ==> (spec_args_sum(a) < spec_args_sum(args) && a.len() == args.len()
            && spec_case_fails(contracts, st, to, sig, expected_revert, a)),
    decreases args.len() - c,
{
    if c < 0 || c >= args.len() {
    } else if args[c] > 0 && spec_case_fails(
        contracts,
        st,
        to,
        sig,
        expected_revert,
        args.update(c, args[c] / 2),
    ) {
        lemma_args_sum_update(args, c, args[c] / 2);
    } else if args[c] > 0 && spec_case_fails(
        contracts,
        st,
        to,
        sig,
        expected_revert,
        args.update(c, (args[c] - 1) as u64),
    ) {
        lemma_args_sum_update(args, c, (args[c] - 1) as u64);
    } else {
        lemma_first_improvement_smaller(contracts, st, to, sig, expected_revert, args, c + 1);
    }
}

/// The shrunk counterexample: repeatedly adopt the first smaller failing
/// variant until none is left. The result is locally minimal: neither
/// halving nor decrementing any coordinate still fails.
pub open spec fn spec_shrink(
    contracts: Seq<ContractBehaviorView>,
    st: crate::evm::EvmStateView,
    to: Seq<u8>,
    sig: Seq<char>,
    expected_revert: bool,
    args: Seq<u64>,
) -> Seq<u64>
    decreases spec_args_sum(args),
    via spec_shrink_decreases
{
    match spec_first_improvement(contracts, st, to, sig, expected_revert, args, 0) {
        Some(a) => spec_shrink(contracts, st, to, sig, expected_revert, a),
        None => args,
    }
}

#[via_fn]
proof fn spec_shrink_decreases(
    contracts: Seq<ContractBehaviorView>,
    st: crate::evm::EvmStateView,
    to: Seq<u8>,
    sig: Seq<char>,
    expected_revert: bool,
    args: Seq<u64>,
) {
    lemma_first_improvement_smaller(contracts, st, to, sig, expected_revert, args, 0);
}

/// A shrunk counterexample still fails.
pub proof fn lemma_shrink_fails(
    contracts: Seq<ContractBehaviorView>,
    st: crate::evm::EvmStateView,
    to: Seq<u8>,
    sig: Seq<char>,
    expected_revert: bool,
    args: Seq<u64>,
)
    requires
        spec_case_fails(contracts, st, to, sig, expected_revert, args),
    ensures
        spec_case_fails(
            contracts,
            st,
            to,
            sig,
            expected_revert,
            spec_shrink(contracts, st, to, sig, expected_revert, args),
        ),
        spec_shrink(contracts, st, to, sig, expected_revert, args).len() == args.len(),
    decreases spec_args_sum(args),
{
    lemma_first_improvement_smaller(contracts, st, to, sig, expected_revert, args, 0);
    match spec_first_improvement(contracts, st, to, sig, expected_revert, args, 0) {
        Some(a) => {
            lemma_shrink_fails(contracts, st, to, sig, expected_revert, a);
        },
        None => {},
    }
}

} // verus!
