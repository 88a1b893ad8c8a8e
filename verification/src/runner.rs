use vstd::prelude::*;
use crate::artifact::{AbiFunctionView, DeployableContract, DeployableContractView};
use crate::evm::{
    Backend, Executor, ExecutorView, ContractBehaviorView, EvmStateView, spec_call_outcome,
    spec_call_state, spec_is_failed, spec_deploy_result, spec_deploy_state, spec_set_balance,
    SpecId,
};
use crate::codec::{spec_encode_calldata, encode_calldata};
use crate::result::{
    TestResult, TestResultView, TestKind, TestKindView, TraceKind, Trace, TraceView, FuzzCase,
    FuzzCaseView, CounterExample, CounterExampleView,
};
use crate::fuzz::{
    FuzzConfig, spec_test_seed, spec_gen_args, spec_case_fails, spec_shrink,
    spec_first_improvement, test_seed, gen_args, lemma_first_improvement_smaller, spec_args_sum,
};
use crate::filter::TestFilter;
use crate::strutil::spec_starts_with;

verus! {

/// Whether the fuzzer can generate values for every parameter type: the
/// strategy covers the unsigned integer types. A tuple with any other type
/// rejects every draw, so the run overruns its global reject budget.
pub open spec fn spec_all_supported(inputs: Seq<Seq<char>>) -> bool {
    forall|i: int| 0 <= i < inputs.len() ==> spec_starts_with(#[trigger] inputs[i], "uint"@)
}

/// An ascending insertion into a sorted word sequence.
pub open spec fn spec_insert_sorted(s: Seq<u64>, v: u64) -> Seq<u64>
    decreases s.len(),
{
    if s.len() == 0 {
        seq![v]
    } else if v <= s[0] {
        seq![v] + s
    } else {
        seq![s[0]] + spec_insert_sorted(s.skip(1), v)
    }
}

/// The gas figures sorted ascending, by insertion.
pub open spec fn spec_sort_u64(s: Seq<u64>) -> Seq<u64>
    decreases s.len(),
{
    if s.len() == 0 {
        Seq::<u64>::empty()
    } else {
        spec_insert_sorted(spec_sort_u64(s.drop_last()), s.last())
    }
}

pub open spec fn spec_sum_u64(s: Seq<u64>) -> nat
    decreases s.len(),
{
    if s.len() == 0 {
        0
    } else {
        s[0] as nat + spec_sum_u64(s.skip(1))
    }
}

/// The median gas of a fuzz campaign: the middle element of the sorted gas
/// figures, or zero when no case ran.
pub open spec fn spec_median(s: Seq<u64>) -> u64 {
    if s.len() == 0 {
        0
    } else {
        spec_sort_u64(s)[s.len() as int / 2]
    }
}

/// The mean gas of a fuzz campaign, rounded down; zero when no case ran.
pub open spec fn spec_mean(s: Seq<u64>) -> u64 {
    if s.len() == 0 {
        0
    } else {
        (spec_sum_u64(s) / s.len()) as u64
    }
}

pub open spec fn spec_gases(cases: Seq<FuzzCaseView>) -> Seq<u64> {
    cases.map_values(|c: FuzzCaseView| c.gas)
}

/// The result of one standard test call against the post-`setUp` baseline:
/// the verdict rule applied to the call's outcome and the DSTest failed flag,
/// the revert reason kept only for failures, and the call's logs and gas.
pub open spec fn spec_standard_result(
    contracts: Seq<ContractBehaviorView>,
    st: EvmStateView,
    to: Seq<u8>,
    f: AbiFunctionView,
    tracing: bool,
    pre_traces: Seq<(TraceKind, TraceView)>,
) -> TestResultView {
    let sig = f.spec_signature();
    let data = spec_encode_calldata(sig, Seq::<u64>::empty());
    let outcome = spec_call_outcome(contracts, st, to, data);
    let after = spec_call_state(contracts, st, to, data);
    let ds = spec_is_failed(after, to);
    let expected_revert = spec_starts_with(f.name, "testFail"@);
    let success = crate::spec_verdict(expected_revert, outcome.reverted, ds);
    TestResultView {
        success,
        reason: if success {
            None
        } else if outcome.reverted {
            outcome.reason
        } else if ds {
            Some("assertion failed"@)
        } else {
            None
        },
        counterexample: None,
        logs: outcome.logs,
        traces: if tracing {
            pre_traces.push(
                (
                    TraceKind::Execution,
                    TraceView { description: sig, success: !outcome.reverted, gas: outcome.gas },
                ),
            )
        } else {
            Seq::<(TraceKind, TraceView)>::empty()
        },
        labeled_addresses: Seq::<(Seq<u8>, Seq<char>)>::empty(),
        kind: TestKindView::Standard { gas: outcome.gas },
    }
}

/// The accepted cases of a fuzz campaign and the first failing input, if
/// any: each case is generated from the threaded generator state and runs
/// against the same post-`setUp` baseline.
pub open spec fn spec_fuzz_cases(
    contracts: Seq<ContractBehaviorView>,
    st: EvmStateView,
    to: Seq<u8>,
    sig: Seq<char>,
    expected_revert: bool,
    arity: nat,
    seed: u64,
    n: nat,
) -> (Seq<FuzzCaseView>, Option<Seq<u64>>)
    decreases n,
{
    if n == 0 {
        (Seq::<FuzzCaseView>::empty(), None::<Seq<u64>>)
    } else {
        let (args, seed2) = spec_gen_args(seed, arity);
        if spec_case_fails(contracts, st, to, sig, expected_revert, args) {
            (Seq::<FuzzCaseView>::empty(), Some(args))
        } else {
            let data = spec_encode_calldata(sig, args);
            let outcome = spec_call_outcome(contracts, st, to, data);
            let rest = spec_fuzz_cases(
                contracts,
                st,
                to,
                sig,
                expected_revert,
                arity,
                seed2,
                (n - 1) as nat,
            );
            (seq![FuzzCaseView { calldata: data, gas: outcome.gas }] + rest.0, rest.1)
        }
    }
}

/// The result of one fuzz test: a reject-overflow failure when a parameter
/// type cannot be generated; otherwise the campaign's verdict, with the
/// shrunk counterexample on failure and gas statistics over the accepted
/// cases.
pub open spec fn spec_fuzz_result(
    contracts: Seq<ContractBehaviorView>,
    st: EvmStateView,
    to: Seq<u8>,
    f: AbiFunctionView,
    tracing: bool,
    pre_traces: Seq<(TraceKind, TraceView)>,
    suite_seed: u64,
    n_cases: u32,
) -> TestResultView {
    let sig = f.spec_signature();
    let expected_revert = spec_starts_with(f.name, "testFail"@);
    if !spec_all_supported(f.inputs) {
        TestResultView {
            success: false,
            reason: Some("Too many global rejects"@),
            counterexample: None,
            logs: Seq::<Seq<char>>::empty(),
            traces: if tracing {
                pre_traces
            } else {
                Seq::<(TraceKind, TraceView)>::empty()
            },
            labeled_addresses: Seq::<(Seq<u8>, Seq<char>)>::empty(),
            kind: TestKindView::Fuzz {
                cases: Seq::<FuzzCaseView>::empty(),
                median_gas: 0,
                mean_gas: 0,
            },
        }
    } else {
        let seed = spec_test_seed(suite_seed, sig);
        let run = spec_fuzz_cases(
            contracts,
            st,
            to,
            sig,
            expected_revert,
            f.inputs.len(),
            seed,
            n_cases as nat,
        );
        let gases = spec_gases(run.0);
        match run.1 {
            Some(args0) => {
                let shrunk = spec_shrink(contracts, st, to, sig, expected_revert, args0);
                let data = spec_encode_calldata(sig, shrunk);
                let outcome = spec_call_outcome(contracts, st, to, data);
                TestResultView {
                    success: false,
                    reason: if outcome.reverted && outcome.reason is Some {
                        outcome.reason
                    } else {
                        Some("assertion failed"@)
                    },
                    counterexample: Some(CounterExampleView { calldata: data, args: shrunk }),
                    logs: outcome.logs,
                    traces: if tracing {
                        pre_traces.push(
                            (
                                TraceKind::Execution,
                                TraceView {
                                    description: sig,
                                    success: !outcome.reverted,
                                    gas: outcome.gas,
                                },
                            ),
                        )
                    } else {
                        Seq::<(TraceKind, TraceView)>::empty()
                    },
                    labeled_addresses: Seq::<(Seq<u8>, Seq<char>)>::empty(),
                    kind: TestKindView::Fuzz {
                        cases: run.0,
                        median_gas: spec_median(gases),
                        mean_gas: spec_mean(gases),
                    },
                }
            },
            None => TestResultView {
                success: true,
                reason: None,
                counterexample: None,
                logs: Seq::<Seq<char>>::empty(),
                traces: if tracing {
                    pre_traces.push(
                        (
                            TraceKind::Execution,
                            TraceView {
                                description: sig,
                                success: true,
                                gas: spec_median(gases),
                            },
                        ),
                    )
                } else {
                    Seq::<(TraceKind, TraceView)>::empty()
                },
                labeled_addresses: Seq::<(Seq<u8>, Seq<char>)>::empty(),
                kind: TestKindView::Fuzz {
                    cases: run.0,
                    median_gas: spec_median(gases),
                    mean_gas: spec_mean(gases),
                },
            },
        }
    }
}

/// The dispatch rule over the interface's functions, in declaration order: a
/// function whose name begins with `test` and whose signature the filter
/// accepts runs as a standard test when it takes no parameters, as a fuzz
/// test when it does and fuzz tests are included, and is skipped otherwise.
pub open spec fn spec_dispatch<F: TestFilter>(
    flt: F,
    contracts: Seq<ContractBehaviorView>,
    st: EvmStateView,
    to: Seq<u8>,
    functions: Seq<AbiFunctionView>,
    tracing: bool,
    pre_traces: Seq<(TraceKind, TraceView)>,
    suite_seed: u64,
    n_cases: u32,
    include_fuzz: bool,
) -> Seq<(Seq<char>, TestResultView)>
    decreases functions.len(),
{
    if functions.len() == 0 {
        Seq::<(Seq<char>, TestResultView)>::empty()
    } else {
        let f = functions[0];
        let sig = f.spec_signature();
        let rest = spec_dispatch(
            flt,
            contracts,
            st,
            to,
            functions.skip(1),
            tracing,
            pre_traces,
            suite_seed,
            n_cases,
            include_fuzz,
        );
        if spec_starts_with(f.name, "test"@) && flt.test_accepted(sig) {
            if f.inputs.len() == 0 {
                seq![(sig, spec_standard_result(contracts, st, to, f, tracing, pre_traces))] + rest
            } else if include_fuzz {
                seq![
                    (
                        sig,
                        spec_fuzz_result(
                            contracts,
                            st,
                            to,
                            f,
                            tracing,
                            pre_traces,
                            suite_seed,
                            n_cases,
                        ),
                    ),
                ] + rest
            } else {
                rest
            }
        } else {
            rest
        }
    }
}

/// A synthetic failing result carrying a phase failure: the deployment or
/// `setUp` revert reason, under the phase's name.
pub open spec fn spec_phase_failure(
    reason: Seq<char>,
    traces: Seq<(TraceKind, TraceView)>,
) -> TestResultView {
    TestResultView {
        success: false,
        reason: Some(reason),
        counterexample: None,
        logs: Seq::<Seq<char>>::empty(),
        traces,
        labeled_addresses: Seq::<(Seq<u8>, Seq<char>)>::empty(),
        kind: TestKindView::Standard { gas: 0 },
    }
}

/// The state after deploying the library dependencies in order, or the first
/// revert reason.
pub open spec fn spec_deploy_libs(
    contracts: Seq<ContractBehaviorView>,
    st: EvmStateView,
    sender: Seq<u8>,
    libs: Seq<Seq<u8>>,
) -> Result<EvmStateView, Seq<char>>
    decreases libs.len(),
{
    if libs.len() == 0 {
        Ok(st)
    } else {
        match spec_deploy_result(contracts, st.nonce, sender, libs[0]) {
            Err(e) => Err(e),
            Ok(_) => spec_deploy_libs(
                contracts,
                spec_deploy_state(contracts, st, sender, libs[0]),
                sender,
                libs.skip(1),
            ),
        }
    }
}

/// The test results of one suite, in execution order: pre-fund the sender,
/// deploy the libraries and the contract (a revert becomes one synthetic
/// `constructor()` failure), run `setUp` if declared (a revert becomes one
/// synthetic `setUp()` failure), then dispatch the matching test functions
/// against the post-`setUp` baseline.
pub open spec fn spec_initial_state(sender: Seq<u8>, initial_balance: u128) -> EvmStateView {
    EvmStateView {
        instances: Seq::<crate::evm::InstanceView>::empty(),
        balances: spec_set_balance(Seq::<(Seq<u8>, u128)>::empty(), sender, initial_balance),
        nonce: 0,
    }
}

pub open spec fn spec_run_suite<F: TestFilter>(
    flt: F,
    contracts: Seq<ContractBehaviorView>,
    contract: DeployableContractView,
    sender: Seq<u8>,
    initial_balance: u128,
    tracing: bool,
    suite_seed: u64,
    n_cases: u32,
    include_fuzz: bool,
) -> Seq<(Seq<char>, TestResultView)> {
    let st0 = spec_initial_state(sender, initial_balance);
    match spec_deploy_libs(contracts, st0, sender, contract.libraries) {
        Err(e) => seq![
            (
                "constructor()"@,
                spec_phase_failure(e, Seq::<(TraceKind, TraceView)>::empty()),
            ),
        ],
        Ok(st1) => match spec_deploy_result(contracts, st1.nonce, sender, contract.bytecode) {
            Err(e) => seq![
                (
                    "constructor()"@,
                    spec_phase_failure(e, Seq::<(TraceKind, TraceView)>::empty()),
                ),
            ],
            Ok(d) => {
                let st2 = spec_deploy_state(contracts, st1, sender, contract.bytecode);
                let to = d.address;
                let deploy_trace = (
                    TraceKind::Deployment,
                    TraceView { description: "deployment"@, success: true, gas: d.gas },
                );
                if contract.abi.spec_has_setup() {
                    let data = spec_encode_calldata("setUp()"@, Seq::<u64>::empty());
                    let outcome = spec_call_outcome(contracts, st2, to, data);
                    let st3 = spec_call_state(contracts, st2, to, data);
                    if outcome.reverted {
                        let setup_trace = (
                            TraceKind::Setup,
                            TraceView {
                                description: "setUp()"@,
                                success: false,
                                gas: outcome.gas,
                            },
                        );
                        seq![
                            (
                                "setUp()"@,
                                spec_phase_failure(
                                    "Setup failed: "@ + (match outcome.reason {
                                        Some(r) => r,
                                        None => Seq::<char>::empty(),
                                    }),
                                    if tracing {
                                        seq![deploy_trace, setup_trace]
                                    } else {
                                        Seq::<(TraceKind, TraceView)>::empty()
                                    },
                                ),
                            ),
                        ]
                    } else {
                        let setup_trace = (
                            TraceKind::Setup,
                            TraceView {
                                description: "setUp()"@,
                                success: true,
                                gas: outcome.gas,
                            },
                        );
                        spec_dispatch(
                            flt,
                            contracts,
                            st3,
                            to,
                            contract.abi.functions,
                            tracing,
                            if tracing {
                                seq![deploy_trace, setup_trace]
                            } else {
                                Seq::<(TraceKind, TraceView)>::empty()
                            },
                            suite_seed,
                            n_cases,
                            include_fuzz,
                        )
                    }
                } else {
                    spec_dispatch(
                        flt,
                        contracts,
                        st2,
                        to,
                        contract.abi.functions,
                        tracing,
                        if tracing {
                            seq![deploy_trace]
                        } else {
                            Seq::<(TraceKind, TraceView)>::empty()
                        },
                        suite_seed,
                        n_cases,
                        include_fuzz,
                    )
                }
            },
        },
    }
}


/// Two executor views that differ at most in their snapshot history.
pub open spec fn spec_same_session(a: ExecutorView, b: ExecutorView) -> bool {
    &&& a.state == b.state
    &&& a.tracing == b.tracing
    &&& a.cheatcodes == b.cheatcodes
    &&& a.gas_limit == b.gas_limit
    &&& a.spec_id == b.spec_id
}

pub(crate) fn clone_words_pub(v: &Vec<u64>) -> (r: Vec<u64>)
    ensures
        r@ == v@,
{
    let mut r: Vec<u64> = Vec::new();
    let mut i: usize = 0;
    while i < v.len()
        invariant
            0 <= i <= v@.len(),
            r@ == v@.subrange(0, i as int),
        decreases v@.len() - i,
    {
        r.push(v[i]);
        proof {
            assert(r@ =~= v@.subrange(0, i + 1 as int));
        }
        i = i + 1;
    }
    proof {
        assert(r@ =~= v@);
    }
    r
}

pub(crate) fn clone_traces_pub(v: &Vec<(TraceKind, Trace)>) -> (r: Vec<(TraceKind, Trace)>)
    ensures
        r@.map_values(|t: (TraceKind, Trace)| (t.0, t.1@)) == v@.map_values(
            |t: (TraceKind, Trace)| (t.0, t.1@),
        ),
{
    let mut r: Vec<(TraceKind, Trace)> = Vec::new();
    let mut i: usize = 0;
    while i < v.len()
        invariant
            0 <= i <= v@.len(),
            r@.len() == i,
            forall|k: int|
                0 <= k < i ==> (#[trigger] r@[k]).0 == v@[k].0 && r@[k].1@ == v@[k].1@,
        decreases v@.len() - i,
    {
        let e = &v[i];
        r.push(
            (
                e.0,
                Trace { description: e.1.description.clone(), success: e.1.success, gas: e.1.gas },
            ),
        );
        i = i + 1;
    }
    proof {
        assert(r@.map_values(|t: (TraceKind, Trace)| (t.0, t.1@)) =~= v@.map_values(
            |t: (TraceKind, Trace)| (t.0, t.1@),
        ));
    }
    r
}

/// Runs one call against the post-`setUp` baseline and restores the state:
/// snapshot, call, read the DSTest failed flag, revert.
fn run_case(
    executor: &mut Executor,
    backend: &Backend,
    sender: &Vec<u8>,
    to: &Vec<u8>,
    sig: &str,
    args: &Vec<u64>,
    expected_revert: bool,
) -> (r: (bool, crate::evm::CallOutcome, bool))
    ensures
        spec_same_session(final(executor)@, old(executor)@),
        r.0 == spec_case_fails(
            backend@.contracts,
            old(executor)@.state,
            to@,
            sig@,
            expected_revert,
            args@,
        ),
        r.1@ == spec_call_outcome(
            backend@.contracts,
            old(executor)@.state,
            to@,
            spec_encode_calldata(sig@, args@),
        ),
        r.2 == spec_is_failed(
            spec_call_state(
                backend@.contracts,
                old(executor)@.state,
                to@,
                spec_encode_calldata(sig@, args@),
            ),
            to@,
        ),
{
    let data = encode_calldata(sig, args);
    let snap = executor.snapshot();
    let outcome = executor.call(backend, sender, to, &data, 0);
    let flag_word = executor.load_storage(to, 0);
    let ds = flag_word == 1;
    let ok = executor.revert_to(snap);
    let success = crate::test_verdict(expected_revert, outcome.reverted, ds);
    (!success, outcome, ds)
}

/// The first smaller failing variant of `args`, trying each coordinate
/// halved, then decremented, in order.
fn first_improvement(
    executor: &mut Executor,
    backend: &Backend,
    sender: &Vec<u8>,
    to: &Vec<u8>,
    sig: &str,
    expected_revert: bool,
    args: &Vec<u64>,
) -> (r: Option<Vec<u64>>)
    ensures
        spec_same_session(final(executor)@, old(executor)@),
        match r {
            Some(a) => spec_first_improvement(
                backend@.contracts,
                old(executor)@.state,
                to@,
                sig@,
                expected_revert,
                args@,
                0,
            ) == Some(a@),
            None => spec_first_improvement(
                backend@.contracts,
                old(executor)@.state,
                to@,
                sig@,
                expected_revert,
                args@,
                0,
            ) is None,
        },
{
    let ghost st = old(executor)@.state;
    let mut c: usize = 0;
    while c < args.len()
        invariant
            spec_same_session(executor@, old(executor)@),
            st == old(executor)@.state,
            0 <= c <= args@.len(),
            spec_first_improvement(
                backend@.contracts,
                st,
                to@,
                sig@,
                expected_revert,
                args@,
                0,
            ) == spec_first_improvement(
                backend@.contracts,
                st,
                to@,
                sig@,
                expected_revert,
                args@,
                c as int,
            ),
        decreases args@.len() - c,
    {
        let v: u64 = args[c];
        if v > 0 {
            let mut cand = clone_words_pub(args);
            cand[c] = v / 2;
            proof {
                assert(cand@ =~= args@.update(c as int, v / 2));
            }
            let (fails, _o, _d) = run_case(executor, backend, sender, to, sig, &cand, expected_revert);
            if fails {
                return Some(cand);
            }
            let mut cand2 = clone_words_pub(args);
            cand2[c] = v - 1;
            proof {
                assert(cand2@ =~= args@.update(c as int, (v - 1) as u64));
            }
            let (fails2, _o2, _d2) = run_case(
                executor,
                backend,
                sender,
                to,
                sig,
                &cand2,
                expected_revert,
            );
            if fails2 {
                return Some(cand2);
            }
        }
        c = c + 1;
    }
    None
}

/// Shrinks a failing input to a locally minimal one: repeatedly adopts the
/// first smaller failing variant until none is left.
fn shrink_args(
    executor: &mut Executor,
    backend: &Backend,
    sender: &Vec<u8>,
    to: &Vec<u8>,
    sig: &str,
    expected_revert: bool,
    args: Vec<u64>,
) -> (r: Vec<u64>)
    ensures
        spec_same_session(final(executor)@, old(executor)@),
        r@ == spec_shrink(
            backend@.contracts,
            old(executor)@.state,
            to@,
            sig@,
            expected_revert,
            args@,
        ),
    decreases spec_args_sum(args@),
{
    let better = first_improvement(executor, backend, sender, to, sig, expected_revert, &args);
    match better {
        Some(a) => {
            proof {
                lemma_first_improvement_smaller(
                    backend@.contracts,
                    executor@.state,
                    to@,
                    sig@,
                    expected_revert,
                    args@,
                    0,
                );
            }
            shrink_args(executor, backend, sender, to, sig, expected_revert, a)
        },
        None => args,
    }
}

/// Sorts gas figures ascending by insertion.
fn sort_u64(v: &Vec<u64>) -> (r: Vec<u64>)
    ensures
        r@ == spec_sort_u64(v@),
{
    let mut r: Vec<u64> = Vec::new();
    let mut i: usize = 0;
    proof {
        assert(v@.subrange(0, 0) =~= Seq::<u64>::empty());
    }
    while i < v.len()
        invariant
            0 <= i <= v@.len(),
            r@ == spec_sort_u64(v@.subrange(0, i as int)),
        decreases v@.len() - i,
    {
        let x: u64 = v[i];
        let ghost r0 = r@;
        let mut p: usize = 0;
        while p < r.len() && r[p] < x
            invariant
                r@ == r0,
                0 <= p <= r0.len(),
                forall|j: int| 0 <= j < p ==> (#[trigger] r0[j]) < x,
            decreases r0.len() - p,
        {
            p = p + 1;
        }
        proof {
            lemma_insert_sorted_at(r0, x, p as int);
        }
        r.insert(p, x);
        proof {
            if p < r0.len() {
                assert(r@ =~= r0.subrange(0, p as int) + seq![x] + r0.subrange(
                    p as int,
                    r0.len() as int,
                ));
            } else {
                assert(r@ =~= r0 + seq![x]);
            }
            let cur = v@.subrange(0, i + 1 as int);
            assert(cur.drop_last() =~= v@.subrange(0, i as int));
            assert(cur.last() == v@[i as int]);
        }
        i = i + 1;
    }
    proof {
        assert(v@.subrange(0, v@.len() as int) =~= v@);
    }
    r
}

/// Relates the recursive sorted insertion to a positional splice at the
/// first position not below the new element.
proof fn lemma_insert_sorted_at(s: Seq<u64>, x: u64, p: int)
    requires
        0 <= p <= s.len(),
        forall|j: int| 0 <= j < p ==> (#[trigger] s[j]) < x,
    ensures
        p < s.len() && x <= s[p] ==> spec_insert_sorted(s, x) == s.subrange(0, p) + seq![x]
            + s.subrange(p, s.len() as int),
        p == s.len() ==> spec_insert_sorted(s, x) == s + seq![x],
    decreases p,
{
    if s.len() == 0 {
        assert(spec_insert_sorted(s, x) =~= s + seq![x]);
    } else if p == 0 {
        if x <= s[0] {
            assert(spec_insert_sorted(s, x) =~= s.subrange(0, 0) + seq![x] + s.subrange(
                0,
                s.len() as int,
            ));
        }
    } else {
        assert(s[0] < x);
        let tail = s.skip(1);
        assert(forall|j: int| 0 <= j < p - 1 ==> (#[trigger] tail[j]) == s[j + 1]);
        lemma_insert_sorted_at(tail, x, p - 1);
        if p < s.len() && x <= s[p] {
            assert(tail[p - 1] == s[p]);
            assert(spec_insert_sorted(s, x) =~= s.subrange(0, p) + seq![x] + s.subrange(
                p,
                s.len() as int,
            )) by {
                assert(spec_insert_sorted(s, x) == seq![s[0]] + spec_insert_sorted(tail, x));
                assert(tail.subrange(0, p - 1) =~= s.subrange(1, p));
                assert(tail.subrange(p - 1, tail.len() as int) =~= s.subrange(p, s.len() as int));
            }
        } else if p == s.len() {
            assert(spec_insert_sorted(s, x) =~= s + seq![x]) by {
                assert(spec_insert_sorted(s, x) == seq![s[0]] + spec_insert_sorted(tail, x));
            }
        }
    }
}

/// The median of a set of gas figures.
fn median_gas(gases: &Vec<u64>) -> (r: u64)
    ensures
        r == spec_median(gases@),
{
    if gases.len() == 0 {
        return 0;
    }
    let sorted = sort_u64(gases);
    proof {
        lemma_sort_len(gases@);
    }
    sorted[gases.len() / 2]
}

proof fn lemma_insert_sorted_len(s: Seq<u64>, x: u64)
    ensures
        spec_insert_sorted(s, x).len() == s.len() + 1,
    decreases s.len(),
{
    if s.len() > 0 && !(x <= s[0]) {
        lemma_insert_sorted_len(s.skip(1), x);
    }
}

proof fn lemma_sort_len(s: Seq<u64>)
    ensures
        spec_sort_u64(s).len() == s.len(),
    decreases s.len(),
{
    if s.len() > 0 {
        lemma_sort_len(s.drop_last());
        lemma_insert_sorted_len(spec_sort_u64(s.drop_last()), s.last());
    }
}

/// The mean of a set of gas figures, rounded down.
fn mean_gas(gases: &Vec<u64>) -> (r: u64)
    ensures
        r == spec_mean(gases@),
{
    if gases.len() == 0 {
        return 0;
    }
    let mut sum: u128 = 0;
    let mut i: usize = 0;
    proof {
        assert(gases@.subrange(0, 0) =~= Seq::<u64>::empty());
    }
    while i < gases.len()
        invariant
            0 <= i <= gases@.len(),
            sum == spec_sum_u64(gases@.subrange(0, i as int)),
            sum <= i * 0xffffffffffffffff,
        decreases gases@.len() - i,
    {
        proof {
            assert(sum + gases@[i as int] <= (i + 1) * 0xffffffffffffffff) by (nonlinear_arith)
                requires
                    sum <= i * 0xffffffffffffffff,
                    gases@[i as int] <= 0xffffffffffffffff,
            ;
            assert((i + 1) * 0xffffffffffffffff < 0x100000000000000000000000000000000)
                by (nonlinear_arith)
                requires
                    i + 1 <= 0xffffffffffffffff,
            ;
            lemma_sum_snoc(gases@.subrange(0, i as int), gases@[i as int]);
            assert(gases@.subrange(0, i + 1 as int) =~= gases@.subrange(0, i as int).push(
                gases@[i as int],
            ));
        }
        sum = sum + gases[i] as u128;
        i = i + 1;
    }
    proof {
        assert(gases@.subrange(0, gases@.len() as int) =~= gases@);
        lemma_sum_bound(gases@);
    }
    (sum / gases.len() as u128) as u64
}

proof fn lemma_sum_snoc(s: Seq<u64>, x: u64)
    ensures
        spec_sum_u64(s.push(x)) == spec_sum_u64(s) + x,
    decreases s.len(),
{
    assert(s.push(x).len() == s.len() + 1);
    if s.len() == 0 {
        assert(s.push(x)[0] == x);
        assert(s.push(x).skip(1) =~= Seq::<u64>::empty());
        assert(spec_sum_u64(s.push(x)) == s.push(x)[0] as nat + spec_sum_u64(s.push(x).skip(1)));
        assert(spec_sum_u64(s.push(x).skip(1)) == 0);
    } else {
        assert(s.push(x)[0] == s[0]);
        assert(s.push(x).skip(1) =~= s.skip(1).push(x));
        lemma_sum_snoc(s.skip(1), x);
        assert(spec_sum_u64(s.push(x)) == s.push(x)[0] as nat + spec_sum_u64(s.push(x).skip(1)));
    }
}

/// The mean of word values never exceeds the largest word.
proof fn lemma_sum_bound(s: Seq<u64>)
    requires
        s.len() > 0,
    ensures
        spec_sum_u64(s) / s.len() < 0x10000000000000000,
    decreases s.len(),
{
    lemma_sum_le(s);
    assert(spec_sum_u64(s) <= s.len() * 0xffffffffffffffff);
    assert(spec_sum_u64(s) / s.len() <= 0xffffffffffffffff) by (nonlinear_arith)
        requires
            s.len() > 0,
            spec_sum_u64(s) <= s.len() * 0xffffffffffffffff,
    ;
}

proof fn lemma_sum_le(s: Seq<u64>)
    ensures
        spec_sum_u64(s) <= s.len() * 0xffffffffffffffff,
    decreases s.len(),
{
    if s.len() > 0 {
        lemma_sum_le(s.skip(1));
        assert(s[0] as nat + s.skip(1).len() * 0xffffffffffffffff <= s.len() * 0xffffffffffffffff)
            by (nonlinear_arith)
            requires
                s[0] <= 0xffffffffffffffff,
                s.skip(1).len() == s.len() - 1,
                s.len() >= 1,
        ;
    }
}


/// Runs a fuzz campaign of `n` cases: generates each input from the threaded
/// generator state, runs it against the same baseline, and stops at the
/// first failing input.
fn fuzz_campaign(
    executor: &mut Executor,
    backend: &Backend,
    sender: &Vec<u8>,
    to: &Vec<u8>,
    sig: &str,
    expected_revert: bool,
    arity: usize,
    seed: u64,
    n: u32,
) -> (r: (Vec<FuzzCase>, Option<Vec<u64>>))
    ensures
        spec_same_session(final(executor)@, old(executor)@),
        r.0@.map_values(|c: FuzzCase| c@) == spec_fuzz_cases(
            backend@.contracts,
            old(executor)@.state,
            to@,
            sig@,
            expected_revert,
            arity as nat,
            seed,
            n as nat,
        ).0,
        match r.1 {
            Some(a) => spec_fuzz_cases(
                backend@.contracts,
                old(executor)@.state,
                to@,
                sig@,
                expected_revert,
                arity as nat,
                seed,
                n as nat,
            ).1 == Some(a@),
            None => spec_fuzz_cases(
                backend@.contracts,
                old(executor)@.state,
                to@,
                sig@,
                expected_revert,
                arity as nat,
                seed,
                n as nat,
            ).1 is None,
        },
{
    let ghost st = old(executor)@.state;
    let ghost full = spec_fuzz_cases(
        backend@.contracts,
        st,
        to@,
        sig@,
        expected_revert,
        arity as nat,
        seed,
        n as nat,
    );
    let mut cases: Vec<FuzzCase> = Vec::new();
    let mut state: u64 = seed;
    let mut i: u32 = 0;
    proof {
        assert(cases@.map_values(|c: FuzzCase| c@) =~= Seq::<FuzzCaseView>::empty());
    }
    while i < n
        invariant
            spec_same_session(executor@, old(executor)@),
            st == old(executor)@.state,
            full == spec_fuzz_cases(
                backend@.contracts,
                st,
                to@,
                sig@,
                expected_revert,
                arity as nat,
                seed,
                n as nat,
            ),
            0 <= i <= n,
            full.0 == cases@.map_values(|c: FuzzCase| c@) + spec_fuzz_cases(
                backend@.contracts,
                st,
                to@,
                sig@,
                expected_revert,
                arity as nat,
                state,
                (n - i) as nat,
            ).0,
            full.1 == spec_fuzz_cases(
                backend@.contracts,
                st,
                to@,
                sig@,
                expected_revert,
                arity as nat,
                state,
                (n - i) as nat,
            ).1,
        decreases n - i,
    {
        let ghost rem = spec_fuzz_cases(
            backend@.contracts,
            st,
            to@,
            sig@,
            expected_revert,
            arity as nat,
            state,
            (n - i) as nat,
        );
        let (args, state2) = gen_args(state, arity);
        let (fails, outcome, _ds) = run_case(
            executor,
            backend,
            sender,
            to,
            sig,
            &args,
            expected_revert,
        );
        if fails {
            proof {
                assert(rem.1 == Some(args@));
                assert(rem.0 =~= Seq::<FuzzCaseView>::empty());
                assert(full.0 =~= cases@.map_values(|c: FuzzCase| c@));
            }
            return (cases, Some(args));
        }
        let data = encode_calldata(sig, &args);
        let case = FuzzCase { calldata: data, gas: outcome.gas };
        let ghost cv = case@;
        cases.push(case);
        proof {
            let next = spec_fuzz_cases(
                backend@.contracts,
                st,
                to@,
                sig@,
                expected_revert,
                arity as nat,
                state2,
                (n - i - 1) as nat,
            );
            assert(rem.0 == seq![cv] + next.0);
            assert(rem.1 == next.1);
            assert(cases@.map_values(|c: FuzzCase| c@) =~= cases@.map_values(
                |c: FuzzCase| c@,
            ));
            assert(cases@.map_values(|c: FuzzCase| c@) + next.0 =~= full.0);
        }
        state = state2;
        i = i + 1;
    }
    proof {
        assert(spec_fuzz_cases(
            backend@.contracts,
            st,
            to@,
            sig@,
            expected_revert,
            arity as nat,
            state,
            0,
        ).0 =~= Seq::<FuzzCaseView>::empty());
        assert(full.0 =~= cases@.map_values(|c: FuzzCase| c@));
    }
    (cases, None)
}

/// Runs one standard test: a single call against the post-`setUp` baseline,
/// judged by the expected-failure rule.
fn run_standard_test(
    executor: &mut Executor,
    backend: &Backend,
    sender: &Vec<u8>,
    to: &Vec<u8>,
    f: &crate::artifact::AbiFunction,
    pre_traces: &Vec<(TraceKind, Trace)>,
) -> (r: (String, TestResult))
    ensures
        spec_same_session(final(executor)@, old(executor)@),
        r.0@ == f@.spec_signature(),
        r.1@ == spec_standard_result(
            backend@.contracts,
            old(executor)@.state,
            to@,
            f@,
            old(executor)@.tracing,
            pre_traces@.map_values(|t: (TraceKind, Trace)| (t.0, t.1@)),
        ),
{
    let sig: String = f.signature();
    let expected_revert: bool = crate::strutil::starts_with_str(f.name.as_str(), "testFail");
    let args: Vec<u64> = Vec::new();
    proof {
        assert(args@ =~= Seq::<u64>::empty());
    }
    let (fails, outcome, ds) = run_case(
        executor,
        backend,
        sender,
        to,
        sig.as_str(),
        &args,
        expected_revert,
    );
    let success = !fails;
    let reason: Option<String> = if success {
        None
    } else if outcome.reverted {
        outcome.reason
    } else if ds {
        Some("assertion failed".to_owned())
    } else {
        None
    };
    let traces: Vec<(TraceKind, Trace)> = if executor.tracing {
        let mut t = clone_traces_pub(pre_traces);
        t.push(
            (
                TraceKind::Execution,
                Trace { description: sig.clone(), success: !outcome.reverted, gas: outcome.gas },
            ),
        );
        t
    } else {
        Vec::new()
    };
    let result = TestResult {
        success,
        reason,
        counterexample: None,
        logs: outcome.logs,
        traces,
        labeled_addresses: Vec::new(),
        kind: TestKind::Standard { gas: outcome.gas },
    };
    proof {
        let sr = spec_standard_result(
            backend@.contracts,
            old(executor)@.state,
            to@,
            f@,
            old(executor)@.tracing,
            pre_traces@.map_values(|t: (TraceKind, Trace)| (t.0, t.1@)),
        );
        assert(result@.traces =~= sr.traces);
        assert(result@.labeled_addresses =~= sr.labeled_addresses);
        assert(result@ =~= sr);
    }
    (sig, result)
}

fn gases_of(cases: &Vec<FuzzCase>) -> (r: Vec<u64>)
    ensures
        r@ == spec_gases(cases@.map_values(|c: FuzzCase| c@)),
{
    let mut r: Vec<u64> = Vec::new();
    let mut i: usize = 0;
    while i < cases.len()
        invariant
            0 <= i <= cases@.len(),
            r@.len() == i,
            forall|j: int| 0 <= j < i ==> (#[trigger] r@[j]) == cases@[j].gas,
        decreases cases@.len() - i,
    {
        r.push(cases[i].gas);
        i = i + 1;
    }
    proof {
        assert(r@ =~= spec_gases(cases@.map_values(|c: FuzzCase| c@)));
    }
    r
}


/// Whether the fuzzer's strategies cover every parameter type.
fn all_inputs_supported(f: &crate::artifact::AbiFunction) -> (r: bool)
    ensures
        r == spec_all_supported(f@.inputs),
{
    let mut i: usize = 0;
    while i < f.inputs.len()
        invariant
            0 <= i <= f.inputs@.len(),
            f@.inputs.len() == f.inputs@.len(),
            forall|j: int| 0 <= j < i ==> spec_starts_with(#[trigger] f@.inputs[j], "uint"@),
        decreases f.inputs@.len() - i,
    {
        proof {
            assert(f@.inputs[i as int] == f.inputs@[i as int]@);
        }
        if !crate::strutil::starts_with_str(f.inputs[i].as_str(), "uint") {
            return false;
        }
        i = i + 1;
    }
    true
}

/// Runs one fuzz test: a reject-overflow failure when a parameter type
/// cannot be generated; otherwise a deterministic campaign whose first
/// failing input, if any, is shrunk to a locally minimal counterexample.
#[verifier::rlimit(60)]
fn run_fuzz_test(
    executor: &mut Executor,
    backend: &Backend,
    sender: &Vec<u8>,
    to: &Vec<u8>,
    f: &crate::artifact::AbiFunction,
    pre_traces: &Vec<(TraceKind, Trace)>,
    suite_seed: u64,
    n_cases: u32,
) -> (r: (String, TestResult))
    ensures
        spec_same_session(final(executor)@, old(executor)@),
        r.0@ == f@.spec_signature(),
        r.1@ == spec_fuzz_result(
            backend@.contracts,
            old(executor)@.state,
            to@,
            f@,
            old(executor)@.tracing,
            pre_traces@.map_values(|t: (TraceKind, Trace)| (t.0, t.1@)),
            suite_seed,
            n_cases,
        ),
{
    let ghost st = old(executor)@.state;
    let ghost prev = pre_traces@.map_values(|t: (TraceKind, Trace)| (t.0, t.1@));
    let ghost sr = spec_fuzz_result(
        backend@.contracts,
        st,
        to@,
        f@,
        old(executor)@.tracing,
        prev,
        suite_seed,
        n_cases,
    );
    let sig: String = f.signature();
    let expected_revert: bool = crate::strutil::starts_with_str(f.name.as_str(), "testFail");
    let supported: bool = all_inputs_supported(f);
    if !supported {
        let result = TestResult {
            success: false,
            reason: Some("Too many global rejects".to_owned()),
            counterexample: None,
            logs: Vec::new(),
            traces: if executor.tracing {
                clone_traces_pub(pre_traces)
            } else {
                Vec::new()
            },
            labeled_addresses: Vec::new(),
            kind: TestKind::Fuzz { cases: Vec::new(), median_gas: 0, mean_gas: 0 },
        };
        proof {
            assert(result@.logs =~= sr.logs);
            assert(result@.traces =~= sr.traces);
            assert(result@.labeled_addresses =~= sr.labeled_addresses);
            assert(result@.kind matches TestKindView::Fuzz { cases, median_gas, mean_gas }
                && cases =~= Seq::<FuzzCaseView>::empty());
            assert(result@ =~= sr);
        }
        return (sig, result);
    }
    proof {
        assert(spec_all_supported(f@.inputs));
    }
    let seed: u64 = test_seed(suite_seed, sig.as_str());
    let arity: usize = f.inputs.len();
    let (cases, failing) = fuzz_campaign(
        executor,
        backend,
        sender,
        to,
        sig.as_str(),
        expected_revert,
        arity,
        seed,
        n_cases,
    );
    let gases = gases_of(&cases);
    let median = median_gas(&gases);
    let mean = mean_gas(&gases);
    match failing {
        Some(args0) => {
            let shrunk = shrink_args(
                executor,
                backend,
                sender,
                to,
                sig.as_str(),
                expected_revert,
                args0,
            );
            let data = encode_calldata(sig.as_str(), &shrunk);
            let (_fails, outcome, _ds) = run_case(
                executor,
                backend,
                sender,
                to,
                sig.as_str(),
                &shrunk,
                expected_revert,
            );
            let reverted = outcome.reverted;
            let has_reason = match &outcome.reason {
                Some(_) => true,
                None => false,
            };
            let gas = outcome.gas;
            let reason: Option<String> = if reverted && has_reason {
                outcome.reason
            } else {
                Some("assertion failed".to_owned())
            };
            let counterexample = CounterExample { calldata: data, args: shrunk };
            let traces: Vec<(TraceKind, Trace)> = if executor.tracing {
                let mut t = clone_traces_pub(pre_traces);
                t.push(
                    (
                        TraceKind::Execution,
                        Trace { description: sig.clone(), success: !reverted, gas },
                    ),
                );
                t
            } else {
                Vec::new()
            };
            let result = TestResult {
                success: false,
                reason,
                counterexample: Some(counterexample),
                logs: outcome.logs,
                traces,
                labeled_addresses: Vec::new(),
                kind: TestKind::Fuzz { cases, median_gas: median, mean_gas: mean },
            };
            proof {
                assert(result@.traces =~= sr.traces);
                assert(result@.labeled_addresses =~= sr.labeled_addresses);
                assert(result@ =~= sr);
            }
            (sig, result)
        },
        None => {
            let traces: Vec<(TraceKind, Trace)> = if executor.tracing {
                let mut t = clone_traces_pub(pre_traces);
                t.push(
                    (
                        TraceKind::Execution,
                        Trace { description: sig.clone(), success: true, gas: median },
                    ),
                );
                t
            } else {
                Vec::new()
            };
            let result = TestResult {
                success: true,
                reason: None,
                counterexample: None,
                logs: Vec::new(),
                traces,
                labeled_addresses: Vec::new(),
                kind: TestKind::Fuzz { cases, median_gas: median, mean_gas: mean },
            };
            proof {
                assert(result@.logs =~= sr.logs);
                assert(result@.traces =~= sr.traces);
                assert(result@.labeled_addresses =~= sr.labeled_addresses);
                assert(result@ =~= sr);
            }
            (sig, result)
        },
    }
}


fn phase_failure_result(reason: String, traces: Vec<(TraceKind, Trace)>) -> (r: TestResult)
    ensures
        r@ == spec_phase_failure(reason@, traces@.map_values(|t: (TraceKind, Trace)| (t.0, t.1@))),
{
    let r = TestResult {
        success: false,
        reason: Some(reason),
        counterexample: None,
        logs: Vec::new(),
        traces,
        labeled_addresses: Vec::new(),
        kind: TestKind::Standard { gas: 0 },
    };
    proof {
        assert(r@.logs =~= Seq::<Seq<char>>::empty());
        assert(r@.labeled_addresses =~= Seq::<(Seq<u8>, Seq<char>)>::empty());
        assert(r@ =~= spec_phase_failure(
            r@.reason->Some_0,
            traces@.map_values(|t: (TraceKind, Trace)| (t.0, t.1@)),
        ));
    }
    r
}

/// Runs one suite: pre-funds the sender, deploys the libraries and the
/// contract, runs `setUp` when declared, and dispatches every matching test
/// function against the post-`setUp` baseline, in declaration order. A
/// deployment or `setUp` revert is surfaced as a single synthetic failing
/// test result.
#[verifier::rlimit(100)]
pub fn run_suite<F: TestFilter>(
    backend: &Backend,
    contract: &DeployableContract,
    flt: &F,
    fuzz_config: &FuzzConfig,
    include_fuzz_tests: bool,
    sender: &Vec<u8>,
    initial_balance: u128,
    tracing: bool,
    cheatcodes: bool,
    gas_limit: u64,
    spec_id: SpecId,
    suite_seed: u64,
) -> (r: Vec<(String, TestResult)>)
    requires
        sender@.len() == 20,
    ensures
        r@.map_values(|p: (String, TestResult)| (p.0@, p.1@)) == spec_run_suite(
            *flt,
            backend@.contracts,
            contract@,
            sender@,
            initial_balance,
            tracing,
            suite_seed,
            fuzz_config.cases,
            include_fuzz_tests,
        ),
{
    let ghost srs = spec_run_suite(
        *flt,
        backend@.contracts,
        contract@,
        sender@,
        initial_balance,
        tracing,
        suite_seed,
        fuzz_config.cases,
        include_fuzz_tests,
    );
    let mut executor = Executor::new(tracing, cheatcodes, gas_limit, spec_id);
    executor.set_balance(backend, sender, initial_balance);
    let ghost st0 = executor@.state;
    proof {
        assert(executor@.state.instances =~= Seq::<crate::evm::InstanceView>::empty());
        assert(st0 =~= spec_initial_state(sender@, initial_balance));
    }
    // deploy the library dependencies, in declared order
    let mut li: usize = 0;
    let ghost libsv = contract@.libraries;
    proof {
        assert(libsv.skip(0) =~= libsv);
    }
    while li < contract.libraries.len()
        invariant
            sender@.len() == 20,
            st0 == spec_initial_state(sender@, initial_balance),
            srs == spec_run_suite(
                *flt,
                backend@.contracts,
                contract@,
                sender@,
                initial_balance,
                tracing,
                suite_seed,
                fuzz_config.cases,
                include_fuzz_tests,
            ),
            libsv == contract@.libraries,
            libsv.len() == contract.libraries@.len(),
            0 <= li <= libsv.len(),
            executor@.tracing == tracing,
            executor@.cheatcodes == cheatcodes,
            executor@.gas_limit == gas_limit,
            executor@.spec_id == spec_id,
            spec_deploy_libs(backend@.contracts, st0, sender@, libsv) == spec_deploy_libs(
                backend@.contracts,
                executor@.state,
                sender@,
                libsv.skip(li as int),
            ),
        decreases libsv.len() - li,
    {
        proof {
            assert(contract@.libraries[li as int] == contract.libraries@[li as int]@);
            assert(libsv.skip(li as int)[0] == libsv[li as int]);
        }
        let dr = executor.deploy(backend, sender, &contract.libraries[li], 0);
        match dr {
            Err(e) => {
                proof {
                    assert(spec_deploy_libs(backend@.contracts, st0, sender@, libsv) == Err::<
                        EvmStateView,
                        Seq<char>,
                    >(e@));
                }
                let ghost ev = e@;
                let result = phase_failure_result(e, Vec::new());
                let mut out: Vec<(String, TestResult)> = Vec::new();
                out.push(("constructor()".to_owned(), result));
                proof {
                    assert(result@.traces =~= Seq::<(TraceKind, TraceView)>::empty());
                    assert(srs == seq![
                        (
                            "constructor()"@,
                            spec_phase_failure(ev, Seq::<(TraceKind, TraceView)>::empty()),
                        ),
                    ]);
                    assert(out@.map_values(|p: (String, TestResult)| (p.0@, p.1@)) =~= srs);
                }
                return out;
            },
            Ok(_) => {
                proof {
                    assert(libsv.skip(li as int).skip(1) =~= libsv.skip(li + 1));
                }
            },
        }
        li = li + 1;
    }
    proof {
        assert(libsv.skip(libsv.len() as int) =~= Seq::<Seq<u8>>::empty());
        assert(spec_deploy_libs(backend@.contracts, st0, sender@, libsv) == Ok::<
            EvmStateView,
            Seq<char>,
        >(executor@.state));
    }
    let ghost st1 = executor@.state;
    // deploy the test contract itself
    let dr = executor.deploy(backend, sender, &contract.bytecode, 0);
    let deployed = match dr {
        Err(e) => {
            let ghost ev = e@;
            let result = phase_failure_result(e, Vec::new());
            let mut out: Vec<(String, TestResult)> = Vec::new();
            out.push(("constructor()".to_owned(), result));
            proof {
                assert(result@.traces =~= Seq::<(TraceKind, TraceView)>::empty());
                assert(srs == seq![
                    (
                        "constructor()"@,
                        spec_phase_failure(ev, Seq::<(TraceKind, TraceView)>::empty()),
                    ),
                ]);
                assert(out@.map_values(|p: (String, TestResult)| (p.0@, p.1@)) =~= srs);
            }
            return out;
        },
        Ok(d) => d,
    };
    let to: Vec<u8> = deployed.address;
    let deploy_gas: u64 = deployed.gas;
    let ghost st2 = executor@.state;
    let mut pre_traces: Vec<(TraceKind, Trace)> = Vec::new();
    if tracing {
        pre_traces.push(
            (
                TraceKind::Deployment,
                Trace { description: "deployment".to_owned(), success: true, gas: deploy_gas },
            ),
        );
    }
    // run setUp if the interface declares it
    proof {
        assert(to@ == spec_deploy_result(
            backend@.contracts,
            st1.nonce,
            sender@,
            contract@.bytecode,
        )->Ok_0.address);
    }
    let ghost baseline: EvmStateView;
    if contract.abi.has_setup() {
        let setup_args: Vec<u64> = Vec::new();
        proof {
            assert(setup_args@ =~= Seq::<u64>::empty());
        }
        let data = encode_calldata("setUp()", &setup_args);
        let ghost datav = spec_encode_calldata("setUp()"@, Seq::<u64>::empty());
        let ghost oc = spec_call_outcome(backend@.contracts, st2, to@, datav);
        let outcome = executor.call(backend, sender, &to, &data, 0);
        proof {
            assert(outcome@ == oc);
        }
        if outcome.reverted {
            let mut msg: String = "Setup failed: ".to_owned();
            match &outcome.reason {
                Some(why) => {
                    msg.append(why.as_str());
                },
                None => {
                    proof {
                        assert(msg@ =~= "Setup failed: "@ + Seq::<char>::empty());
                    }
                },
            }
            let ghost msgv = msg@;
            let ghost trv: Seq<(TraceKind, TraceView)> = if tracing {
                seq![
                    (
                        TraceKind::Deployment,
                        TraceView { description: "deployment"@, success: true, gas: deploy_gas },
                    ),
                    (
                        TraceKind::Setup,
                        TraceView { description: "setUp()"@, success: false, gas: oc.gas },
                    ),
                ]
            } else {
                Seq::<(TraceKind, TraceView)>::empty()
            };
            let mut traces: Vec<(TraceKind, Trace)> = Vec::new();
            if tracing {
                traces = pre_traces;
                traces.push(
                    (
                        TraceKind::Setup,
                        Trace {
                            description: "setUp()".to_owned(),
                            success: false,
                            gas: outcome.gas,
                        },
                    ),
                );
            }
            proof {
                assert(traces@.map_values(|t: (TraceKind, Trace)| (t.0, t.1@)) =~= trv);
                assert(msgv == "Setup failed: "@ + (match oc.reason {
                    Some(r) => r,
                    None => Seq::<char>::empty(),
                }));
                assert(srs == seq![("setUp()"@, spec_phase_failure(msgv, trv))]);
            }
            let result = phase_failure_result(msg, traces);
            let mut out: Vec<(String, TestResult)> = Vec::new();
            out.push(("setUp()".to_owned(), result));
            proof {
                assert(out@.map_values(|p: (String, TestResult)| (p.0@, p.1@)) =~= srs);
            }
            return out;
        }
        if tracing {
            pre_traces.push(
                (
                    TraceKind::Setup,
                    Trace { description: "setUp()".to_owned(), success: true, gas: outcome.gas },
                ),
            );
        }
        proof {
            baseline = executor@.state;
        }
    } else {
        proof {
            baseline = executor@.state;
        }
    }
    let ghost prev = pre_traces@.map_values(|t: (TraceKind, Trace)| (t.0, t.1@));
    proof {
        if tracing {
            if contract@.abi.spec_has_setup() {
                assert(prev =~= srs_pre_traces_setup(
                    backend@.contracts,
                    contract@,
                    sender@,
                    st1,
                    st2,
                    deploy_gas,
                ));
            } else {
                assert(prev =~= seq![
                    (
                        TraceKind::Deployment,
                        TraceView { description: "deployment"@, success: true, gas: deploy_gas },
                    ),
                ]);
            }
        } else {
            assert(prev =~= Seq::<(TraceKind, TraceView)>::empty());
        }
        assert(srs == spec_dispatch(
            *flt,
            backend@.contracts,
            baseline,
            to@,
            contract@.abi.functions,
            tracing,
            prev,
            suite_seed,
            fuzz_config.cases,
            include_fuzz_tests,
        ));
    }
    // dispatch the matching test functions in declaration order
    let mut out: Vec<(String, TestResult)> = Vec::new();
    let ghost fns = contract@.abi.functions;
    let mut fi: usize = 0;
    proof {
        assert(fns.skip(0) =~= fns);
    }
    while fi < contract.abi.functions.len()
        invariant
            sender@.len() == 20,
            fns == contract@.abi.functions,
            fns.len() == contract.abi.functions@.len(),
            0 <= fi <= fns.len(),
            executor@.state == baseline,
            executor@.tracing == tracing,
            executor@.cheatcodes == cheatcodes,
            executor@.gas_limit == gas_limit,
            executor@.spec_id == spec_id,
            prev == pre_traces@.map_values(|t: (TraceKind, Trace)| (t.0, t.1@)),
            srs == out@.map_values(|p: (String, TestResult)| (p.0@, p.1@)) + spec_dispatch(
                *flt,
                backend@.contracts,
                baseline,
                to@,
                fns.skip(fi as int),
                tracing,
                prev,
                suite_seed,
                fuzz_config.cases,
                include_fuzz_tests,
            ),
        decreases fns.len() - fi,
    {
        proof {
            assert(fns[fi as int] == contract.abi.functions@[fi as int]@);
            assert(fns.skip(fi as int)[0] == fns[fi as int]);
            assert(fns.skip(fi as int).skip(1) =~= fns.skip(fi + 1));
        }
        let f = &contract.abi.functions[fi];
        if crate::strutil::starts_with_str(f.name.as_str(), "test") {
            let sig = f.signature();
            if flt.matches_test(sig.as_str()) {
                if f.inputs.len() == 0 {
                    let (sig2, result) = run_standard_test(
                        &mut executor,
                        backend,
                        sender,
                        &to,
                        f,
                        &pre_traces,
                    );
                    out.push((sig2, result));
                    proof {
                        assert(out@.map_values(|p: (String, TestResult)| (p.0@, p.1@)) =~= out@.map_values(
                            |p: (String, TestResult)| (p.0@, p.1@),
                        ));
                        assert(srs == out@.map_values(|p: (String, TestResult)| (p.0@, p.1@))
                            + spec_dispatch(
                            *flt,
                            backend@.contracts,
                            baseline,
                            to@,
                            fns.skip(fi + 1),
                            tracing,
                            prev,
                            suite_seed,
                            fuzz_config.cases,
                            include_fuzz_tests,
                        )) by {
                            assert(out@.drop_last().map_values(
                                |p: (String, TestResult)| (p.0@, p.1@),
                            ) + seq![(out@.last().0@, out@.last().1@)] =~= out@.map_values(
                                |p: (String, TestResult)| (p.0@, p.1@),
                            ));
                        }
                    }
                } else if include_fuzz_tests {
                    let (sig2, result) = run_fuzz_test(
                        &mut executor,
                        backend,
                        sender,
                        &to,
                        f,
                        &pre_traces,
                        suite_seed,
                        fuzz_config.cases,
                    );
                    out.push((sig2, result));
                    proof {
                        assert(srs == out@.map_values(|p: (String, TestResult)| (p.0@, p.1@))
                            + spec_dispatch(
                            *flt,
                            backend@.contracts,
                            baseline,
                            to@,
                            fns.skip(fi + 1),
                            tracing,
                            prev,
                            suite_seed,
                            fuzz_config.cases,
                            include_fuzz_tests,
                        )) by {
                            assert(out@.drop_last().map_values(
                                |p: (String, TestResult)| (p.0@, p.1@),
                            ) + seq![(out@.last().0@, out@.last().1@)] =~= out@.map_values(
                                |p: (String, TestResult)| (p.0@, p.1@),
                            ));
                        }
                    }
                }
            }
        }
        fi = fi + 1;
    }
    proof {
        assert(fns.skip(fns.len() as int) =~= Seq::<AbiFunctionView>::empty());
        assert(out@.map_values(|p: (String, TestResult)| (p.0@, p.1@)) + Seq::<
            (Seq<char>, TestResultView),
        >::empty() =~= out@.map_values(|p: (String, TestResult)| (p.0@, p.1@)));
    }
    out
}

/// The deployment and setup traces a tracing suite run records before its
/// tests.
pub open spec fn srs_pre_traces_setup(
    contracts: Seq<ContractBehaviorView>,
    contract: DeployableContractView,
    sender: Seq<u8>,
    st1: EvmStateView,
    st2: EvmStateView,
    deploy_gas: u64,
) -> Seq<(TraceKind, TraceView)> {
    let to = spec_deploy_result(contracts, st1.nonce, sender, contract.bytecode)->Ok_0.address;
    let data = spec_encode_calldata("setUp()"@, Seq::<u64>::empty());
    let outcome = spec_call_outcome(contracts, st2, to, data);
    seq![
        (
            TraceKind::Deployment,
            TraceView { description: "deployment"@, success: true, gas: deploy_gas },
        ),
        (
            TraceKind::Setup,
            TraceView { description: "setUp()"@, success: true, gas: outcome.gas },
        ),
    ]
}

} // verus!
