use vstd::prelude::*;
use crate::artifact::{AbiView, AbiFunctionView, ArtifactIdView, CompiledContractView,
    DeployableContractView};
use crate::evm::{ContractBehaviorView, EvmStateView, spec_call_outcome, spec_deploy_result,
    spec_deploy_state};
use crate::codec::spec_encode_calldata;
use crate::filter::TestFilter;
use crate::fuzz::spec_case_fails;
use crate::linker::{TestContractView, spec_test_entry_ok};
use crate::multi::{spec_multi_test, spec_count_filtered, spec_count_matching,
    spec_has_matching_test, spec_suite_selected};
use crate::result::{TestResultView, TraceKind, TraceView};
use crate::runner::{spec_run_suite, spec_dispatch, spec_standard_result, spec_fuzz_result,
    spec_all_supported, spec_deploy_libs, spec_initial_state};
use crate::strutil::spec_starts_with;

verus! {

/// Whether a suite's deployment phases all succeed: the libraries deploy,
/// the contract deploys, and `setUp` (when declared) does not revert.
pub open spec fn spec_suite_clean(
    contracts: Seq<ContractBehaviorView>,
    contract: DeployableContractView,
    sender: Seq<u8>,
    initial_balance: u128,
) -> bool {
    let st0 = spec_initial_state(sender, initial_balance);
    match spec_deploy_libs(contracts, st0, sender, contract.libraries) {
        Err(_) => false,
        Ok(st1) => match spec_deploy_result(contracts, st1.nonce, sender, contract.bytecode) {
            Err(_) => false,
            Ok(d) => !contract.abi.spec_has_setup() || !spec_call_outcome(
                contracts,
                spec_deploy_state(contracts, st1, sender, contract.bytecode),
                d.address,
                spec_encode_calldata("setUp()"@, Seq::<u64>::empty()),
            ).reverted,
        },
    }
}

/// Every dispatched test is keyed by a signature the filter accepts, and its
/// name begins with `test`.
pub proof fn lemma_dispatch_keys_accepted<F: TestFilter>(
    flt: F,
    contracts: Seq<ContractBehaviorView>,
    st: EvmStateView,
    to: Seq<u8>,
    functions: Seq<AbiFunctionView>,
    tracing: bool,
    pre_traces: Seq<(TraceKind, TraceView)>,
    suite_seed: u64,
    n_cases: u32,
    include_fuzz: bool,
)
    ensures
        forall|j: int|
            0 <= j < spec_dispatch(
                flt,
                contracts,
                st,
                to,
                functions,
                tracing,
                pre_traces,
                suite_seed,
                n_cases,
                include_fuzz,
            ).len() ==> flt.test_accepted(
                (#[trigger] spec_dispatch(
                    flt,
                    contracts,
                    st,
                    to,
                    functions,
                    tracing,
                    pre_traces,
                    suite_seed,
                    n_cases,
                    include_fuzz,
                )[j]).0,
            ),
    decreases functions.len(),
{
    if functions.len() > 0 {
        lemma_dispatch_keys_accepted(
            flt,
            contracts,
            st,
            to,
            functions.skip(1),
            tracing,
            pre_traces,
            suite_seed,
            n_cases,
            include_fuzz,
        );
        let d = spec_dispatch(
            flt,
            contracts,
            st,
            to,
            functions,
            tracing,
            pre_traces,
            suite_seed,
            n_cases,
            include_fuzz,
        );
        let rest = spec_dispatch(
            flt,
            contracts,
            st,
            to,
            functions.skip(1),
            tracing,
            pre_traces,
            suite_seed,
            n_cases,
            include_fuzz,
        );
        assert forall|j: int| 0 <= j < d.len() implies flt.test_accepted((#[trigger] d[j]).0) by {
            let f = functions[0];
            let sig = f.spec_signature();
            if spec_starts_with(f.name, "test"@) && flt.test_accepted(sig) && (f.inputs.len() == 0
                || include_fuzz) {
                if j > 0 {
                    assert(d[j] == rest[j - 1]);
                }
            } else {
                assert(d[j] == rest[j]);
            }
        }
    }
}

/// In a suite whose deployment phases succeed, every test result's key is a
/// signature the configured filter accepts.
pub proof fn lemma_suite_keys_accepted<F: TestFilter>(
    flt: F,
    contracts: Seq<ContractBehaviorView>,
    contract: DeployableContractView,
    sender: Seq<u8>,
    initial_balance: u128,
    tracing: bool,
    suite_seed: u64,
    n_cases: u32,
    include_fuzz: bool,
)
    requires
        spec_suite_clean(contracts, contract, sender, initial_balance),
    ensures
        forall|j: int|
            0 <= j < spec_run_suite(
                flt,
                contracts,
                contract,
                sender,
                initial_balance,
                tracing,
                suite_seed,
                n_cases,
                include_fuzz,
            ).len() ==> flt.test_accepted(
                (#[trigger] spec_run_suite(
                    flt,
                    contracts,
                    contract,
                    sender,
                    initial_balance,
                    tracing,
                    suite_seed,
                    n_cases,
                    include_fuzz,
                )[j]).0,
            ),
{
    let st0 = spec_initial_state(sender, initial_balance);
    let st1 = spec_deploy_libs(contracts, st0, sender, contract.libraries)->Ok_0;
    let d = spec_deploy_result(contracts, st1.nonce, sender, contract.bytecode)->Ok_0;
    let st2 = spec_deploy_state(contracts, st1, sender, contract.bytecode);
    let setup_data = spec_encode_calldata("setUp()"@, Seq::<u64>::empty());
    if contract.abi.spec_has_setup() {
        let st3 = crate::evm::spec_call_state(contracts, st2, d.address, setup_data);
        lemma_dispatch_keys_accepted(
            flt,
            contracts,
            st3,
            d.address,
            contract.abi.functions,
            tracing,
            crate::runner::srs_pre_traces_setup(contracts, contract, sender, st1, st2, d.gas),
            suite_seed,
            n_cases,
            include_fuzz,
        );
        lemma_dispatch_keys_accepted(
            flt,
            contracts,
            st3,
            d.address,
            contract.abi.functions,
            tracing,
            Seq::<(TraceKind, TraceView)>::empty(),
            suite_seed,
            n_cases,
            include_fuzz,
        );
    } else {
        lemma_dispatch_keys_accepted(
            flt,
            contracts,
            st2,
            d.address,
            contract.abi.functions,
            tracing,
            seq![
                (
                    TraceKind::Deployment,
                    TraceView { description: "deployment"@, success: true, gas: d.gas },
                ),
            ],
            suite_seed,
            n_cases,
            include_fuzz,
        );
        lemma_dispatch_keys_accepted(
            flt,
            contracts,
            st2,
            d.address,
            contract.abi.functions,
            tracing,
            Seq::<(TraceKind, TraceView)>::empty(),
            suite_seed,
            n_cases,
            include_fuzz,
        );
    }
}

/// In an aggregated run whose selected suites all deploy and set up
/// successfully, every test signature in the output was accepted by the
/// configured filter. With a suite whose `setUp` reverts the synthetic
/// `setUp()` entry need not pass the filter, so such suites are excluded.
pub proof fn lemma_output_keys_accepted<F: TestFilter>(
    flt: F,
    contracts: Seq<ContractBehaviorView>,
    entries: Seq<(Seq<char>, TestContractView)>,
    sender: Seq<u8>,
    initial_balance: u128,
    tracing: bool,
    n_cases: u32,
    include_fuzz: bool,
)
    requires
        forall|i: int|
            0 <= i < entries.len() && spec_suite_selected((#[trigger] entries[i]).1, flt)
                ==> spec_suite_clean(contracts, entries[i].1.contract, sender, initial_balance),
    ensures
        forall|i: int, j: int|
            #![trigger spec_multi_test(
                flt,
                contracts,
                entries,
                sender,
                initial_balance,
                tracing,
                n_cases,
                include_fuzz,
            )[i].1[j]]
            (0 <= i < spec_multi_test(
                flt,
                contracts,
                entries,
                sender,
                initial_balance,
                tracing,
                n_cases,
                include_fuzz,
            ).len() && 0 <= j < spec_multi_test(
                flt,
                contracts,
                entries,
                sender,
                initial_balance,
                tracing,
                n_cases,
                include_fuzz,
            )[i].1.len()) ==> flt.test_accepted(
                spec_multi_test(
                    flt,
                    contracts,
                    entries,
                    sender,
                    initial_balance,
                    tracing,
                    n_cases,
                    include_fuzz,
                )[i].1[j].0,
            ),
    decreases entries.len(),
{
    if entries.len() > 0 {
        let tail = entries.skip(1);
        assert(forall|i: int| 0 <= i < tail.len() ==> tail[i] == entries[i + 1]);
        lemma_output_keys_accepted(
            flt,
            contracts,
            tail,
            sender,
            initial_balance,
            tracing,
            n_cases,
            include_fuzz,
        );
        let out = spec_multi_test(
            flt,
            contracts,
            entries,
            sender,
            initial_balance,
            tracing,
            n_cases,
            include_fuzz,
        );
        let rest = spec_multi_test(
            flt,
            contracts,
            tail,
            sender,
            initial_balance,
            tracing,
            n_cases,
            include_fuzz,
        );
        let key = entries[0].0;
        let tc = entries[0].1;
        if spec_suite_selected(tc, flt) && spec_has_matching_test(tc.contract.abi.functions, flt) {
            let rs = spec_run_suite(
                flt,
                contracts,
                tc.contract,
                sender,
                initial_balance,
                tracing,
                crate::fuzz::spec_test_seed(0, key),
                n_cases,
                include_fuzz,
            );
            lemma_suite_keys_accepted(
                flt,
                contracts,
                tc.contract,
                sender,
                initial_balance,
                tracing,
                crate::fuzz::spec_test_seed(0, key),
                n_cases,
                include_fuzz,
            );
            assert forall|i: int, j: int|
                0 <= i < out.len() && 0 <= j < (#[trigger] out[i]).1.len() implies flt.test_accepted(
                #[trigger] out[i].1[j].0,
            ) by {
                if rs.len() > 0 {
                    if i == 0 {
                        assert(out[0] == (key, rs));
                    } else {
                        assert(out[i] == rest[i - 1]);
                    }
                } else {
                    assert(out[i] == rest[i]);
                }
            }
        } else {
            assert forall|i: int, j: int|
                0 <= i < out.len() && 0 <= j < (#[trigger] out[i]).1.len() implies flt.test_accepted(
                #[trigger] out[i].1[j].0,
            ) by {
                assert(out[i] == rest[i]);
            }
        }
    }
}

/// For a standard test whose name begins with `testFail`, success equals
/// whether the call reverted.
pub proof fn lemma_expected_revert_rule(
    contracts: Seq<ContractBehaviorView>,
    st: EvmStateView,
    to: Seq<u8>,
    f: AbiFunctionView,
    tracing: bool,
    pre_traces: Seq<(TraceKind, TraceView)>,
)
    requires
        spec_starts_with(f.name, "testFail"@),
    ensures
        spec_standard_result(contracts, st, to, f, tracing, pre_traces).success
            == spec_call_outcome(
            contracts,
            st,
            to,
            spec_encode_calldata(f.spec_signature(), Seq::<u64>::empty()),
        ).reverted,
{
}

/// For a standard test whose name does not begin with `testFail`, success
/// equals: the call did not revert and the DSTest failed flag is not set.
pub proof fn lemma_standard_rule(
    contracts: Seq<ContractBehaviorView>,
    st: EvmStateView,
    to: Seq<u8>,
    f: AbiFunctionView,
    tracing: bool,
    pre_traces: Seq<(TraceKind, TraceView)>,
)
    requires
        !spec_starts_with(f.name, "testFail"@),
    ensures
        ({
            let data = spec_encode_calldata(f.spec_signature(), Seq::<u64>::empty());
            let outcome = spec_call_outcome(contracts, st, to, data);
            let ds = crate::evm::spec_is_failed(
                crate::evm::spec_call_state(contracts, st, to, data),
                to,
            );
            spec_standard_result(contracts, st, to, f, tracing, pre_traces).success == (
            !outcome.reverted && !ds)
        }),
{
}

/// For a fuzz test whose parameter types the fuzzer covers, success holds
/// exactly when no counterexample was found. A test whose parameters cannot
/// be generated fails by reject overflow without a counterexample, so it is
/// excluded here.
pub proof fn lemma_fuzz_counterexample_iff(
    contracts: Seq<ContractBehaviorView>,
    st: EvmStateView,
    to: Seq<u8>,
    f: AbiFunctionView,
    tracing: bool,
    pre_traces: Seq<(TraceKind, TraceView)>,
    suite_seed: u64,
    n_cases: u32,
)
    requires
        spec_all_supported(f.inputs),
    ensures
        ({
            let r = spec_fuzz_result(contracts, st, to, f, tracing, pre_traces, suite_seed, n_cases);
            r.success <==> r.counterexample is None
        }),
{
}

/// A shrunk counterexample still fails its expected-outcome rule.
pub proof fn lemma_counterexample_fails(
    contracts: Seq<ContractBehaviorView>,
    st: EvmStateView,
    to: Seq<u8>,
    f: AbiFunctionView,
    tracing: bool,
    pre_traces: Seq<(TraceKind, TraceView)>,
    suite_seed: u64,
    n_cases: u32,
)
    requires
        spec_all_supported(f.inputs),
        spec_fuzz_result(
            contracts,
            st,
            to,
            f,
            tracing,
            pre_traces,
            suite_seed,
            n_cases,
        ).counterexample matches Some(c),
    ensures
        ({
            let c = spec_fuzz_result(
                contracts,
                st,
                to,
                f,
                tracing,
                pre_traces,
                suite_seed,
                n_cases,
            ).counterexample->Some_0;
            spec_case_fails(
                contracts,
                st,
                to,
                f.spec_signature(),
                spec_starts_with(f.name, "testFail"@),
                c.args,
            )
        }),
{
    let sig = f.spec_signature();
    let er = spec_starts_with(f.name, "testFail"@);
    let seed = crate::fuzz::spec_test_seed(suite_seed, sig);
    let run = crate::runner::spec_fuzz_cases(
        contracts,
        st,
        to,
        sig,
        er,
        f.inputs.len(),
        seed,
        n_cases as nat,
    );
    lemma_fuzz_cases_failing_fails(contracts, st, to, sig, er, f.inputs.len(), seed, n_cases as nat);
    match run.1 {
        Some(args0) => {
            crate::fuzz::lemma_shrink_fails(contracts, st, to, sig, er, args0);
        },
        None => {},
    }
}

/// The first failing input a campaign reports does fail.
pub proof fn lemma_fuzz_cases_failing_fails(
    contracts: Seq<ContractBehaviorView>,
    st: EvmStateView,
    to: Seq<u8>,
    sig: Seq<char>,
    expected_revert: bool,
    arity: nat,
    seed: u64,
    n: nat,
)
    ensures
        crate::runner::spec_fuzz_cases(
            contracts,
            st,
            to,
            sig,
            expected_revert,
            arity,
            seed,
            n,
        ).1 matches Some(a) ==> spec_case_fails(contracts, st, to, sig, expected_revert, a),
    decreases n,
{
    if n > 0 {
        let (args, seed2) = crate::fuzz::spec_gen_args(seed, arity);
        if !spec_case_fails(contracts, st, to, sig, expected_revert, args) {
            lemma_fuzz_cases_failing_fails(
                contracts,
                st,
                to,
                sig,
                expected_revert,
                arity,
                seed2,
                (n - 1) as nat,
            );
        }
    }
}

/// Re-running with the same configuration yields the same aggregated
/// results: the output, apart from wall-clock durations, is a function of the
/// linked contracts, the backend, the filter, the seed derivation and the
/// fuzzer configuration.
pub proof fn lemma_rerun_stable<F: TestFilter>(
    flt: F,
    contracts: Seq<ContractBehaviorView>,
    entries: Seq<(Seq<char>, TestContractView)>,
    sender: Seq<u8>,
    initial_balance: u128,
    tracing: bool,
    n_cases: u32,
    include_fuzz: bool,
    r1: Seq<(Seq<char>, Seq<(Seq<char>, TestResultView)>)>,
    r2: Seq<(Seq<char>, Seq<(Seq<char>, TestResultView)>)>,
)
    requires
        r1 == spec_multi_test(
            flt,
            contracts,
            entries,
            sender,
            initial_balance,
            tracing,
            n_cases,
            include_fuzz,
        ),
        r2 == spec_multi_test(
            flt,
            contracts,
            entries,
            sender,
            initial_balance,
            tracing,
            n_cases,
            include_fuzz,
        ),
    ensures
        r1 == r2,
{
}

/// Running the same standard test twice against the same post-`setUp`
/// baseline yields identical logs, gas and traces.
pub proof fn lemma_standard_test_replay(
    contracts: Seq<ContractBehaviorView>,
    st: EvmStateView,
    to: Seq<u8>,
    f: AbiFunctionView,
    tracing: bool,
    pre_traces: Seq<(TraceKind, TraceView)>,
    r1: TestResultView,
    r2: TestResultView,
)
    requires
        r1 == spec_standard_result(contracts, st, to, f, tracing, pre_traces),
        r2 == spec_standard_result(contracts, st, to, f, tracing, pre_traces),
    ensures
        r1.logs == r2.logs,
        r1.kind == r2.kind,
        r1.traces == r2.traces,
        r1.success == r2.success,
{
}

/// Re-linking a linked set is the identity on bytecode: an entry of the
/// deployable map built from artifacts without library references keeps the
/// creation bytecode of its artifact byte for byte.
pub proof fn lemma_relink_identity(
    arts: Seq<(ArtifactIdView, CompiledContractView)>,
    sender: Seq<u8>,
    key: Seq<char>,
    tc: TestContractView,
)
    requires
        spec_test_entry_ok(arts, sender, key, tc),
        forall|j: int| 0 <= j < arts.len() ==> (#[trigger] arts[j]).1.library_refs.len() == 0,
    ensures
        exists|i: int|
            0 <= i < arts.len() && {
                &&& key == (#[trigger] arts[i]).0.spec_identifier()
                &&& arts[i].1.creation_bytecode matches Some(b) && tc.contract.bytecode == b
                &&& tc.contract.libraries.len() == 0
            },
{
    let i = choose|i: int|
        0 <= i < arts.len() && {
            &&& key == (#[trigger] arts[i]).0.spec_identifier()
            &&& tc.id == arts[i].0
            &&& tc.contract.abi == arts[i].1.abi
            &&& arts[i].1.abi.spec_is_test_suite()
            &&& arts[i].1.creation_bytecode is Some
            &&& (arts[i].1.library_refs.len() == 0 ==> tc.contract.bytecode
                == arts[i].1.creation_bytecode->Some_0 && tc.contract.libraries.len() == 0)
        };
    assert(arts[i].1.library_refs.len() == 0);
}



/// Every key in the dispatch output is the full signature of one of the
/// interface's functions.
pub proof fn lemma_dispatch_keys_are_signatures<F: TestFilter>(
    flt: F,
    contracts: Seq<ContractBehaviorView>,
    st: EvmStateView,
    to: Seq<u8>,
    functions: Seq<AbiFunctionView>,
    tracing: bool,
    pre_traces: Seq<(TraceKind, TraceView)>,
    suite_seed: u64,
    n_cases: u32,
    include_fuzz: bool,
)
    ensures
        forall|j: int|
            0 <= j < spec_dispatch(
                flt,
                contracts,
                st,
                to,
                functions,
                tracing,
                pre_traces,
                suite_seed,
                n_cases,
                include_fuzz,
            ).len() ==> exists|i: int|
                0 <= i < functions.len() && (#[trigger] spec_dispatch(
                    flt,
                    contracts,
                    st,
                    to,
                    functions,
                    tracing,
                    pre_traces,
                    suite_seed,
                    n_cases,
                    include_fuzz,
                )[j]).0 == (#[trigger] functions[i]).spec_signature(),
    decreases functions.len(),
{
    if functions.len() > 0 {
        let tail = functions.skip(1);
        lemma_dispatch_keys_are_signatures(
            flt,
            contracts,
            st,
            to,
            tail,
            tracing,
            pre_traces,
            suite_seed,
            n_cases,
            include_fuzz,
        );
        let d = spec_dispatch(
            flt,
            contracts,
            st,
            to,
            functions,
            tracing,
            pre_traces,
            suite_seed,
            n_cases,
            include_fuzz,
        );
        let rest = spec_dispatch(
            flt,
            contracts,
            st,
            to,
            tail,
            tracing,
            pre_traces,
            suite_seed,
            n_cases,
            include_fuzz,
        );
        assert forall|j: int| 0 <= j < d.len() implies exists|i: int|
            0 <= i < functions.len() && (#[trigger] d[j]).0 == (
            #[trigger] functions[i]).spec_signature() by {
            let f = functions[0];
            let sig = f.spec_signature();
            let dispatched_here = spec_starts_with(f.name, "test"@) && flt.test_accepted(sig) && (
            f.inputs.len() == 0 || include_fuzz);
            let r: int = if dispatched_here {
                j - 1
            } else {
                j
            };
            if dispatched_here && j == 0 {
                assert(d[j].0 == functions[0].spec_signature());
            } else {
                assert(d[j] == rest[r]);
                let i = choose|i: int|
                    0 <= i < tail.len() && (#[trigger] rest[r]).0 == (
                    #[trigger] tail[i]).spec_signature();
                assert(functions[i + 1] == tail[i]);
                assert(d[j].0 == functions[i + 1].spec_signature());
            }
        }
    }
}

/// When the interface's functions have pairwise distinct full signatures —
/// which overloads with well-formed parameter lists do — the dispatch output
/// keys each result distinctly.
pub proof fn lemma_dispatch_keys_distinct<F: TestFilter>(
    flt: F,
    contracts: Seq<ContractBehaviorView>,
    st: EvmStateView,
    to: Seq<u8>,
    functions: Seq<AbiFunctionView>,
    tracing: bool,
    pre_traces: Seq<(TraceKind, TraceView)>,
    suite_seed: u64,
    n_cases: u32,
    include_fuzz: bool,
)
    requires
        forall|x: int, y: int|
            0 <= x < y < functions.len() ==> (#[trigger] functions[x]).spec_signature() != (
            #[trigger] functions[y]).spec_signature(),
    ensures
        forall|a: int, b: int|
            0 <= a < b < spec_dispatch(
                flt,
                contracts,
                st,
                to,
                functions,
                tracing,
                pre_traces,
                suite_seed,
                n_cases,
                include_fuzz,
            ).len() ==> (#[trigger] spec_dispatch(
                flt,
                contracts,
                st,
                to,
                functions,
                tracing,
                pre_traces,
                suite_seed,
                n_cases,
                include_fuzz,
            )[a]).0 != (#[trigger] spec_dispatch(
                flt,
                contracts,
                st,
                to,
                functions,
                tracing,
                pre_traces,
                suite_seed,
                n_cases,
                include_fuzz,
            )[b]).0,
    decreases functions.len(),
{
    if functions.len() > 0 {
        let tail = functions.skip(1);
        assert(forall|i: int| 0 <= i < tail.len() ==> (#[trigger] tail[i]) == functions[i + 1]);
        lemma_dispatch_keys_distinct(
            flt,
            contracts,
            st,
            to,
            tail,
            tracing,
            pre_traces,
            suite_seed,
            n_cases,
            include_fuzz,
        );
        lemma_dispatch_keys_are_signatures(
            flt,
            contracts,
            st,
            to,
            tail,
            tracing,
            pre_traces,
            suite_seed,
            n_cases,
            include_fuzz,
        );
        let d = spec_dispatch(
            flt,
            contracts,
            st,
            to,
            functions,
            tracing,
            pre_traces,
            suite_seed,
            n_cases,
            include_fuzz,
        );
        let rest = spec_dispatch(
            flt,
            contracts,
            st,
            to,
            tail,
            tracing,
            pre_traces,
            suite_seed,
            n_cases,
            include_fuzz,
        );
        assert forall|a: int, b: int| 0 <= a < b < d.len() implies (#[trigger] d[a]).0 != (
        #[trigger] d[b]).0 by {
            let f = functions[0];
            let sig = f.spec_signature();
            let dispatched_here = spec_starts_with(f.name, "test"@) && flt.test_accepted(sig) && (
            f.inputs.len() == 0 || include_fuzz);
            if dispatched_here {
                if a == 0 {
                    assert(d[b] == rest[b - 1]);
                    let i = choose|i: int|
                        0 <= i < tail.len() && (#[trigger] rest[b - 1]).0 == (
                        #[trigger] tail[i]).spec_signature();
                    assert(functions[i + 1] == tail[i]);
                    assert(functions[0].spec_signature() != functions[
                        i + 1].spec_signature());
                } else {
                    assert(d[a] == rest[a - 1] && d[b] == rest[b - 1]);
                }
            } else {
                assert(d[a] == rest[a] && d[b] == rest[b]);
            }
        }
    }
}

/// When a lookup succeeds in one linked map, the other complete map answers
/// with the same entry: the linked value is pinned by its artifact.
proof fn lemma_linked_entry_transfer(
    arts: Seq<(ArtifactIdView, CompiledContractView)>,
    sender: Seq<u8>,
    m1: Seq<(Seq<char>, TestContractView)>,
    m2: Seq<(Seq<char>, TestContractView)>,
    k: Seq<char>,
)
    requires
        forall|j: int| 0 <= j < m1.len() ==> spec_test_entry_ok(
            arts,
            sender,
            (#[trigger] m1[j]).0,
            m1[j].1,
        ),
        forall|j: int| 0 <= j < m2.len() ==> spec_test_entry_ok(
            arts,
            sender,
            (#[trigger] m2[j]).0,
            m2[j].1,
        ),
        forall|p: int|
            0 <= p < arts.len() && (#[trigger] arts[p]).1.abi.spec_is_test_suite()
                && crate::linker::spec_links_ok(arts, arts[p].1, sender)
                ==> crate::omap::entries_contains(m2, arts[p].0.spec_identifier()),
        forall|x: int, y: int|
            0 <= x < y < arts.len() ==> (#[trigger] arts[x]).0.spec_identifier() != (
            #[trigger] arts[y]).0.spec_identifier(),
        crate::omap::entries_get(m1, k) is Some,
    ensures
        crate::omap::entries_get(m2, k) == crate::omap::entries_get(m1, k),
{
    let v1 = crate::omap::entries_get(m1, k)->Some_0;
    crate::omap::lemma_get_some_witness(m1, k);
    let j1 = choose|j: int| 0 <= j < m1.len() && (#[trigger] m1[j]) == (k, v1);
    assert(spec_test_entry_ok(arts, sender, k, v1));
    let i = choose|i: int|
        0 <= i < arts.len() && {
            &&& k == (#[trigger] arts[i]).0.spec_identifier()
            &&& v1.id == arts[i].0
            &&& v1.contract.abi == arts[i].1.abi
            &&& arts[i].1.abi.spec_is_test_suite()
            &&& arts[i].1.creation_bytecode is Some
            &&& (arts[i].1.library_refs.len() == 0 ==> v1.contract.bytecode
                == arts[i].1.creation_bytecode->Some_0 && v1.contract.libraries.len() == 0)
            &&& crate::linker::spec_link_code(
                arts,
                arts[i].1.creation_bytecode->Some_0,
                arts[i].1.library_refs,
                sender,
                crate::linker::spec_empty_link_state(),
                crate::linker::spec_link_fuel(arts.len() as nat),
            ) matches Ok(lr) && v1.contract.bytecode == lr.0 && v1.contract.libraries == lr.1.deps
        };
    assert(crate::linker::spec_links_ok(arts, arts[i].1, sender));
    assert(crate::omap::entries_contains(m2, k));
    let v2 = crate::omap::entries_get(m2, k)->Some_0;
    crate::omap::lemma_get_some_witness(m2, k);
    let j2 = choose|j: int| 0 <= j < m2.len() && (#[trigger] m2[j]) == (k, v2);
    assert(spec_test_entry_ok(arts, sender, k, v2));
    let i2 = choose|i2: int|
        0 <= i2 < arts.len() && {
            &&& k == (#[trigger] arts[i2]).0.spec_identifier()
            &&& v2.id == arts[i2].0
            &&& v2.contract.abi == arts[i2].1.abi
            &&& arts[i2].1.abi.spec_is_test_suite()
            &&& arts[i2].1.creation_bytecode is Some
            &&& (arts[i2].1.library_refs.len() == 0 ==> v2.contract.bytecode
                == arts[i2].1.creation_bytecode->Some_0 && v2.contract.libraries.len() == 0)
            &&& crate::linker::spec_link_code(
                arts,
                arts[i2].1.creation_bytecode->Some_0,
                arts[i2].1.library_refs,
                sender,
                crate::linker::spec_empty_link_state(),
                crate::linker::spec_link_fuel(arts.len() as nat),
            ) matches Ok(lr) && v2.contract.bytecode == lr.0 && v2.contract.libraries == lr.1.deps
        };
    assert(i == i2) by {
        if i < i2 {
            assert(arts[i].0.spec_identifier() != arts[i2].0.spec_identifier());
        }
        if i2 < i {
            assert(arts[i2].0.spec_identifier() != arts[i].0.spec_identifier());
        }
    }
    assert(v1.contract =~= v2.contract);
    assert(v1 =~= v2);
}

/// Linking is deterministic and idempotent: two deployable maps built over
/// the same artifacts and the same sender — for artifacts with distinct
/// identifiers — are identical, entry for entry and byte for byte. In
/// particular re-linking a set changes nothing.
pub proof fn lemma_build_deterministic(
    arts: Seq<(ArtifactIdView, CompiledContractView)>,
    sender: Seq<u8>,
    m1: Seq<(Seq<char>, TestContractView)>,
    m2: Seq<(Seq<char>, TestContractView)>,
)
    requires
        crate::omap::entries_sorted(m1),
        crate::omap::entries_sorted(m2),
        forall|j: int| 0 <= j < m1.len() ==> spec_test_entry_ok(
            arts,
            sender,
            (#[trigger] m1[j]).0,
            m1[j].1,
        ),
        forall|j: int| 0 <= j < m2.len() ==> spec_test_entry_ok(
            arts,
            sender,
            (#[trigger] m2[j]).0,
            m2[j].1,
        ),
        forall|p: int|
            0 <= p < arts.len() && (#[trigger] arts[p]).1.abi.spec_is_test_suite()
                && crate::linker::spec_links_ok(arts, arts[p].1, sender)
                ==> crate::omap::entries_contains(m1, arts[p].0.spec_identifier()),
        forall|p: int|
            0 <= p < arts.len() && (#[trigger] arts[p]).1.abi.spec_is_test_suite()
                && crate::linker::spec_links_ok(arts, arts[p].1, sender)
                ==> crate::omap::entries_contains(m2, arts[p].0.spec_identifier()),
        forall|x: int, y: int|
            0 <= x < y < arts.len() ==> (#[trigger] arts[x]).0.spec_identifier() != (
            #[trigger] arts[y]).0.spec_identifier(),
    ensures
        m1 == m2,
{
    assert forall|k: Seq<char>| #[trigger] crate::omap::entries_get(m1, k)
        == crate::omap::entries_get(m2, k) by {
        if crate::omap::entries_get(m1, k) is Some {
            lemma_linked_entry_transfer(arts, sender, m1, m2, k);
        } else if crate::omap::entries_get(m2, k) is Some {
            lemma_linked_entry_transfer(arts, sender, m2, m1, k);
        }
    }
    crate::omap::lemma_sorted_entries_canonical(m1, m2);
}

/// A contract with a non-empty constructor is never classified as a test
/// suite.
pub proof fn lemma_nonempty_constructor_not_suite(abi: AbiView)
    requires
        abi.constructor matches Some(ins) && ins.len() > 0,
    ensures
        !abi.spec_is_test_suite(),
{
}

/// A contract with no `test` function is never classified as a test suite.
pub proof fn lemma_no_test_function_not_suite(abi: AbiView)
    requires
        !abi.spec_has_test_function(),
    ensures
        !abi.spec_is_test_suite(),
{
}

/// Every entry of the deployable map came from an artifact classified as a
/// test suite; together with the two lemmas above, a contract with a
/// non-empty constructor or without `test` functions never appears there.
pub proof fn lemma_deployable_entries_are_suites(
    arts: Seq<(ArtifactIdView, CompiledContractView)>,
    sender: Seq<u8>,
    key: Seq<char>,
    tc: TestContractView,
)
    requires
        spec_test_entry_ok(arts, sender, key, tc),
    ensures
        exists|i: int|
            0 <= i < arts.len() && key == (#[trigger] arts[i]).0.spec_identifier()
                && arts[i].1.abi.spec_is_test_suite(),
{
}

/// A filter-selected suite whose test count is zero has no matching test,
/// and one with a positive count has one.
pub proof fn lemma_count_zero_iff_no_match<F: TestFilter>(functions: Seq<AbiFunctionView>, flt: F)
    ensures
        (spec_count_matching(functions, flt) == 0) <==> !spec_has_matching_test(functions, flt),
    decreases functions.len(),
{
    if functions.len() > 0 {
        let tail = functions.skip(1);
        assert(forall|i: int| 0 <= i < tail.len() ==> tail[i] == functions[i + 1]);
        lemma_count_zero_iff_no_match(tail, flt);
        if spec_has_matching_test(tail, flt) {
            let w = choose|w: int|
                0 <= w < tail.len() && spec_starts_with((#[trigger] tail[w]).name, "test"@)
                    && flt.test_accepted(tail[w].spec_signature());
            assert(functions[w + 1] == tail[w]);
        }
        if spec_has_matching_test(functions, flt) && !spec_starts_with(functions[0].name, "test"@)
            || !flt.test_accepted(functions[0].spec_signature()) {
            if spec_has_matching_test(functions, flt) {
                let w = choose|w: int|
                    0 <= w < functions.len() && spec_starts_with(
                        (#[trigger] functions[w]).name,
                        "test"@,
                    ) && flt.test_accepted(functions[w].spec_signature());
                if w > 0 {
                    assert(tail[w - 1] == functions[w]);
                }
            }
        }
    }
}

/// With fuzz tests included, a clean suite yields exactly one result per
/// matching test function.
pub proof fn lemma_dispatch_len<F: TestFilter>(
    flt: F,
    contracts: Seq<ContractBehaviorView>,
    st: EvmStateView,
    to: Seq<u8>,
    functions: Seq<AbiFunctionView>,
    tracing: bool,
    pre_traces: Seq<(TraceKind, TraceView)>,
    suite_seed: u64,
    n_cases: u32,
)
    ensures
        spec_dispatch(
            flt,
            contracts,
            st,
            to,
            functions,
            tracing,
            pre_traces,
            suite_seed,
            n_cases,
            true,
        ).len() == spec_count_matching(functions, flt),
    decreases functions.len(),
{
    if functions.len() > 0 {
        lemma_dispatch_len(
            flt,
            contracts,
            st,
            to,
            functions.skip(1),
            tracing,
            pre_traces,
            suite_seed,
            n_cases,
        );
    }
}

/// With fuzz tests included, a clean suite's result count equals its
/// matching test count.
pub proof fn lemma_suite_len<F: TestFilter>(
    flt: F,
    contracts: Seq<ContractBehaviorView>,
    contract: DeployableContractView,
    sender: Seq<u8>,
    initial_balance: u128,
    tracing: bool,
    suite_seed: u64,
    n_cases: u32,
)
    requires
        spec_suite_clean(contracts, contract, sender, initial_balance),
    ensures
        spec_run_suite(
            flt,
            contracts,
            contract,
            sender,
            initial_balance,
            tracing,
            suite_seed,
            n_cases,
            true,
        ).len() == spec_count_matching(contract.abi.functions, flt),
{
    let st0 = spec_initial_state(sender, initial_balance);
    let st1 = spec_deploy_libs(contracts, st0, sender, contract.libraries)->Ok_0;
    let d = spec_deploy_result(contracts, st1.nonce, sender, contract.bytecode)->Ok_0;
    let st2 = spec_deploy_state(contracts, st1, sender, contract.bytecode);
    let setup_data = spec_encode_calldata("setUp()"@, Seq::<u64>::empty());
    if contract.abi.spec_has_setup() {
        let st3 = crate::evm::spec_call_state(contracts, st2, d.address, setup_data);
        lemma_dispatch_len(
            flt,
            contracts,
            st3,
            d.address,
            contract.abi.functions,
            tracing,
            crate::runner::srs_pre_traces_setup(contracts, contract, sender, st1, st2, d.gas),
            suite_seed,
            n_cases,
        );
        lemma_dispatch_len(
            flt,
            contracts,
            st3,
            d.address,
            contract.abi.functions,
            tracing,
            Seq::<(TraceKind, TraceView)>::empty(),
            suite_seed,
            n_cases,
        );
    } else {
        lemma_dispatch_len(
            flt,
            contracts,
            st2,
            d.address,
            contract.abi.functions,
            tracing,
            seq![
                (
                    TraceKind::Deployment,
                    TraceView { description: "deployment"@, success: true, gas: d.gas },
                ),
            ],
            suite_seed,
            n_cases,
        );
        lemma_dispatch_len(
            flt,
            contracts,
            st2,
            d.address,
            contract.abi.functions,
            tracing,
            Seq::<(TraceKind, TraceView)>::empty(),
            suite_seed,
            n_cases,
        );
    }
}

/// The total number of test results in an aggregated run.
pub open spec fn spec_results_total(
    out: Seq<(Seq<char>, Seq<(Seq<char>, TestResultView)>)>,
) -> nat
    decreases out.len(),
{
    if out.len() == 0 {
        0
    } else {
        out[0].1.len() + spec_results_total(out.skip(1))
    }
}

/// When every selected suite deploys and sets up successfully and fuzz
/// tests are included, `count_filtered_tests` equals the sum of the final
/// suite results' test counts.
pub proof fn lemma_count_equals_results<F: TestFilter>(
    flt: F,
    contracts: Seq<ContractBehaviorView>,
    entries: Seq<(Seq<char>, TestContractView)>,
    sender: Seq<u8>,
    initial_balance: u128,
    tracing: bool,
    n_cases: u32,
)
    requires
        forall|i: int|
            0 <= i < entries.len() && spec_suite_selected((#[trigger] entries[i]).1, flt)
                ==> spec_suite_clean(contracts, entries[i].1.contract, sender, initial_balance),
    ensures
        spec_count_filtered(entries, flt) == spec_results_total(
            spec_multi_test(
                flt,
                contracts,
                entries,
                sender,
                initial_balance,
                tracing,
                n_cases,
                true,
            ),
        ),
    decreases entries.len(),
{
    if entries.len() > 0 {
        let tail = entries.skip(1);
        assert(forall|i: int| 0 <= i < tail.len() ==> tail[i] == entries[i + 1]);
        lemma_count_equals_results(
            flt,
            contracts,
            tail,
            sender,
            initial_balance,
            tracing,
            n_cases,
        );
        let key = entries[0].0;
        let tc = entries[0].1;
        let rest = spec_multi_test(
            flt,
            contracts,
            tail,
            sender,
            initial_balance,
            tracing,
            n_cases,
            true,
        );
        if spec_suite_selected(tc, flt) {
            lemma_count_zero_iff_no_match(tc.contract.abi.functions, flt);
            if spec_has_matching_test(tc.contract.abi.functions, flt) {
                let rs = spec_run_suite(
                    flt,
                    contracts,
                    tc.contract,
                    sender,
                    initial_balance,
                    tracing,
                    crate::fuzz::spec_test_seed(0, key),
                    n_cases,
                    true,
                );
                lemma_suite_len(
                    flt,
                    contracts,
                    tc.contract,
                    sender,
                    initial_balance,
                    tracing,
                    crate::fuzz::spec_test_seed(0, key),
                    n_cases,
                );
                assert(rs.len() > 0);
                let out = seq![(key, rs)] + rest;
                assert(out.skip(1) =~= rest);
            }
        }
    }
}


/// A well-formed parameter type name: non-empty, without the separator and
/// bracket characters of a signature.
pub open spec fn spec_wf_param(t: Seq<char>) -> bool {
    t.len() > 0 && forall|i: int| 0 <= i < t.len() ==> (#[trigger] t[i]) != ',' && t[i] != '('
        && t[i] != ')'
}

pub open spec fn spec_wf_params(ts: Seq<Seq<char>>) -> bool {
    forall|i: int| 0 <= i < ts.len() ==> spec_wf_param(#[trigger] ts[i])
}

proof fn lemma_join_nonempty(p: Seq<Seq<char>>)
    requires
        p.len() > 0,
        spec_wf_params(p),
    ensures
        crate::strutil::spec_join_commas(p).len() > 0,
{
    if p.len() == 1 {
        assert(spec_wf_param(p[0]));
    }
}

proof fn lemma_wf_params_drop_last(p: Seq<Seq<char>>)
    requires
        p.len() > 0,
        spec_wf_params(p),
    ensures
        spec_wf_params(p.drop_last()),
{
    assert(forall|i: int| 0 <= i < p.drop_last().len() ==> p.drop_last()[i] == p[i]);
}

/// Joining well-formed parameter lists with commas is injective.
proof fn lemma_join_injective(p1: Seq<Seq<char>>, p2: Seq<Seq<char>>)
    requires
        spec_wf_params(p1),
        spec_wf_params(p2),
        crate::strutil::spec_join_commas(p1) == crate::strutil::spec_join_commas(p2),
    ensures
        p1 == p2,
    decreases p1.len(),
{
    let j1 = crate::strutil::spec_join_commas(p1);
    let j2 = crate::strutil::spec_join_commas(p2);
    if p1.len() == 0 {
        if p2.len() > 0 {
            lemma_join_nonempty(p2);
        }
        assert(p1 =~= p2);
    } else if p2.len() == 0 {
        lemma_join_nonempty(p1);
        assert(p1 =~= p2);
    } else if p1.len() == 1 && p2.len() == 1 {
        assert(p1 =~= p2);
    } else if p1.len() == 1 {
        // j2 holds a comma where p1's only part cannot
        let b = crate::strutil::spec_join_commas(p2.drop_last());
        assert(j2 == b + seq![','] + p2.last());
        assert(j2[b.len() as int] == ',');
        assert(spec_wf_param(p1[0]));
        assert(j1[b.len() as int] != ',');
        assert(false);
    } else if p2.len() == 1 {
        let a = crate::strutil::spec_join_commas(p1.drop_last());
        assert(j1 == a + seq![','] + p1.last());
        assert(j1[a.len() as int] == ',');
        assert(spec_wf_param(p2[0]));
        assert(j2[a.len() as int] != ',');
        assert(false);
    } else {
        let a = crate::strutil::spec_join_commas(p1.drop_last());
        let b = crate::strutil::spec_join_commas(p2.drop_last());
        let x = p1.last();
        let y = p2.last();
        assert(j1 == a + seq![','] + x);
        assert(j2 == b + seq![','] + y);
        assert(spec_wf_param(x));
        assert(spec_wf_param(y));
        let la = a.len() as int;
        let lb = b.len() as int;
        assert(la == lb) by {
            if la < lb {
                assert(j2[lb] == ',');
                assert(lb < j1.len());
                assert(j1[lb] == x[lb - la - 1]);
                assert(x[lb - la - 1] != ',');
                assert(false);
            }
            if lb < la {
                assert(j1[la] == ',');
                assert(la < j2.len());
                assert(j2[la] == y[la - lb - 1]);
                assert(y[la - lb - 1] != ',');
                assert(false);
            }
        }
        assert(a =~= j1.subrange(0, la));
        assert(b =~= j2.subrange(0, lb));
        assert(x =~= j1.subrange(la + 1, j1.len() as int));
        assert(y =~= j2.subrange(lb + 1, j2.len() as int));
        lemma_wf_params_drop_last(p1);
        lemma_wf_params_drop_last(p2);
        lemma_join_injective(p1.drop_last(), p2.drop_last());
        assert(p1 =~= p1.drop_last().push(x));
        assert(p2 =~= p2.drop_last().push(y));
    }
}

/// Overloaded test functions yield distinct result keys: two functions with
/// the same name but different well-formed parameter lists have different
/// full signatures.
pub proof fn lemma_overloads_have_distinct_signatures(f1: AbiFunctionView, f2: AbiFunctionView)
    requires
        f1.name == f2.name,
        f1.inputs != f2.inputs,
        spec_wf_params(f1.inputs),
        spec_wf_params(f2.inputs),
    ensures
        f1.spec_signature() != f2.spec_signature(),
{
    let s1 = f1.spec_signature();
    let s2 = f2.spec_signature();
    let j1 = crate::strutil::spec_join_commas(f1.inputs);
    let j2 = crate::strutil::spec_join_commas(f2.inputs);
    if s1 == s2 {
        assert(s1.len() == f1.name.len() + 1 + j1.len() + 1);
        assert(s2.len() == f2.name.len() + 1 + j2.len() + 1);
        assert(j1.len() == j2.len());
        assert(j1 =~= s1.subrange(f1.name.len() as int + 1, s1.len() as int - 1));
        assert(j2 =~= s2.subrange(f2.name.len() as int + 1, s2.len() as int - 1));
        lemma_join_injective(f1.inputs, f2.inputs);
        assert(false);
    }
}

} // verus!
