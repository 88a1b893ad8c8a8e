use vstd::prelude::*;
use crate::artifact::{ArtifactId, CompiledContract, AbiFunctionView};
use crate::evm::{Backend, ContractBehaviorView, SpecId};
use crate::filter::TestFilter;
use crate::fuzz::{FuzzConfig, spec_test_seed, test_seed};
use crate::linker::{link, TestContract, TestContractView, LinkFailure, spec_arts_view,
    spec_test_entry_ok, spec_known_entry_ok};
use crate::omap::{StrMap, entries_sorted};
use crate::result::{SuiteResult, TestResultView};
use crate::runner::{run_suite, spec_run_suite};
use crate::artifact::KnownContract;
use crate::strutil::{spec_starts_with, starts_with_str, str_lt};

verus! {

/// A fork descriptor: where the shared base state would be fetched from.
/// The core treats it as configuration; fetching is the caller's concern.
pub struct Fork {
    pub url: String,
    pub pin_block: Option<u64>,
}

/// The EVM options a run is configured with.
pub struct EvmOpts {
    pub sender: Vec<u8>,
    pub initial_balance: u128,
    pub gas_limit: u64,
    pub verbosity: u8,
    pub ffi: bool,
}

/// Relies on `std::time::SystemTime::now` for wall-clock durations; nothing
/// is promised of the value.
#[verifier::external_body]
fn now_millis() -> u64 {
    match std::time::SystemTime::now().duration_since(std::time::UNIX_EPOCH) {
        Ok(d) => d.as_millis() as u64,
        Err(_) => 0,
    }
}

/// Builder for a multi-contract runner.
pub struct MultiContractRunnerBuilder {
    pub fuzzer: Option<FuzzConfig>,
    pub sender: Option<Vec<u8>>,
    pub initial_balance: u128,
    pub evm_spec: Option<SpecId>,
    pub fork: Option<Fork>,
}

/// Runs all test functions of a linked set of contracts.
pub struct MultiContractRunner {
    /// The deployable test suites, keyed by suite identifier.
    pub contracts: StrMap<TestContract>,
    /// Contracts with runtime bytecode, for trace identification.
    pub known_contracts: StrMap<KnownContract>,
    /// The artifacts that could not be linked and were dropped.
    pub link_failures: Vec<(ArtifactId, LinkFailure)>,
    pub evm_opts: EvmOpts,
    pub evm_spec: SpecId,
    pub fuzzer: Option<FuzzConfig>,
    pub sender: Vec<u8>,
    pub fork: Option<Fork>,
}

impl Default for MultiContractRunnerBuilder {
    fn default() -> (r: Self)
        ensures
            r.fuzzer is None,
            r.sender is None,
            r.initial_balance == 0,
            r.evm_spec is None,
            r.fork is None,
    {
        MultiContractRunnerBuilder {
            fuzzer: None,
            sender: None,
            initial_balance: 0,
            evm_spec: None,
            fork: None,
        }
    }
}

impl MultiContractRunnerBuilder {
    pub fn new() -> (r: Self)
        ensures
            r.fuzzer is None,
            r.sender is None,
            r.initial_balance == 0,
            r.evm_spec is None,
            r.fork is None,
    {
        MultiContractRunnerBuilder {
            fuzzer: None,
            sender: None,
            initial_balance: 0,
            evm_spec: None,
            fork: None,
        }
    }

    #[must_use]
    pub fn sender(self, sender: Vec<u8>) -> (r: Self)
        ensures
            r.sender matches Some(s) && s@ == sender@,
            r.fuzzer == self.fuzzer,
            r.initial_balance == self.initial_balance,
            r.evm_spec == self.evm_spec,
            r.fork == self.fork,
    {
        MultiContractRunnerBuilder { sender: Some(sender), ..self }
    }

    #[must_use]
    pub fn initial_balance(self, initial_balance: u128) -> (r: Self)
        ensures
            r.initial_balance == initial_balance,
            r.fuzzer == self.fuzzer,
            r.sender == self.sender,
            r.evm_spec == self.evm_spec,
            r.fork == self.fork,
    {
        MultiContractRunnerBuilder { initial_balance, ..self }
    }

    #[must_use]
    pub fn fuzzer(self, fuzzer: FuzzConfig) -> (r: Self)
        ensures
            r.fuzzer matches Some(c) && c == fuzzer,
            r.sender == self.sender,
            r.initial_balance == self.initial_balance,
            r.evm_spec == self.evm_spec,
            r.fork == self.fork,
    {
        MultiContractRunnerBuilder { fuzzer: Some(fuzzer), ..self }
    }

    #[must_use]
    pub fn evm_spec(self, spec: SpecId) -> (r: Self)
        ensures
            r.evm_spec matches Some(s) && s == spec,
            r.fuzzer == self.fuzzer,
            r.sender == self.sender,
            r.initial_balance == self.initial_balance,
            r.fork == self.fork,
    {
        MultiContractRunnerBuilder { evm_spec: Some(spec), ..self }
    }

    #[must_use]
    pub fn with_fork(self, fork: Option<Fork>) -> (r: Self)
        ensures
            r.fork == fork,
            r.fuzzer == self.fuzzer,
            r.sender == self.sender,
            r.initial_balance == self.initial_balance,
            r.evm_spec == self.evm_spec,
    {
        MultiContractRunnerBuilder { fork, ..self }
    }

    /// Links the compiled artifacts and assembles the runner. The sender
    /// must be a 20-byte address; when unset, the zero address is used. The
    /// EVM spec defaults to the latest known hardfork. On success the runner
    /// carries the linked deployable map (sound and complete over the input
    /// artifacts), the known-contracts map, and the configuration unchanged.
    pub fn build(self, artifacts: &Vec<(ArtifactId, CompiledContract)>, evm_opts: EvmOpts) -> (r:
        Result<MultiContractRunner, String>)
        ensures
            r is Ok <==> !(self.sender matches Some(s) && s@.len() != 20),
            match r {
                Ok(runner) => {
                    &&& runner.sender@ == spec_build_sender(self.sender)
                    &&& runner.sender@.len() == 20
                    &&& runner.contracts.wf()
                    &&& runner.known_contracts.wf()
                    &&& forall|j: int| 0 <= j < runner.contracts@.len() ==> spec_test_entry_ok(
                        spec_arts_view(artifacts@),
                        runner.sender@,
                        (#[trigger] runner.contracts@[j]).0,
                        runner.contracts@[j].1,
                    )
                    &&& forall|j: int| 0 <= j < runner.known_contracts@.len()
                        ==> spec_known_entry_ok(
                        spec_arts_view(artifacts@),
                        (#[trigger] runner.known_contracts@[j]).0,
                        runner.known_contracts@[j].1,
                    )
                    &&& forall|p: int|
                        0 <= p < artifacts@.len() && (#[trigger] spec_arts_view(
                            artifacts@,
                        )[p]).1.abi.spec_is_test_suite() && crate::linker::spec_links_ok(
                            spec_arts_view(artifacts@),
                            spec_arts_view(artifacts@)[p].1,
                            runner.sender@,
                        ) ==> crate::omap::entries_contains(
                            runner.contracts@,
                            spec_arts_view(artifacts@)[p].0.spec_identifier(),
                        )
                    &&& forall|p: int|
                        0 <= p < artifacts@.len() ==> ((#[trigger] spec_arts_view(
                            artifacts@,
                        )[p]).1.deployed_bytecode matches Some(b) && b.len() > 0
                            ==> crate::omap::entries_contains(
                            runner.known_contracts@,
                            spec_arts_view(artifacts@)[p].0.spec_identifier(),
                        ))
                    &&& runner.evm_spec == (match self.evm_spec {
                        Some(x) => x,
                        None => SpecId::London,
                    })
                    &&& runner.fuzzer == self.fuzzer
                    &&& runner.fork == self.fork
                    &&& runner.evm_opts == evm_opts
                },
                Err(_) => self.sender matches Some(s) && s@.len() != 20,
            },
    {
        let sender: Vec<u8> = match self.sender {
            Some(s) => {
                if s.len() != 20 {
                    return Err("the sender must be a 20-byte address".to_owned());
                }
                s
            },
            None => {
                let mut z: Vec<u8> = Vec::new();
                let mut i: usize = 0;
                while i < 20
                    invariant
                        0 <= i <= 20,
                        z@.len() == i,
                        forall|j: int| 0 <= j < i ==> (#[trigger] z@[j]) == 0u8,
                    decreases 20 - i,
                {
                    z.push(0u8);
                    i = i + 1;
                }
                proof {
                    assert(z@ =~= Seq::new(20, |j: int| 0u8));
                }
                z
            },
        };
        let out = link(artifacts, &sender);
        Ok(
            MultiContractRunner {
                contracts: out.deployable,
                known_contracts: out.known,
                link_failures: out.failures,
                evm_opts,
                evm_spec: match self.evm_spec {
                    Some(s) => s,
                    None => SpecId::London,
                },
                fuzzer: self.fuzzer,
                sender,
                fork: self.fork,
            },
        )
    }
}

/// The sender a runner is built with: the one set on the builder, or the
/// zero address.
pub open spec fn spec_build_sender(sender: Option<Vec<u8>>) -> Seq<u8> {
    match sender {
        Some(s) => s@,
        None => Seq::new(20, |j: int| 0u8),
    }
}

/// How many test functions a suite's interface exposes to this filter.
pub open spec fn spec_count_matching(functions: Seq<AbiFunctionView>, flt: impl TestFilter) -> nat
    decreases functions.len(),
{
    if functions.len() == 0 {
        0
    } else {
        let here: nat = if spec_starts_with(functions[0].name, "test"@) && flt.test_accepted(
            functions[0].spec_signature(),
        ) {
            1
        } else {
            0
        };
        here + spec_count_matching(functions.skip(1), flt)
    }
}

/// Whether some test function of the interface passes the filter.
pub open spec fn spec_has_matching_test(
    functions: Seq<AbiFunctionView>,
    flt: impl TestFilter,
) -> bool {
    exists|i: int|
        0 <= i < functions.len() && spec_starts_with((#[trigger] functions[i]).name, "test"@)
            && flt.test_accepted(functions[i].spec_signature())
}

/// Whether the filter selects a suite at all: by its source path and its
/// contract name.
pub open spec fn spec_suite_selected(tc: TestContractView, flt: impl TestFilter) -> bool {
    flt.path_accepted(tc.id.source) && flt.contract_accepted(tc.id.name)
}

/// The number of test functions in scope, over all selected suites.
pub open spec fn spec_count_filtered(
    entries: Seq<(Seq<char>, TestContractView)>,
    flt: impl TestFilter,
) -> nat
    decreases entries.len(),
{
    if entries.len() == 0 {
        0
    } else {
        let here: nat = if spec_suite_selected(entries[0].1, flt) {
            spec_count_matching(entries[0].1.contract.abi.functions, flt)
        } else {
            0
        };
        here + spec_count_filtered(entries.skip(1), flt)
    }
}

/// The aggregated results of a run, without the wall-clock durations: for
/// each selected suite with a matching test function and a non-empty result
/// list, its suite identifier and its test results in execution order.
pub open spec fn spec_multi_test<F: TestFilter>(
    flt: F,
    contracts: Seq<ContractBehaviorView>,
    entries: Seq<(Seq<char>, TestContractView)>,
    sender: Seq<u8>,
    initial_balance: u128,
    tracing: bool,
    n_cases: u32,
    include_fuzz: bool,
) -> Seq<(Seq<char>, Seq<(Seq<char>, TestResultView)>)>
    decreases entries.len(),
{
    if entries.len() == 0 {
        Seq::<(Seq<char>, Seq<(Seq<char>, TestResultView)>)>::empty()
    } else {
        let key = entries[0].0;
        let tc = entries[0].1;
        let rest = spec_multi_test(
            flt,
            contracts,
            entries.skip(1),
            sender,
            initial_balance,
            tracing,
            n_cases,
            include_fuzz,
        );
        if spec_suite_selected(tc, flt) && spec_has_matching_test(tc.contract.abi.functions, flt) {
            let rs = spec_run_suite(
                flt,
                contracts,
                tc.contract,
                sender,
                initial_balance,
                tracing,
                spec_test_seed(0, key),
                n_cases,
                include_fuzz,
            );
            if rs.len() > 0 {
                seq![(key, rs)] + rest
            } else {
                rest
            }
        } else {
            rest
        }
    }
}

fn count_matching<F: TestFilter>(abi: &crate::artifact::Abi, flt: &F) -> (r: usize)
    ensures
        r as nat == spec_count_matching(abi@.functions, *flt) || (r == usize::MAX
            && spec_count_matching(abi@.functions, *flt) >= usize::MAX),
{
    let ghost fns = abi@.functions;
    let mut count: usize = 0;
    let mut i: usize = 0;
    proof {
        assert(fns.skip(0) =~= fns);
    }
    while i < abi.functions.len()
        invariant
            fns == abi@.functions,
            fns.len() == abi.functions@.len(),
            0 <= i <= fns.len(),
            count as nat + spec_count_matching(fns.skip(i as int), *flt) == spec_count_matching(
                fns,
                *flt,
            ) || (count == usize::MAX && spec_count_matching(fns, *flt) >= usize::MAX),
        decreases fns.len() - i,
    {
        proof {
            assert(fns[i as int] == abi.functions@[i as int]@);
            assert(fns.skip(i as int)[0] == fns[i as int]);
            assert(fns.skip(i as int).skip(1) =~= fns.skip(i + 1));
        }
        let f = &abi.functions[i];
        if starts_with_str(f.name.as_str(), "test") {
            let sig = f.signature();
            if flt.matches_test(sig.as_str()) {
                if count < usize::MAX {
                    count = count + 1;
                }
            }
        }
        i = i + 1;
    }
    proof {
        assert(fns.skip(fns.len() as int) =~= Seq::<AbiFunctionView>::empty());
    }
    count
}

fn has_matching_test<F: TestFilter>(abi: &crate::artifact::Abi, flt: &F) -> (r: bool)
    ensures
        r == spec_has_matching_test(abi@.functions, *flt),
{
    let ghost fns = abi@.functions;
    let mut i: usize = 0;
    while i < abi.functions.len()
        invariant
            fns == abi@.functions,
            fns.len() == abi.functions@.len(),
            0 <= i <= fns.len(),
            forall|j: int|
                0 <= j < i ==> !(spec_starts_with((#[trigger] fns[j]).name, "test"@)
                    && flt.test_accepted(fns[j].spec_signature())),
        decreases fns.len() - i,
    {
        proof {
            assert(fns[i as int] == abi.functions@[i as int]@);
        }
        let f = &abi.functions[i];
        if starts_with_str(f.name.as_str(), "test") {
            let sig = f.signature();
            if flt.matches_test(sig.as_str()) {
                return true;
            }
        }
        i = i + 1;
    }
    false
}

impl MultiContractRunner {
    pub open spec fn wf(&self) -> bool {
        &&& self.sender@.len() == 20
        &&& self.contracts.wf()
        &&& self.known_contracts.wf()
    }

    /// Counts the test functions the filter keeps in scope, over all suites
    /// whose source path and contract name it accepts. The count saturates
    /// at the machine's limit.
    pub fn count_filtered_tests<F: TestFilter>(&self, filter: &F) -> (r: usize)
        ensures
            r as nat == spec_count_filtered(self.contracts@, *filter) || (r == usize::MAX
                && spec_count_filtered(self.contracts@, *filter) >= usize::MAX),
    {
        let ghost es = self.contracts@;
        let mut count: usize = 0;
        let mut i: usize = 0;
        proof {
            assert(es.skip(0) =~= es);
        }
        while i < self.contracts.len()
            invariant
                es == self.contracts@,
                0 <= i <= es.len(),
                count as nat + spec_count_filtered(es.skip(i as int), *filter)
                    == spec_count_filtered(es, *filter) || (count == usize::MAX
                    && spec_count_filtered(es, *filter) >= usize::MAX),
            decreases es.len() - i,
        {
            proof {
                assert(es.skip(i as int)[0] == es[i as int]);
                assert(es.skip(i as int).skip(1) =~= es.skip(i + 1));
            }
            let tc: &TestContract = self.contracts.value_at(i);
            let selected = filter.matches_path(tc.id.source.as_str()) && filter.matches_contract(
                tc.id.name.as_str(),
            );
            if selected {
                let c = count_matching(&tc.contract.abi, filter);
                if count <= usize::MAX - c {
                    count = count + c;
                } else {
                    count = usize::MAX;
                }
            }
            i = i + 1;
        }
        proof {
            assert(es.skip(es.len() as int) =~= Seq::<(Seq<char>, TestContractView)>::empty());
        }
        count
    }

    /// Runs every suite the filter selects against the shared backend, in
    /// suite-identifier order, and aggregates the results into an ordered
    /// map. Apart from the recorded wall-clock durations the outcome is a
    /// function of the runner's configuration, the backend and the filter.
    pub fn test<F: TestFilter>(&self, backend: &Backend, filter: &F, include_fuzz_tests: bool) -> (r:
        StrMap<SuiteResult>)
        requires
            self.wf(),
        ensures
            r.wf(),
            ({
                let spec = spec_multi_test(
                    *filter,
                    backend@.contracts,
                    self.contracts@,
                    self.sender@,
                    self.evm_opts.initial_balance,
                    self.evm_opts.verbosity >= 3,
                    match self.fuzzer {
                        Some(c) => c.cases,
                        None => 0,
                    },
                    match self.fuzzer {
                        Some(_) => include_fuzz_tests,
                        None => false,
                    },
                );
                &&& r@.len() == spec.len()
                &&& forall|j: int| 0 <= j < r@.len() ==> (#[trigger] r@[j]).0 == spec[j].0
                    && r@[j].1.test_results == spec[j].1
            }),
    {
        let tracing: bool = self.evm_opts.verbosity >= 3;
        let (cfg, include_fuzz) = match &self.fuzzer {
            Some(c) => (
                FuzzConfig::new(c.cases, c.max_local_rejects, c.max_global_rejects),
                include_fuzz_tests,
            ),
            None => (FuzzConfig::new(0, 0, 0), false),
        };
        let ghost es = self.contracts@;
        let ghost spec = spec_multi_test(
            *filter,
            backend@.contracts,
            es,
            self.sender@,
            self.evm_opts.initial_balance,
            tracing,
            cfg.cases,
            include_fuzz,
        );
        let mut out: Vec<(String, SuiteResult)> = Vec::new();
        let mut i: usize = 0;
        proof {
            assert(es.skip(0) =~= es);
        }
        while i < self.contracts.len()
            invariant
                self.wf(),
                es == self.contracts@,
                entries_sorted(es),
                0 <= i <= es.len(),
                cfg.cases == (match self.fuzzer {
                    Some(c) => c.cases,
                    None => 0u32,
                }),
                include_fuzz == (match self.fuzzer {
                    Some(_) => include_fuzz_tests,
                    None => false,
                }),
                tracing == (self.evm_opts.verbosity >= 3),
                spec == spec_multi_test(
                    *filter,
                    backend@.contracts,
                    es,
                    self.sender@,
                    self.evm_opts.initial_balance,
                    tracing,
                    cfg.cases,
                    include_fuzz,
                ),
                spec == out@.map_values(|p: (String, SuiteResult)| (p.0@, p.1@.test_results))
                    + spec_multi_test(
                    *filter,
                    backend@.contracts,
                    es.skip(i as int),
                    self.sender@,
                    self.evm_opts.initial_balance,
                    tracing,
                    cfg.cases,
                    include_fuzz,
                ),
                forall|w: int|
                    0 <= w < out@.len() ==> exists|j: int|
                        0 <= j < i && (#[trigger] out@[w].0@) == es[j].0,
                forall|a: int, b: int|
                    0 <= a < b < out@.len() ==> str_lt(
                        (#[trigger] out@[a]).0@,
                        (#[trigger] out@[b]).0@,
                    ),
            decreases es.len() - i,
        {
            proof {
                assert(es.skip(i as int)[0] == es[i as int]);
                assert(es.skip(i as int).skip(1) =~= es.skip(i + 1));
            }
            let key: &String = self.contracts.key_at(i);
            let tc: &TestContract = self.contracts.value_at(i);
            let selected = filter.matches_path(tc.id.source.as_str()) && filter.matches_contract(
                tc.id.name.as_str(),
            );
            if selected && has_matching_test(&tc.contract.abi, filter) {
                let suite_seed: u64 = test_seed(0, key.as_str());
                let started: u64 = now_millis();
                let results = run_suite(
                    backend,
                    &tc.contract,
                    filter,
                    &cfg,
                    include_fuzz,
                    &self.sender,
                    self.evm_opts.initial_balance,
                    tracing,
                    self.evm_opts.ffi,
                    self.evm_opts.gas_limit,
                    self.evm_spec,
                    suite_seed,
                );
                let ended: u64 = now_millis();
                let duration_ms: u64 = if ended >= started {
                    ended - started
                } else {
                    0
                };
                if results.len() > 0 {
                    let suite = SuiteResult::new(duration_ms, results);
                    out.push((key.clone(), suite));
                    proof {
                        assert(out@.map_values(
                            |p: (String, SuiteResult)| (p.0@, p.1@.test_results),
                        ) =~= out@.drop_last().map_values(
                            |p: (String, SuiteResult)| (p.0@, p.1@.test_results),
                        ) + seq![(out@.last().0@, out@.last().1@.test_results)]);
                        assert forall|w: int| 0 <= w < out@.len() implies exists|j: int|
                            0 <= j < i + 1 && (#[trigger] out@[w].0@) == es[j].0 by {
                            if w < out@.len() - 1 {
                                assert(exists|j: int|
                                    0 <= j < i && (#[trigger] out@[w].0@) == es[j].0);
                            } else {
                                assert(out@[w].0@ == es[i as int].0);
                            }
                        }
                        assert forall|a: int, b: int| 0 <= a < b < out@.len() implies str_lt(
                            (#[trigger] out@[a]).0@,
                            (#[trigger] out@[b]).0@,
                        ) by {
                            if b == out@.len() - 1 {
                                let ja = choose|j: int|
                                    0 <= j < i && (#[trigger] out@[a].0@) == es[j].0;
                                assert(str_lt(es[ja].0, es[i as int].0));
                            }
                        }
                    }
                } else {
                    proof {
                        assert(out@.map_values(
                            |p: (String, SuiteResult)| (p.0@, p.1@.test_results),
                        ) + Seq::<(Seq<char>, Seq<(Seq<char>, TestResultView)>)>::empty()
                            =~= out@.map_values(
                            |p: (String, SuiteResult)| (p.0@, p.1@.test_results),
                        ));
                    }
                }
            }
            i = i + 1;
        }
        proof {
            assert(es.skip(es.len() as int) =~= Seq::<(Seq<char>, TestContractView)>::empty());
        }
        let r = StrMap { entries: out };
        proof {
            assert forall|a: int, b: int| 0 <= a < b < r@.len() implies str_lt(
                (#[trigger] r@[a]).0,
                (#[trigger] r@[b]).0,
            ) by {
                assert(r@[a].0 == r.entries@[a].0@);
                assert(r@[b].0 == r.entries@[b].0@);
            }
        }
        r
    }
}

} // verus!
