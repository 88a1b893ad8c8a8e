use vstd::prelude::*;
use vstd::string::StringExecFns;
use crate::result::{
    SuiteResult, SuiteResultView, TestResult, TestResultView, TestKind, FuzzCase, CounterExample,
};
use crate::omap::StrMap;
use crate::strutil::{spec_dec, u64_to_dec, spec_after_last_colon, contract_name_of, file_name_of};

verus! {

/// One executed test with the suite it came from.
pub struct Test {
    /// The suite identifier `<file>:<contract>`.
    pub artifact_id: String,
    /// The full signature of the test function.
    pub signature: String,
    pub result: TestResult,
}

#[verifier::ext_equal]
pub ghost struct TestView {
    pub artifact_id: Seq<char>,
    pub signature: Seq<char>,
    pub result: TestResultView,
}

impl View for Test {
    type V = TestView;

    open spec fn view(&self) -> TestView {
        TestView {
            artifact_id: self.artifact_id@,
            signature: self.signature@,
            result: self.result@,
        }
    }
}

impl Test {
    /// The headline gas figure of the test's kind.
    pub fn gas_used(&self) -> (r: u64)
        ensures
            r == self.result.kind.spec_gas(),
    {
        self.result.kind.gas()
    }

    /// The contract-name part of the artifact id.
    pub fn contract_name(&self) -> (r: String)
        ensures
            r@ == self.artifact_id@.subrange(
                spec_after_last_colon(self.artifact_id@),
                self.artifact_id@.len() as int,
            ),
    {
        contract_name_of(self.artifact_id.as_str())
    }

    /// The file part of the artifact id.
    pub fn file_name(&self) -> (r: String)
        ensures
            spec_after_last_colon(self.artifact_id@) == 0 ==> r@ == self.artifact_id@,
            spec_after_last_colon(self.artifact_id@) > 0 ==> r@ == self.artifact_id@.subrange(
                0,
                spec_after_last_colon(self.artifact_id@) - 1,
            ),
    {
        file_name_of(self.artifact_id.as_str())
    }
}

/// All tests of a result map, flattened in order: suite by suite, each
/// suite's tests in execution order.
pub open spec fn spec_all_tests(results: Seq<(Seq<char>, SuiteResultView)>) -> Seq<
    (Seq<char>, TestResultView),
>
    decreases results.len(),
{
    if results.len() == 0 {
        Seq::<(Seq<char>, TestResultView)>::empty()
    } else {
        results[0].1.test_results + spec_all_tests(results.skip(1))
    }
}

/// The flattened tests keeping only one verdict.
pub open spec fn spec_tests_with(
    tests: Seq<(Seq<char>, TestResultView)>,
    want: bool,
) -> Seq<(Seq<char>, TestResultView)>
    decreases tests.len(),
{
    if tests.len() == 0 {
        Seq::<(Seq<char>, TestResultView)>::empty()
    } else {
        let rest = spec_tests_with(tests.skip(1), want);
        if tests[0].1.success == want {
            seq![tests[0]] + rest
        } else {
            rest
        }
    }
}

/// All tests of a result map as `Test` views: suite by suite, each test
/// carrying the identifier of the suite it came from.
pub open spec fn spec_all_tests_keyed(results: Seq<(Seq<char>, SuiteResultView)>) -> Seq<TestView>
    decreases results.len(),
{
    if results.len() == 0 {
        Seq::<TestView>::empty()
    } else {
        results[0].1.test_results.map_values(
            |p: (Seq<char>, TestResultView)|
                TestView { artifact_id: results[0].0, signature: p.0, result: p.1 },
        ) + spec_all_tests_keyed(results.skip(1))
    }
}

/// The sum of the suite durations, in milliseconds.
pub open spec fn spec_total_duration(results: Seq<(Seq<char>, SuiteResultView)>) -> nat
    decreases results.len(),
{
    if results.len() == 0 {
        0
    } else {
        results[0].1.duration_ms as nat + spec_total_duration(results.skip(1))
    }
}

pub(crate) fn clone_fuzz_cases(v: &Vec<FuzzCase>) -> (r: Vec<FuzzCase>)
    ensures
        r@.map_values(|c: FuzzCase| c@) == v@.map_values(|c: FuzzCase| c@),
{
    let mut r: Vec<FuzzCase> = Vec::new();
    let mut i: usize = 0;
    while i < v.len()
        invariant
            0 <= i <= v@.len(),
            r@.len() == i,
            forall|k: int| 0 <= k < i ==> (#[trigger] r@[k])@ == v@[k]@,
        decreases v@.len() - i,
    {
        let c = &v[i];
        r.push(FuzzCase { calldata: crate::hash::clone_bytes(&c.calldata), gas: c.gas });
        i = i + 1;
    }
    proof {
        assert(r@.map_values(|c: FuzzCase| c@) =~= v@.map_values(|c: FuzzCase| c@));
    }
    r
}

/// Copies a test result; the copy has the same view.
pub fn clone_test_result(t: &TestResult) -> (r: TestResult)
    ensures
        r@ == t@,
{
    let reason: Option<String> = match &t.reason {
        Some(s) => Some(s.clone()),
        None => None,
    };
    let counterexample: Option<CounterExample> = match &t.counterexample {
        Some(c) => Some(
            CounterExample {
                calldata: crate::hash::clone_bytes(&c.calldata),
                args: crate::runner::clone_words_pub(&c.args),
            },
        ),
        None => None,
    };
    let logs = crate::evm::clone_strings(&t.logs);
    let traces = crate::runner::clone_traces_pub(&t.traces);
    let mut labeled: Vec<(Vec<u8>, String)> = Vec::new();
    let mut i: usize = 0;
    while i < t.labeled_addresses.len()
        invariant
            0 <= i <= t.labeled_addresses@.len(),
            labeled@.len() == i,
            forall|k: int|
                0 <= k < i ==> (#[trigger] labeled@[k]).0@ == t.labeled_addresses@[k].0@
                    && labeled@[k].1@ == t.labeled_addresses@[k].1@,
        decreases t.labeled_addresses@.len() - i,
    {
        let e = &t.labeled_addresses[i];
        labeled.push((crate::hash::clone_bytes(&e.0), e.1.clone()));
        i = i + 1;
    }
    let kind: TestKind = match &t.kind {
        TestKind::Standard { gas } => TestKind::Standard { gas: *gas },
        TestKind::Fuzz { cases, median_gas, mean_gas } => TestKind::Fuzz {
            cases: clone_fuzz_cases(cases),
            median_gas: *median_gas,
            mean_gas: *mean_gas,
        },
    };
    let r = TestResult {
        success: t.success,
        reason,
        counterexample,
        logs,
        traces,
        labeled_addresses: labeled,
        kind,
    };
    proof {
        assert(r@.labeled_addresses =~= t@.labeled_addresses);
        match &t.kind {
            TestKind::Standard { gas } => {},
            TestKind::Fuzz { cases, median_gas, mean_gas } => {
                assert(r@.kind =~= t@.kind);
            },
        }
        assert(r@ =~= t@);
    }
    r
}

/// The bundled results of a whole run, with the exit-code policy.
pub struct TestOutcome {
    /// Whether failures still let the run end successfully.
    pub allow_failure: bool,
    /// The per-suite results, keyed by suite identifier.
    pub results: StrMap<SuiteResult>,
}

impl TestOutcome {
    pub fn new(results: StrMap<SuiteResult>, allow_failure: bool) -> (r: TestOutcome)
        ensures
            r.allow_failure == allow_failure,
            r.results@ == results@,
    {
        TestOutcome { results, allow_failure }
    }

    /// All tests of the run with their signatures, in suite order.
    pub fn tests(&self) -> (r: Vec<(String, TestResult)>)
        ensures
            r@.map_values(|p: (String, TestResult)| (p.0@, p.1@)) == spec_all_tests(
                self.results@,
            ),
    {
        let ghost rs = self.results@;
        let mut out: Vec<(String, TestResult)> = Vec::new();
        let mut i: usize = 0;
        proof {
            assert(rs.skip(0) =~= rs);
            assert(out@.map_values(|p: (String, TestResult)| (p.0@, p.1@)) =~= Seq::<
                (Seq<char>, TestResultView),
            >::empty());
        }
        while i < self.results.len()
            invariant
                rs == self.results@,
                0 <= i <= rs.len(),
                spec_all_tests(rs) == out@.map_values(|p: (String, TestResult)| (p.0@, p.1@))
                    + spec_all_tests(rs.skip(i as int)),
            decreases rs.len() - i,
        {
            proof {
                assert(rs.skip(i as int)[0] == rs[i as int]);
                assert(rs.skip(i as int).skip(1) =~= rs.skip(i + 1));
            }
            let suite: &SuiteResult = self.results.value_at(i);
            let ghost suite_tests = rs[i as int].1.test_results;
            let mut j: usize = 0;
            while j < suite.len()
                invariant
                    rs == self.results@,
                    0 <= i < rs.len(),
                    suite@ == rs[i as int].1,
                    suite_tests == rs[i as int].1.test_results,
                    0 <= j <= suite_tests.len(),
                    spec_all_tests(rs) == out@.map_values(
                        |p: (String, TestResult)| (p.0@, p.1@),
                    ) + suite_tests.skip(j as int) + spec_all_tests(rs.skip(i + 1)),
                decreases suite_tests.len() - j,
            {
                let sig: &String = suite.signature_at(j);
                let result: &TestResult = suite.result_at(j);
                out.push((sig.clone(), clone_test_result(result)));
                proof {
                    assert(out@.map_values(|p: (String, TestResult)| (p.0@, p.1@))
                        =~= out@.drop_last().map_values(|p: (String, TestResult)| (p.0@, p.1@))
                        + seq![(out@.last().0@, out@.last().1@)]);
                    assert(suite_tests.skip(j as int)[0] == suite_tests[j as int]);
                    assert(suite_tests.skip(j as int).skip(1) =~= suite_tests.skip(j + 1));
                    assert(out@.drop_last().map_values(|p: (String, TestResult)| (p.0@, p.1@))
                        + seq![(out@.last().0@, out@.last().1@)] + suite_tests.skip(j + 1)
                        =~= out@.drop_last().map_values(|p: (String, TestResult)| (p.0@, p.1@)) + (
                    seq![suite_tests[j as int]] + suite_tests.skip(j + 1)));
                    assert(seq![suite_tests[j as int]] + suite_tests.skip(j + 1) =~= suite_tests.skip(
                        j as int,
                    ));
                }
                j = j + 1;
            }
            proof {
                assert(suite_tests.skip(suite_tests.len() as int) =~= Seq::<
                    (Seq<char>, TestResultView),
                >::empty());
                assert(out@.map_values(|p: (String, TestResult)| (p.0@, p.1@)) + Seq::<
                    (Seq<char>, TestResultView),
                >::empty() =~= out@.map_values(|p: (String, TestResult)| (p.0@, p.1@)));
            }
            i = i + 1;
        }
        proof {
            assert(rs.skip(rs.len() as int) =~= Seq::<(Seq<char>, SuiteResultView)>::empty());
            assert(out@.map_values(|p: (String, TestResult)| (p.0@, p.1@)) + Seq::<
                (Seq<char>, TestResultView),
            >::empty() =~= out@.map_values(|p: (String, TestResult)| (p.0@, p.1@)));
        }
        out
    }

    fn tests_with(&self, want: bool) -> (r: Vec<(String, TestResult)>)
        ensures
            r@.map_values(|p: (String, TestResult)| (p.0@, p.1@)) == spec_tests_with(
                spec_all_tests(self.results@),
                want,
            ),
    {
        let all = self.tests();
        let ghost av = all@.map_values(|p: (String, TestResult)| (p.0@, p.1@));
        let mut out: Vec<(String, TestResult)> = Vec::new();
        let mut i: usize = 0;
        proof {
            assert(av.skip(0) =~= av);
            assert(out@.map_values(|p: (String, TestResult)| (p.0@, p.1@)) =~= Seq::<
                (Seq<char>, TestResultView),
            >::empty());
        }
        while i < all.len()
            invariant
                av == all@.map_values(|p: (String, TestResult)| (p.0@, p.1@)),
                av == spec_all_tests(self.results@),
                av.len() == all@.len(),
                0 <= i <= av.len(),
                spec_tests_with(av, want) == out@.map_values(
                    |p: (String, TestResult)| (p.0@, p.1@),
                ) + spec_tests_with(av.skip(i as int), want),
            decreases av.len() - i,
        {
            proof {
                assert(av.skip(i as int)[0] == av[i as int]);
                assert(av.skip(i as int).skip(1) =~= av.skip(i + 1));
                assert(av[i as int] == (all@[i as int].0@, all@[i as int].1@));
            }
            let p = &all[i];
            if p.1.success == want {
                out.push((p.0.clone(), clone_test_result(&p.1)));
                proof {
                    assert(out@.map_values(|p: (String, TestResult)| (p.0@, p.1@))
                        =~= out@.drop_last().map_values(|p: (String, TestResult)| (p.0@, p.1@))
                        + seq![(out@.last().0@, out@.last().1@)]);
                    assert(out@.drop_last().map_values(|p: (String, TestResult)| (p.0@, p.1@))
                        + seq![(out@.last().0@, out@.last().1@)] + spec_tests_with(
                        av.skip(i + 1),
                        want,
                    ) =~= out@.drop_last().map_values(|p: (String, TestResult)| (p.0@, p.1@)) + (
                    seq![av[i as int]] + spec_tests_with(av.skip(i + 1), want)));
                }
            }
            i = i + 1;
        }
        proof {
            assert(av.skip(av.len() as int) =~= Seq::<(Seq<char>, TestResultView)>::empty());
            assert(out@.map_values(|p: (String, TestResult)| (p.0@, p.1@)) + Seq::<
                (Seq<char>, TestResultView),
            >::empty() =~= out@.map_values(|p: (String, TestResult)| (p.0@, p.1@)));
        }
        out
    }

    /// The succeeding tests with their signatures.
    pub fn successes(&self) -> (r: Vec<(String, TestResult)>)
        ensures
            r@.map_values(|p: (String, TestResult)| (p.0@, p.1@)) == spec_tests_with(
                spec_all_tests(self.results@),
                true,
            ),
    {
        self.tests_with(true)
    }

    /// The failing tests with their signatures.
    pub fn failures(&self) -> (r: Vec<(String, TestResult)>)
        ensures
            r@.map_values(|p: (String, TestResult)| (p.0@, p.1@)) == spec_tests_with(
                spec_all_tests(self.results@),
                false,
            ),
    {
        self.tests_with(false)
    }

    /// Every test as a `Test`: its suite's identifier, its signature and its
    /// result, flattened in suite order.
    pub fn into_tests(self) -> (r: Vec<Test>)
        ensures
            r@.map_values(|t: Test| t@) == spec_all_tests_keyed(self.results@),
    {
        let ghost rs = self.results@;
        let mut out: Vec<Test> = Vec::new();
        let mut i: usize = 0;
        proof {
            assert(rs.skip(0) =~= rs);
            assert(out@.map_values(|t: Test| t@) =~= Seq::<TestView>::empty());
        }
        while i < self.results.len()
            invariant
                rs == self.results@,
                0 <= i <= rs.len(),
                spec_all_tests_keyed(rs) == out@.map_values(|t: Test| t@)
                    + spec_all_tests_keyed(rs.skip(i as int)),
            decreases rs.len() - i,
        {
            proof {
                assert(rs.skip(i as int)[0] == rs[i as int]);
                assert(rs.skip(i as int).skip(1) =~= rs.skip(i + 1));
            }
            let key: &String = self.results.key_at(i);
            let suite: &SuiteResult = self.results.value_at(i);
            let ghost kv = rs[i as int].0;
            let ghost suite_tests = rs[i as int].1.test_results;
            let ghost keyed = suite_tests.map_values(
                |p: (Seq<char>, TestResultView)|
                    TestView { artifact_id: kv, signature: p.0, result: p.1 },
            );
            let mut j: usize = 0;
            proof {
                assert(keyed.skip(0) =~= keyed);
            }
            while j < suite.len()
                invariant
                    rs == self.results@,
                    0 <= i < rs.len(),
                    key@ == kv,
                    kv == rs[i as int].0,
                    suite@ == rs[i as int].1,
                    suite_tests == rs[i as int].1.test_results,
                    keyed == suite_tests.map_values(
                        |p: (Seq<char>, TestResultView)|
                            TestView { artifact_id: kv, signature: p.0, result: p.1 },
                    ),
                    keyed.len() == suite_tests.len(),
                    0 <= j <= suite_tests.len(),
                    spec_all_tests_keyed(rs) == out@.map_values(|t: Test| t@) + keyed.skip(
                        j as int,
                    ) + spec_all_tests_keyed(rs.skip(i + 1)),
                decreases suite_tests.len() - j,
            {
                let sig: &String = suite.signature_at(j);
                let result: &TestResult = suite.result_at(j);
                out.push(
                    Test {
                        artifact_id: key.clone(),
                        signature: sig.clone(),
                        result: clone_test_result(result),
                    },
                );
                proof {
                    assert(out@.map_values(|t: Test| t@) =~= out@.drop_last().map_values(
                        |t: Test| t@,
                    ) + seq![out@.last()@]);
                    assert(keyed.skip(j as int)[0] == keyed[j as int]);
                    assert(keyed[j as int] == (TestView {
                        artifact_id: kv,
                        signature: suite_tests[j as int].0,
                        result: suite_tests[j as int].1,
                    }));
                    assert(keyed.skip(j as int).skip(1) =~= keyed.skip(j + 1));
                    assert(out@.drop_last().map_values(|t: Test| t@) + seq![out@.last()@]
                        + keyed.skip(j + 1) =~= out@.drop_last().map_values(|t: Test| t@) + (
                    seq![keyed[j as int]] + keyed.skip(j + 1)));
                    assert(seq![keyed[j as int]] + keyed.skip(j + 1) =~= keyed.skip(j as int));
                }
                j = j + 1;
            }
            proof {
                assert(keyed.skip(keyed.len() as int) =~= Seq::<TestView>::empty());
                assert(out@.map_values(|t: Test| t@) + Seq::<TestView>::empty() =~= out@.map_values(
                    |t: Test| t@,
                ));
            }
            i = i + 1;
        }
        proof {
            assert(rs.skip(rs.len() as int) =~= Seq::<(Seq<char>, SuiteResultView)>::empty());
            assert(out@.map_values(|t: Test| t@) + Seq::<TestView>::empty() =~= out@.map_values(
                |t: Test| t@,
            ));
        }
        out
    }

    /// The total wall time of the run, in milliseconds.
    pub fn duration(&self) -> (r: u128)
        ensures
            r == spec_total_duration(self.results@),
    {
        let ghost rs = self.results@;
        let mut sum: u128 = 0;
        let mut i: usize = 0;
        proof {
            assert(rs.skip(0) =~= rs);
        }
        while i < self.results.len()
            invariant
                rs == self.results@,
                0 <= i <= rs.len(),
                sum + spec_total_duration(rs.skip(i as int)) == spec_total_duration(rs),
                sum <= i * 0xffffffffffffffff,
            decreases rs.len() - i,
        {
            proof {
                assert(rs.skip(i as int)[0] == rs[i as int]);
                assert(rs.skip(i as int).skip(1) =~= rs.skip(i + 1));
                assert(sum + rs[i as int].1.duration_ms <= (i + 1) * 0xffffffffffffffff)
                    by (nonlinear_arith)
                    requires
                        sum <= i * 0xffffffffffffffff,
                        rs[i as int].1.duration_ms <= 0xffffffffffffffff,
                ;
                assert((i + 1) * 0xffffffffffffffff < 0x100000000000000000000000000000000)
                    by (nonlinear_arith)
                    requires
                        i + 1 <= 0xffffffffffffffff,
                ;
            }
            let suite: &SuiteResult = self.results.value_at(i);
            sum = sum + suite.duration_ms as u128;
            i = i + 1;
        }
        proof {
            assert(rs.skip(rs.len() as int) =~= Seq::<(Seq<char>, SuiteResultView)>::empty());
        }
        sum
    }

    /// The one-line human summary of the run.
    pub fn summary(&self) -> (r: String)
        ensures
            r@ == spec_summary(
                spec_tests_with(spec_all_tests(self.results@), false).len() == 0,
                spec_tests_with(spec_all_tests(self.results@), true).len(),
                spec_tests_with(spec_all_tests(self.results@), false).len(),
                spec_total_duration(self.results@),
            ),
    {
        let passed = self.successes();
        let failed = self.failures();
        let dur: u128 = self.duration();
        let ok: bool = failed.len() == 0;
        let mut r: String = "Test result: ".to_owned();
        if ok {
            r.append("ok");
        } else {
            r.append("FAILED");
        }
        r.append(". ");
        let passed_dec = u64_to_dec(passed.len() as u64);
        r.append(passed_dec.as_str());
        r.append(" passed; ");
        let failed_dec = u64_to_dec(failed.len() as u64);
        r.append(failed_dec.as_str());
        r.append(" failed; finished in ");
        let dur_dec = crate::strutil::u128_to_dec(dur);
        r.append(dur_dec.as_str());
        r.append("ms");
        proof {
            assert(passed@.len() == passed@.map_values(
                |p: (String, TestResult)| (p.0@, p.1@),
            ).len());
            assert(failed@.len() == failed@.map_values(
                |p: (String, TestResult)| (p.0@, p.1@),
            ).len());
            assert(r@ =~= spec_summary(
                spec_tests_with(spec_all_tests(self.results@), false).len() == 0,
                spec_tests_with(spec_all_tests(self.results@), true).len(),
                spec_tests_with(spec_all_tests(self.results@), false).len(),
                spec_total_duration(self.results@),
            ));
        }
        r
    }

    /// The exit-code policy: when failures are not allowed and at least one
    /// test failed, hand back the summary so the caller can report and exit
    /// non-zero; otherwise succeed.
    pub fn ensure_ok(&self) -> (r: Result<(), String>)
        ensures
            r is Ok <==> (self.allow_failure || spec_tests_with(
                spec_all_tests(self.results@),
                false,
            ).len() == 0),
            r matches Err(s) ==> s@ == spec_summary(
                false,
                spec_tests_with(spec_all_tests(self.results@), true).len(),
                spec_tests_with(spec_all_tests(self.results@), false).len(),
                spec_total_duration(self.results@),
            ),
    {
        if self.allow_failure {
            return Ok(());
        }
        let failed = self.failures();
        proof {
            assert(failed@.len() == failed@.map_values(
                |p: (String, TestResult)| (p.0@, p.1@),
            ).len());
        }
        if failed.len() == 0 {
            Ok(())
        } else {
            Err(self.summary())
        }
    }
}

/// The summary line: `Test result: <ok|FAILED>. <n> passed; <m> failed;
/// finished in <t>ms`.
pub open spec fn spec_summary(ok: bool, passed: nat, failed: nat, ms: nat) -> Seq<char> {
    "Test result: "@ + (if ok {
        "ok"@
    } else {
        "FAILED"@
    }) + ". "@ + spec_dec(passed) + " passed; "@ + spec_dec(failed) + " failed; finished in "@
        + spec_dec(ms) + "ms"@
}

} // verus!
