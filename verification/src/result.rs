use vstd::prelude::*;

verus! {

/// Which phase of a suite a trace was recorded in.
#[derive(PartialEq, Eq, Structural, Clone, Copy, Debug)]
pub enum TraceKind {
    Deployment,
    Setup,
    Execution,
}

/// A raw execution trace record; decoding is a downstream concern.
pub struct Trace {
    pub description: String,
    pub success: bool,
    pub gas: u64,
}

#[verifier::ext_equal]
pub ghost struct TraceView {
    pub description: Seq<char>,
    pub success: bool,
    pub gas: u64,
}

impl View for Trace {
    type V = TraceView;

    open spec fn view(&self) -> TraceView {
        TraceView { description: self.description@, success: self.success, gas: self.gas }
    }
}

/// One concrete input tuple tried by the fuzzer, with the gas it used.
pub struct FuzzCase {
    pub calldata: Vec<u8>,
    pub gas: u64,
}

#[verifier::ext_equal]
pub ghost struct FuzzCaseView {
    pub calldata: Seq<u8>,
    pub gas: u64,
}

impl View for FuzzCase {
    type V = FuzzCaseView;

    open spec fn view(&self) -> FuzzCaseView {
        FuzzCaseView { calldata: self.calldata@, gas: self.gas }
    }
}

/// How a test was executed: a single standard call, or a fuzz campaign with
/// its accepted cases and gas statistics.
pub enum TestKind {
    Standard { gas: u64 },
    Fuzz { cases: Vec<FuzzCase>, median_gas: u64, mean_gas: u64 },
}

#[verifier::ext_equal]
pub ghost enum TestKindView {
    Standard { gas: u64 },
    Fuzz { cases: Seq<FuzzCaseView>, median_gas: u64, mean_gas: u64 },
}

impl View for TestKind {
    type V = TestKindView;

    open spec fn view(&self) -> TestKindView {
        match self {
            TestKind::Standard { gas } => TestKindView::Standard { gas: *gas },
            TestKind::Fuzz { cases, median_gas, mean_gas } => TestKindView::Fuzz {
                cases: cases@.map_values(|c: FuzzCase| c@),
                median_gas: *median_gas,
                mean_gas: *mean_gas,
            },
        }
    }
}

impl TestKind {
    /// The headline gas figure: the call's gas for a standard test, the
    /// median for a fuzz test.
    pub open spec fn spec_gas(&self) -> u64 {
        match self@ {
            TestKindView::Standard { gas } => gas,
            TestKindView::Fuzz { cases, median_gas, mean_gas } => median_gas,
        }
    }

    pub fn gas(&self) -> (r: u64)
        ensures
            r == self.spec_gas(),
    {
        match self {
            TestKind::Standard { gas } => *gas,
            TestKind::Fuzz { cases, median_gas, mean_gas } => *median_gas,
        }
    }
}

/// The minimal failing input of a fuzz test.
pub struct CounterExample {
    pub calldata: Vec<u8>,
    /// The decoded argument words, in declaration order.
    pub args: Vec<u64>,
}

#[verifier::ext_equal]
pub ghost struct CounterExampleView {
    pub calldata: Seq<u8>,
    pub args: Seq<u64>,
}

impl View for CounterExample {
    type V = CounterExampleView;

    open spec fn view(&self) -> CounterExampleView {
        CounterExampleView { calldata: self.calldata@, args: self.args@ }
    }
}

/// The outcome of one test function.
pub struct TestResult {
    pub success: bool,
    pub reason: Option<String>,
    pub counterexample: Option<CounterExample>,
    pub logs: Vec<String>,
    pub traces: Vec<(TraceKind, Trace)>,
    pub labeled_addresses: Vec<(Vec<u8>, String)>,
    pub kind: TestKind,
}

#[verifier::ext_equal]
pub ghost struct TestResultView {
    pub success: bool,
    pub reason: Option<Seq<char>>,
    pub counterexample: Option<CounterExampleView>,
    pub logs: Seq<Seq<char>>,
    pub traces: Seq<(TraceKind, TraceView)>,
    pub labeled_addresses: Seq<(Seq<u8>, Seq<char>)>,
    pub kind: TestKindView,
}

impl View for TestResult {
    type V = TestResultView;

    open spec fn view(&self) -> TestResultView {
        TestResultView {
            success: self.success,
            reason: match self.reason {
                Some(s) => Some(s@),
                None => None,
            },
            counterexample: match self.counterexample {
                Some(c) => Some(c@),
                None => None,
            },
            logs: self.logs@.map_values(|s: String| s@),
            traces: self.traces@.map_values(|t: (TraceKind, Trace)| (t.0, t.1@)),
            labeled_addresses: self.labeled_addresses@.map_values(
                |p: (Vec<u8>, String)| (p.0@, p.1@),
            ),
            kind: self.kind@,
        }
    }
}

/// The results of one suite: its wall-clock duration and the outcome of each
/// test, keyed by full signature, in execution order.
pub struct SuiteResult {
    pub duration_ms: u64,
    pub test_results: Vec<(String, TestResult)>,
}

#[verifier::ext_equal]
pub ghost struct SuiteResultView {
    pub duration_ms: u64,
    pub test_results: Seq<(Seq<char>, TestResultView)>,
}

impl View for SuiteResult {
    type V = SuiteResultView;

    open spec fn view(&self) -> SuiteResultView {
        SuiteResultView {
            duration_ms: self.duration_ms,
            test_results: self.test_results@.map_values(
                |p: (String, TestResult)| (p.0@, p.1@),
            ),
        }
    }
}

/// The test result recorded under `sig`, if any.
pub open spec fn spec_results_get(s: Seq<(Seq<char>, TestResultView)>, sig: Seq<char>) -> Option<
    TestResultView,
>
    decreases s.len(),
{
    if s.len() == 0 {
        None
    } else if s[0].0 == sig {
        Some(s[0].1)
    } else {
        spec_results_get(s.skip(1), sig)
    }
}

impl SuiteResult {
    pub fn new(duration_ms: u64, test_results: Vec<(String, TestResult)>) -> (r: SuiteResult)
        ensures
            r@.duration_ms == duration_ms,
            r@.test_results == test_results@.map_values(
                |p: (String, TestResult)| (p.0@, p.1@),
            ),
    {
        SuiteResult { duration_ms, test_results }
    }

    /// How many test results the suite holds.
    pub fn len(&self) -> (n: usize)
        ensures
            n == self@.test_results.len(),
    {
        self.test_results.len()
    }

    pub fn is_empty(&self) -> (r: bool)
        ensures
            r == (self@.test_results.len() == 0),
    {
        self.test_results.len() == 0
    }

    /// The signature of the test at position `i`, in execution order.
    pub fn signature_at(&self, i: usize) -> (r: &String)
        requires
            i < self@.test_results.len(),
        ensures
            r@ == self@.test_results[i as int].0,
    {
        &self.test_results[i].0
    }

    /// The result of the test at position `i`, in execution order.
    pub fn result_at(&self, i: usize) -> (r: &TestResult)
        requires
            i < self@.test_results.len(),
        ensures
            r@ == self@.test_results[i as int].1,
    {
        &self.test_results[i].1
    }

    /// Looks up a test result by its full signature.
    pub fn get(&self, sig: &str) -> (r: Option<&TestResult>)
        ensures
            match r {
                Some(t) => spec_results_get(self@.test_results, sig@) == Some(t@),
                None => spec_results_get(self@.test_results, sig@) is None,
            },
    {
        let mut i: usize = 0;
        proof {
            assert(self@.test_results.skip(0) =~= self@.test_results);
        }
        loop
            invariant
                0 <= i <= self.test_results@.len(),
                self@.test_results.len() == self.test_results@.len(),
                spec_results_get(self@.test_results, sig@) == spec_results_get(
                    self@.test_results.skip(i as int),
                    sig@,
                ),
            decreases self.test_results@.len() - i,
        {
            if i == self.test_results.len() {
                proof {
                    assert(self@.test_results.skip(i as int) =~= Seq::<
                        (Seq<char>, TestResultView),
                    >::empty());
                }
                return None;
            }
            let c = crate::strutil::str_cmp(self.test_results[i].0.as_str(), sig);
            proof {
                assert(self@.test_results.skip(i as int)[0] == self@.test_results[i as int]);
                assert(self@.test_results[i as int].0 == self.test_results@[i as int].0@);
            }
            if c == crate::strutil::StrOrd::Eq {
                return Some(&self.test_results[i].1);
            }
            proof {
                if self@.test_results[i as int].0 == sig@ {
                    crate::strutil::lemma_str_lt_irrefl(sig@);
                }
                assert(self@.test_results.skip(i as int).skip(1) =~= self@.test_results.skip(
                    i + 1 as int,
                ));
            }
            i = i + 1;
        }
    }
}


/// Which traces are shown at a given verbosity: setup traces at level five,
/// or at four for failed tests; execution traces above three, or at three
/// for failed tests; deployment traces are a gas-report concern only.
pub open spec fn spec_should_display_trace(kind: TraceKind, verbosity: u8, success: bool) -> bool {
    match kind {
        TraceKind::Setup => verbosity >= 5 || (verbosity == 4 && !success),
        TraceKind::Execution => verbosity > 3 || (verbosity == 3 && !success),
        TraceKind::Deployment => false,
    }
}

/// Decides whether a trace is displayed at the given verbosity.
pub fn should_display_trace(kind: TraceKind, verbosity: u8, success: bool) -> (r: bool)
    ensures
        r == spec_should_display_trace(kind, verbosity, success),
{
    match kind {
        TraceKind::Setup => verbosity >= 5 || (verbosity == 4 && !success),
        TraceKind::Execution => verbosity > 3 || (verbosity == 3 && !success),
        TraceKind::Deployment => false,
    }
}

} // verus!
