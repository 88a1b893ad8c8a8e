use forge_core::artifact::{Abi, AbiFunction, ArtifactId, CompiledContract, LibraryRef};
use forge_core::evm::{Backend, CallBehavior, ContractBehavior, FunctionBehavior};
use forge_core::filter::RegexFilter;
use forge_core::fuzz::FuzzConfig;
use forge_core::multi::{EvmOpts, MultiContractRunner, MultiContractRunnerBuilder};
use forge_core::omap::StrMap;
use forge_core::result::{SuiteResult, TraceKind};

fn abi(fns: Vec<(&str, Vec<&str>)>) -> Abi {
    Abi {
        constructor: None,
        functions: fns
            .into_iter()
            .map(|(name, ins)| AbiFunction {
                name: name.to_owned(),
                inputs: ins.into_iter().map(|s| s.to_owned()).collect(),
            })
            .collect(),
    }
}

fn tagged_code(tag: u8) -> Vec<u8> {
    vec![tag, tag, tag, tag, tag, tag, tag, tag]
}

fn artifact(source: &str, name: &str, tag: u8, a: Abi) -> (ArtifactId, CompiledContract) {
    (
        ArtifactId::new(source, name, "0.8.10"),
        CompiledContract {
            abi: a,
            creation_bytecode: Some(tagged_code(tag)),
            deployed_bytecode: Some(vec![tag, 0xfe]),
            library_refs: Vec::new(),
        },
    )
}

fn pass() -> CallBehavior {
    CallBehavior::Fixed {
        reverted: false,
        reason: None,
        gas: 21000,
        logs: Vec::new(),
        sets_failed_flag: false,
    }
}

fn revert(reason: &str) -> CallBehavior {
    CallBehavior::Fixed {
        reverted: true,
        reason: Some(reason.to_owned()),
        gas: 21000,
        logs: Vec::new(),
        sets_failed_flag: false,
    }
}

fn behavior(tag: u8, fns: Vec<(&str, CallBehavior)>) -> ContractBehavior {
    ContractBehavior {
        code: tagged_code(tag),
        deploy_reverts: None,
        deploy_gas: 100_000,
        functions: fns
            .into_iter()
            .map(|(sig, b)| FunctionBehavior { signature: sig.to_owned(), behavior: b })
            .collect(),
    }
}

fn opts(verbosity: u8) -> EvmOpts {
    EvmOpts {
        sender: vec![0u8; 20],
        initial_balance: 1_000_000_000_000_000_000u128,
        gas_limit: 30_000_000,
        verbosity,
        ffi: false,
    }
}

/// A runner plus backend for a model project mirroring a set of core suites.
fn core_project() -> (MultiContractRunner, Backend) {
    let mut artifacts: Vec<(ArtifactId, CompiledContract)> = Vec::new();
    artifacts.push(artifact(
        "core/FailingSetup.t.sol",
        "FailingSetupTest",
        1,
        abi(vec![("setUp", vec![]), ("testShouldBeMarkedAsFailedBecauseOfSetup", vec![])]),
    ));
    artifacts.push(artifact(
        "core/Reverting.t.sol",
        "RevertingTest",
        2,
        abi(vec![("testFailRevert", vec![])]),
    ));
    artifacts.push(artifact(
        "core/SetupConsistency.t.sol",
        "SetupConsistencyCheck",
        3,
        abi(vec![("setUp", vec![]), ("testAdd", vec![]), ("testMultiply", vec![])]),
    ));
    artifacts.push(artifact(
        "core/DSStyle.t.sol",
        "DSStyleTest",
        4,
        abi(vec![("testFailingAssertions", vec![])]),
    ));
    artifacts.push(artifact(
        "core/DappToolsParity.t.sol",
        "DappToolsParityTest",
        5,
        abi(vec![("testAddresses", vec![]), ("testEnvironment", vec![])]),
    ));
    artifacts.push(artifact(
        "core/PaymentFailure.t.sol",
        "PaymentFailureTest",
        6,
        abi(vec![("testCantPay", vec![])]),
    ));
    // the library-linking suite depends on a library that itself depends on
    // another library
    let mut linking = artifact(
        "core/LibraryLinking.t.sol",
        "LibraryLinkingTest",
        7,
        abi(vec![("testDirect", vec![]), ("testNested", vec![])]),
    );
    linking.1.creation_bytecode = Some({
        let mut code = tagged_code(7);
        code.extend_from_slice(&[0u8; 20]);
        code
    });
    linking.1.library_refs = vec![LibraryRef {
        file: "core/LibraryLinking.t.sol".to_owned(),
        name: "OuterLib".to_owned(),
        offsets: vec![8],
    }];
    artifacts.push(linking);
    let mut outer = artifact(
        "core/LibraryLinking.t.sol",
        "OuterLib",
        8,
        abi(vec![("outer", vec![])]),
    );
    outer.1.creation_bytecode = Some({
        let mut code = tagged_code(8);
        code.extend_from_slice(&[0u8; 20]);
        code
    });
    outer.1.library_refs = vec![LibraryRef {
        file: "core/LibraryLinking.t.sol".to_owned(),
        name: "InnerLib".to_owned(),
        offsets: vec![8],
    }];
    artifacts.push(outer);
    artifacts.push(artifact(
        "core/LibraryLinking.t.sol",
        "InnerLib",
        9,
        abi(vec![("inner", vec![])]),
    ));
    // a concrete contract and its abstract base without deployable bytecode
    artifacts.push(artifact(
        "core/Abstract.t.sol",
        "AbstractTest",
        10,
        abi(vec![("testSomething", vec![])]),
    ));
    let mut base = artifact(
        "core/Abstract.t.sol",
        "AbstractTestBase",
        11,
        abi(vec![("testSomething", vec![])]),
    );
    base.1.creation_bytecode = None;
    base.1.deployed_bytecode = None;
    artifacts.push(base);

    let backend = Backend {
        contracts: vec![
            behavior(1, vec![("setUp()", revert("setup failed predictably"))]),
            behavior(2, vec![("testFailRevert()", revert("nope"))]),
            behavior(
                3,
                vec![("setUp()", pass()), ("testAdd()", pass()), ("testMultiply()", pass())],
            ),
            behavior(4, vec![("testFailingAssertions()", revert("assertion error"))]),
            behavior(5, vec![("testAddresses()", pass()), ("testEnvironment()", pass())]),
            behavior(6, vec![("testCantPay()", revert("Revert"))]),
            behavior(7, vec![("testDirect()", pass()), ("testNested()", pass())]),
            behavior(8, Vec::new()),
            behavior(9, Vec::new()),
            behavior(10, vec![("testSomething()", pass())]),
        ],
    };
    let runner = MultiContractRunnerBuilder::new()
        .sender(vec![0u8; 20])
        .fuzzer(FuzzConfig::new(16, 1024, 65536))
        .build(&artifacts, opts(0))
        .unwrap();
    (runner, backend)
}

fn filter(test: &str, contract: &str, path: &str) -> RegexFilter {
    RegexFilter::new(test, contract, path).unwrap()
}

fn assert_result(
    results: &StrMap<SuiteResult>,
    suite: &str,
    test: &str,
    should_pass: bool,
    reason: Option<&str>,
) {
    let suite_result = results.get(suite).unwrap_or_else(|| panic!("missing suite {}", suite));
    let r = suite_result
        .get(test)
        .unwrap_or_else(|| panic!("missing test {} in {}", test, suite));
    assert_eq!(r.success, should_pass, "verdict of {}", test);
    if !should_pass {
        let want = reason.map(|s| s.to_owned());
        assert_eq!(r.reason, want, "reason of {}", test);
    }
}

#[test]
fn test_core() {
    let (runner, backend) = core_project();
    let results = runner.test(&backend, &filter(".*", ".*", ".*core"), true);

    assert_eq!(results.len(), 8, "did not run the expected number of suites");
    assert_result(
        &results,
        "core/FailingSetup.t.sol:FailingSetupTest",
        "setUp()",
        false,
        Some("Setup failed: setup failed predictably"),
    );
    assert_eq!(
        results.get("core/FailingSetup.t.sol:FailingSetupTest").unwrap().len(),
        1,
        "a failing setUp yields exactly one synthetic result"
    );
    assert_result(&results, "core/Reverting.t.sol:RevertingTest", "testFailRevert()", true, None);
    assert_result(
        &results,
        "core/SetupConsistency.t.sol:SetupConsistencyCheck",
        "testAdd()",
        true,
        None,
    );
    assert_result(
        &results,
        "core/SetupConsistency.t.sol:SetupConsistencyCheck",
        "testMultiply()",
        true,
        None,
    );
    assert_result(&results, "core/DSStyle.t.sol:DSStyleTest", "testFailingAssertions()", true, None);
    assert_result(
        &results,
        "core/DappToolsParity.t.sol:DappToolsParityTest",
        "testAddresses()",
        true,
        None,
    );
    assert_result(
        &results,
        "core/DappToolsParity.t.sol:DappToolsParityTest",
        "testEnvironment()",
        true,
        None,
    );
    assert_result(
        &results,
        "core/PaymentFailure.t.sol:PaymentFailureTest",
        "testCantPay()",
        false,
        Some("Revert"),
    );
    assert_result(
        &results,
        "core/LibraryLinking.t.sol:LibraryLinkingTest",
        "testDirect()",
        true,
        None,
    );
    assert_result(
        &results,
        "core/LibraryLinking.t.sol:LibraryLinkingTest",
        "testNested()",
        true,
        None,
    );
    assert_result(&results, "core/Abstract.t.sol:AbstractTest", "testSomething()", true, None);
}

fn logs_project() -> (MultiContractRunner, Backend) {
    let mut artifacts: Vec<(ArtifactId, CompiledContract)> = Vec::new();
    artifacts.push(artifact(
        "logs/DebugLogs.t.sol",
        "DebugLogsTest",
        21,
        abi(vec![
            ("setUp", vec![]),
            ("test1", vec![]),
            ("test2", vec![]),
            ("testFailWithRequire", vec![]),
            ("testFailWithRevert", vec![]),
        ]),
    ));
    artifacts.push(artifact(
        "logs/HardhatLogs.t.sol",
        "HardhatLogsTest",
        22,
        abi(vec![("testInts", vec![]), ("testMisc", vec![]), ("testStrings", vec![])]),
    ));
    let with_logs = |reverted: bool, logs: Vec<&str>| CallBehavior::Fixed {
        reverted,
        reason: None,
        gas: 21000,
        logs: logs.into_iter().map(|s| s.to_owned()).collect(),
        sets_failed_flag: false,
    };
    let backend = Backend {
        contracts: vec![
            behavior(
                21,
                vec![
                    ("setUp()", pass()),
                    ("test1()", with_logs(false, vec!["0", "1", "2"])),
                    ("test2()", with_logs(false, vec!["0", "1", "3"])),
                    ("testFailWithRequire()", with_logs(true, vec!["0", "1", "5"])),
                    ("testFailWithRevert()", with_logs(true, vec!["0", "1", "4", "100"])),
                ],
            ),
            behavior(
                22,
                vec![
                    (
                        "testInts()",
                        with_logs(false, vec!["constructor", "0", "1", "2", "3"]),
                    ),
                    (
                        "testMisc()",
                        with_logs(
                            false,
                            vec![
                                "constructor",
                                "testMisc, 0x0000000000000000000000000000000000000001",
                                "testMisc, 42",
                            ],
                        ),
                    ),
                    ("testStrings()", with_logs(false, vec!["constructor", "testStrings"])),
                ],
            ),
        ],
    };
    let runner = MultiContractRunnerBuilder::new()
        .sender(vec![0u8; 20])
        .fuzzer(FuzzConfig::new(16, 1024, 65536))
        .build(&artifacts, opts(0))
        .unwrap();
    (runner, backend)
}

fn assert_logs(results: &StrMap<SuiteResult>, suite: &str, test: &str, expected: Vec<&str>) {
    let r = results.get(suite).unwrap().get(test).unwrap();
    let got: Vec<String> = r.logs.iter().cloned().collect();
    let want: Vec<String> = expected.into_iter().map(|s| s.to_owned()).collect();
    assert_eq!(got, want, "logs of {}", test);
}

#[test]
fn test_logs() {
    let (runner, backend) = logs_project();
    let results = runner.test(&backend, &filter(".*", ".*", ".*logs"), true);

    assert_logs(&results, "logs/DebugLogs.t.sol:DebugLogsTest", "test1()", vec!["0", "1", "2"]);
    assert_logs(&results, "logs/DebugLogs.t.sol:DebugLogsTest", "test2()", vec!["0", "1", "3"]);
    assert_logs(
        &results,
        "logs/DebugLogs.t.sol:DebugLogsTest",
        "testFailWithRequire()",
        vec!["0", "1", "5"],
    );
    assert_logs(
        &results,
        "logs/DebugLogs.t.sol:DebugLogsTest",
        "testFailWithRevert()",
        vec!["0", "1", "4", "100"],
    );
    for test in ["test1()", "test2()", "testFailWithRequire()", "testFailWithRevert()"] {
        let r = results.get("logs/DebugLogs.t.sol:DebugLogsTest").unwrap().get(test).unwrap();
        assert!(r.success, "test {} did not pass as expected", test);
    }
    assert_logs(
        &results,
        "logs/HardhatLogs.t.sol:HardhatLogsTest",
        "testInts()",
        vec!["constructor", "0", "1", "2", "3"],
    );
    assert_logs(
        &results,
        "logs/HardhatLogs.t.sol:HardhatLogsTest",
        "testMisc()",
        vec![
            "constructor",
            "testMisc, 0x0000000000000000000000000000000000000001",
            "testMisc, 42",
        ],
    );
    assert_logs(
        &results,
        "logs/HardhatLogs.t.sol:HardhatLogsTest",
        "testStrings()",
        vec!["constructor", "testStrings"],
    );
}

#[test]
fn test_cheats() {
    let mut artifacts: Vec<(ArtifactId, CompiledContract)> = Vec::new();
    artifacts.push(artifact(
        "cheats/Cheats.t.sol",
        "CheatsTest",
        31,
        abi(vec![("setUp", vec![]), ("testWarp", vec![]), ("testRoll", vec![])]),
    ));
    let backend = Backend {
        contracts: vec![behavior(
            31,
            vec![("setUp()", pass()), ("testWarp()", pass()), ("testRoll()", pass())],
        )],
    };
    let runner = MultiContractRunnerBuilder::new()
        .sender(vec![0u8; 20])
        .fuzzer(FuzzConfig::new(16, 1024, 65536))
        .build(&artifacts, opts(0))
        .unwrap();
    let results = runner.test(&backend, &filter(".*", ".*", ".*cheats"), true);
    let mut seen = 0;
    for i in 0..results.len() {
        let suite = results.value_at(i);
        for j in 0..suite.len() {
            assert!(
                suite.result_at(j).success,
                "test {} did not pass as expected",
                suite.signature_at(j)
            );
            seen += 1;
        }
    }
    assert_eq!(seen, 2);
}

#[test]
fn test_fuzz() {
    let mut artifacts: Vec<(ArtifactId, CompiledContract)> = Vec::new();
    artifacts.push(artifact(
        "fuzz/Fuzz.t.sol",
        "FuzzTest",
        41,
        abi(vec![
            ("testPositive", vec!["uint256"]),
            ("testSuccessfulFuzz", vec!["uint128", "uint128"]),
            ("testNegative", vec!["uint256"]),
            ("testFailNever", vec!["uint256"]),
        ]),
    ));
    let backend = Backend {
        contracts: vec![behavior(
            41,
            vec![
                ("testPositive(uint256)", pass()),
                ("testSuccessfulFuzz(uint128,uint128)", pass()),
                (
                    "testNegative(uint256)",
                    CallBehavior::RevertIfArgAbove {
                        arg_index: 0,
                        threshold: 0,
                        revert_reason: "arg out of range".to_owned(),
                        gas: 21000,
                    },
                ),
                // a testFail test whose call never reverts always fails
                ("testFailNever(uint256)", pass()),
            ],
        )],
    };
    let runner = MultiContractRunnerBuilder::new()
        .sender(vec![0u8; 20])
        .fuzzer(FuzzConfig::new(16, 1024, 65536))
        .build(&artifacts, opts(0))
        .unwrap();
    let results = runner.test(&backend, &filter(".*", ".*", ".*fuzz"), true);
    let suite = results.get("fuzz/Fuzz.t.sol:FuzzTest").unwrap();
    for j in 0..suite.len() {
        let name = suite.signature_at(j).clone();
        let result = suite.result_at(j);
        match name.as_str() {
            "testPositive(uint256)" | "testSuccessfulFuzz(uint128,uint128)" => assert!(
                result.success,
                "test {} did not pass as expected; reason: {:?}",
                name, result.reason
            ),
            _ => assert!(
                !result.success,
                "test {} did not fail as expected; reason: {:?}",
                name, result.reason
            ),
        }
    }
}

#[test]
fn test_trace() {
    let mut artifacts: Vec<(ArtifactId, CompiledContract)> = Vec::new();
    artifacts.push(artifact(
        "trace/Trace.t.sol",
        "TraceTest",
        51,
        abi(vec![("setUp", vec![]), ("testTraced", vec![])]),
    ));
    let backend = Backend {
        contracts: vec![behavior(51, vec![("setUp()", pass()), ("testTraced()", pass())])],
    };
    // verbosity 5 enables tracing
    let runner = MultiContractRunnerBuilder::new()
        .sender(vec![0u8; 20])
        .fuzzer(FuzzConfig::new(16, 1024, 65536))
        .build(&artifacts, opts(5))
        .unwrap();
    let results = runner.test(&backend, &filter(".*", ".*", ".*trace"), true);
    for i in 0..results.len() {
        let suite = results.value_at(i);
        for j in 0..suite.len() {
            let result = suite.result_at(j);
            let deployment_traces =
                result.traces.iter().filter(|(kind, _)| *kind == TraceKind::Deployment).count();
            let setup_traces =
                result.traces.iter().filter(|(kind, _)| *kind == TraceKind::Setup).count();
            let execution_traces =
                result.traces.iter().filter(|(kind, _)| *kind == TraceKind::Execution).count();
            assert_eq!(
                deployment_traces,
                1,
                "test {} did not have exactly 1 deployment trace",
                suite.signature_at(j)
            );
            assert!(setup_traces <= 1, "test {} had more than 1 setup trace", suite.signature_at(j));
            assert_eq!(
                execution_traces,
                1,
                "test {} did not have exactly 1 execution trace",
                suite.signature_at(j)
            );
        }
    }
}

#[test]
fn test_doesnt_run_abstract_contract() {
    let (runner, backend) = core_project();
    let results = runner.test(&backend, &filter(".*", ".*", ".*core/Abstract.t.sol"), true);
    assert!(results.get("core/Abstract.t.sol:AbstractTestBase").is_none());
    assert!(results.get("core/Abstract.t.sol:AbstractTest").is_some());
}
