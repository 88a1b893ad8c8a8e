use forge_core::artifact::{Abi, AbiFunction, ArtifactId, CompiledContract, LibraryRef};
use forge_core::evm::{Backend, CallBehavior, ContractBehavior, FunctionBehavior};
use forge_core::filter::{Filter, RegexFilter, TestFilter};
use forge_core::fuzz::FuzzConfig;
use forge_core::multi::{EvmOpts, MultiContractRunnerBuilder};
use forge_core::result::TestKind;
use forge_core::codec::decode_arg;
use forge_core::rlp::create_address;

fn abi(fns: Vec<(&str, Vec<&str>)>) -> Abi {
    Abi {
        constructor: None,
        functions: fns
            .into_iter()
            .map(|(name, ins)| AbiFunction {
                name: name.to_owned(),
                inputs: ins.into_iter().map(|s| s.to_owned()).collect(),
            })
            .collect(),
    }
}

fn tagged_code(tag: u8) -> Vec<u8> {
    vec![tag, tag, tag, tag, tag, tag, tag, tag]
}

fn artifact(source: &str, name: &str, tag: u8, a: Abi) -> (ArtifactId, CompiledContract) {
    (
        ArtifactId::new(source, name, "0.8.10"),
        CompiledContract {
            abi: a,
            creation_bytecode: Some(tagged_code(tag)),
            deployed_bytecode: Some(vec![tag, 0xfe]),
            library_refs: Vec::new(),
        },
    )
}

fn pass() -> CallBehavior {
    CallBehavior::Fixed {
        reverted: false,
        reason: None,
        gas: 21000,
        logs: Vec::new(),
        sets_failed_flag: false,
    }
}

fn revert(reason: &str) -> CallBehavior {
    CallBehavior::Fixed {
        reverted: true,
        reason: Some(reason.to_owned()),
        gas: 21000,
        logs: Vec::new(),
        sets_failed_flag: false,
    }
}

fn behavior(tag: u8, fns: Vec<(&str, CallBehavior)>) -> ContractBehavior {
    ContractBehavior {
        code: tagged_code(tag),
        deploy_reverts: None,
        deploy_gas: 100_000,
        functions: fns
            .into_iter()
            .map(|(sig, b)| FunctionBehavior { signature: sig.to_owned(), behavior: b })
            .collect(),
    }
}

fn opts() -> EvmOpts {
    EvmOpts {
        sender: vec![0u8; 20],
        initial_balance: 1_000_000u128,
        gas_limit: 30_000_000,
        verbosity: 0,
        ffi: false,
    }
}

fn filter(test: &str, contract: &str, path: &str) -> RegexFilter {
    RegexFilter::new(test, contract, path).unwrap()
}

/// A test expected to revert passes when its call reverts, with no reason
/// and a standard kind.
#[test]
fn reverting_test_passes() {
    let artifacts =
        vec![artifact("core/Reverting.t.sol", "RevertingTest", 2, abi(vec![("testFailRevert", vec![])]))];
    let backend = Backend { contracts: vec![behavior(2, vec![("testFailRevert()", revert("nope"))])] };
    let runner =
        MultiContractRunnerBuilder::new().sender(vec![0u8; 20]).build(&artifacts, opts()).unwrap();
    let results = runner.test(&backend, &filter(".*", ".*", ".*"), true);
    let r = results.get("core/Reverting.t.sol:RevertingTest").unwrap().get("testFailRevert()").unwrap();
    assert!(r.success);
    assert_eq!(r.reason, None);
    assert!(matches!(r.kind, TestKind::Standard { .. }));
}

/// A reverting `setUp` yields one synthetic failing result named `setUp()`
/// and no test function runs.
#[test]
fn failing_setup_yields_synthetic_result() {
    let artifacts = vec![artifact(
        "core/FailingSetup.t.sol",
        "FailingSetupTest",
        1,
        abi(vec![("setUp", vec![]), ("testNothing", vec![])]),
    )];
    let backend = Backend {
        contracts: vec![behavior(
            1,
            vec![("setUp()", revert("setup failed predictably")), ("testNothing()", pass())],
        )],
    };
    let runner =
        MultiContractRunnerBuilder::new().sender(vec![0u8; 20]).build(&artifacts, opts()).unwrap();
    let results = runner.test(&backend, &filter(".*", ".*", ".*"), true);
    let suite = results.get("core/FailingSetup.t.sol:FailingSetupTest").unwrap();
    assert_eq!(suite.len(), 1);
    let r = suite.get("setUp()").unwrap();
    assert!(!r.success);
    assert_eq!(r.reason, Some("Setup failed: setup failed predictably".to_owned()));
}

/// A passing pair of standard tests, with one deployment trace and at most
/// one setup trace each under tracing.
#[test]
fn setup_consistency_pair() {
    let artifacts = vec![artifact(
        "core/SetupConsistency.t.sol",
        "SetupConsistencyCheck",
        3,
        abi(vec![("setUp", vec![]), ("testAdd", vec![]), ("testMultiply", vec![])]),
    )];
    let backend = Backend {
        contracts: vec![behavior(
            3,
            vec![("setUp()", pass()), ("testAdd()", pass()), ("testMultiply()", pass())],
        )],
    };
    let mut o = opts();
    o.verbosity = 5;
    let runner =
        MultiContractRunnerBuilder::new().sender(vec![0u8; 20]).build(&artifacts, o).unwrap();
    let results = runner.test(&backend, &filter(".*", ".*", ".*"), true);
    let suite = results.get("core/SetupConsistency.t.sol:SetupConsistencyCheck").unwrap();
    for name in ["testAdd()", "testMultiply()"] {
        let r = suite.get(name).unwrap();
        assert!(r.success);
        assert!(matches!(r.kind, TestKind::Standard { .. }));
        let deployments = r
            .traces
            .iter()
            .filter(|(k, _)| *k == forge_core::result::TraceKind::Deployment)
            .count();
        let setups =
            r.traces.iter().filter(|(k, _)| *k == forge_core::result::TraceKind::Setup).count();
        assert_eq!(deployments, 1);
        assert!(setups <= 1);
    }
}

/// A fuzz test that passes for every input runs the configured number of
/// cases and reports no counterexample.
#[test]
fn fuzz_success_runs_all_cases() {
    let artifacts = vec![artifact(
        "fuzz/Fuzz.t.sol",
        "FuzzTest",
        41,
        abi(vec![("testPositive", vec!["uint256"])]),
    )];
    let backend =
        Backend { contracts: vec![behavior(41, vec![("testPositive(uint256)", pass())])] };
    let runner = MultiContractRunnerBuilder::new()
        .sender(vec![0u8; 20])
        .fuzzer(FuzzConfig::new(32, 1024, 65536))
        .build(&artifacts, opts())
        .unwrap();
    let results = runner.test(&backend, &filter(".*", ".*", ".*fuzz"), true);
    let r = results.get("fuzz/Fuzz.t.sol:FuzzTest").unwrap().get("testPositive(uint256)").unwrap();
    assert!(r.success);
    assert!(r.counterexample.is_none());
    match &r.kind {
        TestKind::Fuzz { cases, .. } => assert_eq!(cases.len(), 32),
        _ => panic!("expected a fuzz kind"),
    }
}

/// A fuzz test that reverts for inputs above 100 fails with a shrunk
/// counterexample whose decoded argument is minimal.
#[test]
fn fuzz_failure_shrinks_counterexample() {
    let artifacts = vec![artifact(
        "fuzz/Fuzz.t.sol",
        "FuzzTest",
        41,
        abi(vec![("testNegative", vec!["uint256"])]),
    )];
    let backend = Backend {
        contracts: vec![behavior(
            41,
            vec![(
                "testNegative(uint256)",
                CallBehavior::RevertIfArgAbove {
                    arg_index: 0,
                    threshold: 100,
                    revert_reason: "too big".to_owned(),
                    gas: 21000,
                },
            )],
        )],
    };
    let runner = MultiContractRunnerBuilder::new()
        .sender(vec![0u8; 20])
        .fuzzer(FuzzConfig::new(32, 1024, 65536))
        .build(&artifacts, opts())
        .unwrap();
    let results = runner.test(&backend, &filter(".*", ".*", ".*fuzz"), true);
    let r = results.get("fuzz/Fuzz.t.sol:FuzzTest").unwrap().get("testNegative(uint256)").unwrap();
    assert!(!r.success);
    let cex = r.counterexample.as_ref().unwrap();
    assert!(cex.args[0] > 100, "the counterexample must still fail");
    assert!(cex.args[0] <= 101, "shrinking must reach a locally minimal input");
    // the calldata decodes back to the shrunk argument
    assert_eq!(decode_arg(&cex.calldata, 0), cex.args[0]);
    assert_eq!(r.reason, Some("too big".to_owned()));
}

/// Running the same configuration twice yields identical suite keys,
/// signatures and verdicts.
#[test]
fn rerun_is_stable() {
    let artifacts = vec![
        artifact(
            "core/SetupConsistency.t.sol",
            "SetupConsistencyCheck",
            3,
            abi(vec![("setUp", vec![]), ("testAdd", vec![]), ("testMultiply", vec![])]),
        ),
        artifact("fuzz/Fuzz.t.sol", "FuzzTest", 41, abi(vec![("testPositive", vec!["uint256"])])),
    ];
    let backend = Backend {
        contracts: vec![
            behavior(
                3,
                vec![("setUp()", pass()), ("testAdd()", pass()), ("testMultiply()", pass())],
            ),
            behavior(41, vec![("testPositive(uint256)", pass())]),
        ],
    };
    let runner = MultiContractRunnerBuilder::new()
        .sender(vec![0u8; 20])
        .fuzzer(FuzzConfig::new(8, 1024, 65536))
        .build(&artifacts, opts())
        .unwrap();
    let r1 = runner.test(&backend, &filter(".*", ".*", ".*"), true);
    let r2 = runner.test(&backend, &filter(".*", ".*", ".*"), true);
    assert_eq!(r1.len(), r2.len());
    for i in 0..r1.len() {
        assert_eq!(r1.key_at(i), r2.key_at(i));
        let s1 = r1.value_at(i);
        let s2 = r2.value_at(i);
        assert_eq!(s1.len(), s2.len());
        for j in 0..s1.len() {
            assert_eq!(s1.signature_at(j), s2.signature_at(j));
            assert_eq!(s1.result_at(j).success, s2.result_at(j).success);
            assert_eq!(s1.result_at(j).logs, s2.result_at(j).logs);
        }
    }
}

/// Suites appear in the aggregated map in suite-identifier order.
#[test]
fn results_are_ordered_by_identifier() {
    let artifacts = vec![
        artifact("b/B.t.sol", "BTest", 61, abi(vec![("testB", vec![])])),
        artifact("a/A.t.sol", "ATest", 62, abi(vec![("testA", vec![])])),
    ];
    let backend = Backend {
        contracts: vec![
            behavior(61, vec![("testB()", pass())]),
            behavior(62, vec![("testA()", pass())]),
        ],
    };
    let runner =
        MultiContractRunnerBuilder::new().sender(vec![0u8; 20]).build(&artifacts, opts()).unwrap();
    let results = runner.test(&backend, &filter(".*", ".*", ".*"), true);
    assert_eq!(results.len(), 2);
    assert_eq!(results.key_at(0).as_str(), "a/A.t.sol:ATest");
    assert_eq!(results.key_at(1).as_str(), "b/B.t.sol:BTest");
}

/// A fuzz test over a parameter type the fuzzer cannot generate fails by
/// reject overflow.
#[test]
fn unsupported_fuzz_type_rejects() {
    let artifacts = vec![artifact(
        "fuzz/Fuzz.t.sol",
        "FuzzTest",
        41,
        abi(vec![("testStringArg", vec!["string"])]),
    )];
    let backend =
        Backend { contracts: vec![behavior(41, vec![("testStringArg(string)", pass())])] };
    let runner = MultiContractRunnerBuilder::new()
        .sender(vec![0u8; 20])
        .fuzzer(FuzzConfig::new(8, 1024, 65536))
        .build(&artifacts, opts())
        .unwrap();
    let results = runner.test(&backend, &filter(".*", ".*", ".*"), true);
    let r = results.get("fuzz/Fuzz.t.sol:FuzzTest").unwrap().get("testStringArg(string)").unwrap();
    assert!(!r.success);
    assert_eq!(r.reason, Some("Too many global rejects".to_owned()));
    assert!(r.counterexample.is_none());
}

/// Fuzz tests are skipped silently when they are not included.
#[test]
fn fuzz_tests_skipped_when_excluded() {
    let artifacts = vec![artifact(
        "fuzz/Fuzz.t.sol",
        "FuzzTest",
        41,
        abi(vec![("testPositive", vec!["uint256"]), ("testPlain", vec![])]),
    )];
    let backend = Backend {
        contracts: vec![behavior(
            41,
            vec![("testPositive(uint256)", pass()), ("testPlain()", pass())],
        )],
    };
    let runner = MultiContractRunnerBuilder::new()
        .sender(vec![0u8; 20])
        .fuzzer(FuzzConfig::new(8, 1024, 65536))
        .build(&artifacts, opts())
        .unwrap();
    let results = runner.test(&backend, &filter(".*", ".*", ".*"), false);
    let suite = results.get("fuzz/Fuzz.t.sol:FuzzTest").unwrap();
    assert_eq!(suite.len(), 1);
    assert!(suite.get("testPlain()").is_some());
    assert!(suite.get("testPositive(uint256)").is_none());
}

/// A reverting deployment is surfaced as a synthetic `constructor()` failure.
#[test]
fn deploy_failure_yields_constructor_result() {
    let artifacts =
        vec![artifact("core/Deploy.t.sol", "DeployTest", 71, abi(vec![("testNothing", vec![])]))];
    let backend = Backend {
        contracts: vec![ContractBehavior {
            code: tagged_code(71),
            deploy_reverts: Some("constructor blew up".to_owned()),
            deploy_gas: 0,
            functions: vec![],
        }],
    };
    let runner =
        MultiContractRunnerBuilder::new().sender(vec![0u8; 20]).build(&artifacts, opts()).unwrap();
    let results = runner.test(&backend, &filter(".*", ".*", ".*"), true);
    let suite = results.get("core/Deploy.t.sol:DeployTest").unwrap();
    assert_eq!(suite.len(), 1);
    let r = suite.get("constructor()").unwrap();
    assert!(!r.success);
    assert_eq!(r.reason, Some("constructor blew up".to_owned()));
}

/// An artifact whose library cannot be resolved is dropped from the run and
/// reported; the rest of the set still links.
#[test]
fn unresolved_library_drops_suite() {
    let mut broken = artifact(
        "core/Broken.t.sol",
        "BrokenTest",
        81,
        abi(vec![("testSomething", vec![])]),
    );
    broken.1.creation_bytecode = Some({
        let mut code = tagged_code(81);
        code.extend_from_slice(&[0u8; 20]);
        code
    });
    broken.1.library_refs = vec![LibraryRef {
        file: "core/Missing.sol".to_owned(),
        name: "NoSuchLib".to_owned(),
        offsets: vec![8],
    }];
    let artifacts = vec![
        broken,
        artifact("core/Fine.t.sol", "FineTest", 82, abi(vec![("testFine", vec![])])),
    ];
    let backend = Backend { contracts: vec![behavior(82, vec![("testFine()", pass())])] };
    let runner =
        MultiContractRunnerBuilder::new().sender(vec![0u8; 20]).build(&artifacts, opts()).unwrap();
    assert_eq!(runner.link_failures.len(), 1);
    let results = runner.test(&backend, &filter(".*", ".*", ".*"), true);
    assert!(results.get("core/Broken.t.sol:BrokenTest").is_none());
    assert!(results.get("core/Fine.t.sol:FineTest").is_some());
}

/// A library reference pointing outside the bytecode is malformed.
#[test]
fn malformed_bytecode_is_reported() {
    let mut bad = artifact("core/Bad.t.sol", "BadTest", 83, abi(vec![("testBad", vec![])]));
    bad.1.library_refs = vec![LibraryRef {
        file: "core/Bad.t.sol".to_owned(),
        name: "Lib".to_owned(),
        offsets: vec![1000],
    }];
    let lib = artifact("core/Bad.t.sol", "Lib", 84, abi(vec![("libFn", vec![])]));
    let artifacts = vec![bad, lib];
    let runner =
        MultiContractRunnerBuilder::new().sender(vec![0u8; 20]).build(&artifacts, opts()).unwrap();
    assert_eq!(runner.link_failures.len(), 1);
    assert!(runner.contracts.get("core/Bad.t.sol:BadTest").is_none());
}

/// A contract with only library functions is not a test suite but appears in
/// the known-contracts map.
#[test]
fn library_contract_is_known_but_not_a_suite() {
    let artifacts = vec![
        artifact("core/Lib.sol", "MathLib", 85, abi(vec![("addChecked", vec!["uint256"])])),
        artifact("core/T.t.sol", "TTest", 86, abi(vec![("testOne", vec![])])),
    ];
    let runner =
        MultiContractRunnerBuilder::new().sender(vec![0u8; 20]).build(&artifacts, opts()).unwrap();
    assert!(runner.contracts.get("core/Lib.sol:MathLib").is_none());
    assert!(runner.known_contracts.get("core/Lib.sol:MathLib").is_some());
    assert!(runner.contracts.get("core/T.t.sol:TTest").is_some());
}

/// A contract with a constructor that takes arguments is never a test suite.
#[test]
fn nonempty_constructor_is_not_a_suite() {
    let mut a = abi(vec![("testWithCtor", vec![])]);
    a.constructor = Some(vec!["uint256".to_owned()]);
    let artifacts = vec![artifact("core/Ctor.t.sol", "CtorTest", 87, a)];
    let runner =
        MultiContractRunnerBuilder::new().sender(vec![0u8; 20]).build(&artifacts, opts()).unwrap();
    assert!(runner.contracts.get("core/Ctor.t.sol:CtorTest").is_none());
    assert!(runner.known_contracts.get("core/Ctor.t.sol:CtorTest").is_some());
}

/// `count_filtered_tests` equals the sum of the final suite result counts
/// when every suite deploys and sets up successfully and fuzz tests are
/// included.
#[test]
fn count_matches_final_results() {
    let artifacts = vec![
        artifact(
            "core/SetupConsistency.t.sol",
            "SetupConsistencyCheck",
            3,
            abi(vec![("setUp", vec![]), ("testAdd", vec![]), ("testMultiply", vec![])]),
        ),
        artifact("fuzz/Fuzz.t.sol", "FuzzTest", 41, abi(vec![("testPositive", vec!["uint256"])])),
    ];
    let backend = Backend {
        contracts: vec![
            behavior(
                3,
                vec![("setUp()", pass()), ("testAdd()", pass()), ("testMultiply()", pass())],
            ),
            behavior(41, vec![("testPositive(uint256)", pass())]),
        ],
    };
    let runner = MultiContractRunnerBuilder::new()
        .sender(vec![0u8; 20])
        .fuzzer(FuzzConfig::new(4, 1024, 65536))
        .build(&artifacts, opts())
        .unwrap();
    let flt = filter(".*", ".*", ".*");
    let count = runner.count_filtered_tests(&flt);
    let results = runner.test(&backend, &flt, true);
    let mut total = 0;
    for i in 0..results.len() {
        total += results.value_at(i).len();
    }
    assert_eq!(count, total);
    assert_eq!(count, 3);
}

/// Overloaded test functions yield distinct results keyed by full signature.
#[test]
fn overloads_are_keyed_by_signature() {
    let artifacts = vec![artifact(
        "core/Overload.t.sol",
        "OverloadTest",
        91,
        abi(vec![("testThing", vec![]), ("testThing", vec!["uint256"])]),
    )];
    let backend = Backend {
        contracts: vec![behavior(
            91,
            vec![("testThing()", pass()), ("testThing(uint256)", pass())],
        )],
    };
    let runner = MultiContractRunnerBuilder::new()
        .sender(vec![0u8; 20])
        .fuzzer(FuzzConfig::new(4, 1024, 65536))
        .build(&artifacts, opts())
        .unwrap();
    let results = runner.test(&backend, &filter(".*", ".*", ".*"), true);
    let suite = results.get("core/Overload.t.sol:OverloadTest").unwrap();
    assert_eq!(suite.len(), 2);
    assert!(suite.get("testThing()").is_some());
    assert!(suite.get("testThing(uint256)").is_some());
}

/// With every test-name pattern unset, `matches_test` accepts all names.
#[test]
fn unset_filter_accepts_everything() {
    let f = Filter::from_patterns(None, None, None, None, None, None, None).unwrap();
    assert!(f.matches_test("testFoo()"));
    assert!(f.matches_test("setUp()"));
    assert!(f.matches_test(""));
    assert!(f.matches_contract("Anything"));
    assert!(f.matches_path("src/whatever.sol"));
}

/// Libraries that reference each other never resolve; the suite is dropped
/// with a cycle failure.
#[test]
fn cyclic_libraries_drop_suite() {
    let mut suite = artifact("core/Cycle.t.sol", "CycleTest", 95, abi(vec![("testX", vec![])]));
    suite.1.creation_bytecode = Some({
        let mut code = tagged_code(95);
        code.extend_from_slice(&[0u8; 20]);
        code
    });
    suite.1.library_refs = vec![LibraryRef {
        file: "core/Cycle.t.sol".to_owned(),
        name: "LoopA".to_owned(),
        offsets: vec![8],
    }];
    let mut loop_a = artifact("core/Cycle.t.sol", "LoopA", 96, abi(vec![("a", vec![])]));
    loop_a.1.creation_bytecode = Some({
        let mut code = tagged_code(96);
        code.extend_from_slice(&[0u8; 20]);
        code
    });
    loop_a.1.library_refs = vec![LibraryRef {
        file: "core/Cycle.t.sol".to_owned(),
        name: "LoopB".to_owned(),
        offsets: vec![8],
    }];
    let mut loop_b = artifact("core/Cycle.t.sol", "LoopB", 97, abi(vec![("b", vec![])]));
    loop_b.1.creation_bytecode = Some({
        let mut code = tagged_code(97);
        code.extend_from_slice(&[0u8; 20]);
        code
    });
    loop_b.1.library_refs = vec![LibraryRef {
        file: "core/Cycle.t.sol".to_owned(),
        name: "LoopA".to_owned(),
        offsets: vec![8],
    }];
    let artifacts = vec![suite, loop_a, loop_b];
    let runner =
        MultiContractRunnerBuilder::new().sender(vec![0u8; 20]).build(&artifacts, opts()).unwrap();
    assert_eq!(runner.link_failures.len(), 1);
    assert!(runner.contracts.get("core/Cycle.t.sol:CycleTest").is_none());
}

/// A sender that is not a 20-byte address is refused by the builder.
#[test]
fn builder_rejects_bad_sender() {
    let artifacts = vec![artifact("core/T.t.sol", "TTest", 98, abi(vec![("testOne", vec![])]))];
    let r = MultiContractRunnerBuilder::new().sender(vec![0u8; 3]).build(&artifacts, opts());
    assert!(r.is_err());
}

/// Linking patches the nested libraries' deterministic deployment addresses
/// into the creation bytecode, in deployment order.
#[test]
fn linking_patches_addresses() {
    let mut suite =
        artifact("core/Linked.t.sol", "LinkedTest", 101, abi(vec![("testX", vec![])]));
    suite.1.creation_bytecode = Some({
        let mut code = tagged_code(101);
        code.extend_from_slice(&[0u8; 20]);
        code
    });
    suite.1.library_refs = vec![LibraryRef {
        file: "core/Linked.t.sol".to_owned(),
        name: "Outer".to_owned(),
        offsets: vec![8],
    }];
    let mut outer = artifact("core/Linked.t.sol", "Outer", 102, abi(vec![("o", vec![])]));
    outer.1.creation_bytecode = Some({
        let mut code = tagged_code(102);
        code.extend_from_slice(&[0u8; 20]);
        code
    });
    outer.1.library_refs = vec![LibraryRef {
        file: "core/Linked.t.sol".to_owned(),
        name: "Inner".to_owned(),
        offsets: vec![8],
    }];
    let inner = artifact("core/Linked.t.sol", "Inner", 103, abi(vec![("i", vec![])]));
    let sender = vec![0u8; 20];
    let artifacts = vec![suite, outer, inner];
    let runner = MultiContractRunnerBuilder::new()
        .sender(sender.clone())
        .build(&artifacts, opts())
        .unwrap();
    let tc = runner.contracts.get("core/Linked.t.sol:LinkedTest").unwrap();
    // the inner library deploys first (nonce 0), then the outer (nonce 1)
    assert_eq!(tc.contract.libraries.len(), 2);
    let inner_addr = create_address(&sender, 0);
    let outer_addr = create_address(&sender, 1);
    assert_eq!(&tc.contract.libraries[0][0..8], &tagged_code(103)[..]);
    assert_eq!(&tc.contract.libraries[1][8..28], &inner_addr[..]);
    assert_eq!(&tc.contract.bytecode[8..28], &outer_addr[..]);
}

/// Re-linking is the identity on bytecode: a suite without library
/// references keeps its creation bytecode byte for byte, so linking the
/// already linked set changes nothing.
#[test]
fn relinking_is_identity() {
    let artifacts =
        vec![artifact("core/Plain.t.sol", "PlainTest", 104, abi(vec![("testX", vec![])]))];
    let first = MultiContractRunnerBuilder::new()
        .sender(vec![0u8; 20])
        .build(&artifacts, opts())
        .unwrap();
    let linked_once = first.contracts.get("core/Plain.t.sol:PlainTest").unwrap();
    assert_eq!(linked_once.contract.bytecode, tagged_code(104));
    // feed the linked output back through the linker
    let relink_input = vec![(
        ArtifactId::new("core/Plain.t.sol", "PlainTest", "0.8.10"),
        CompiledContract {
            abi: abi(vec![("testX", vec![])]),
            creation_bytecode: Some(linked_once.contract.bytecode.clone()),
            deployed_bytecode: Some(vec![104, 0xfe]),
            library_refs: Vec::new(),
        },
    )];
    let second = MultiContractRunnerBuilder::new()
        .sender(vec![0u8; 20])
        .build(&relink_input, opts())
        .unwrap();
    let linked_twice = second.contracts.get("core/Plain.t.sol:PlainTest").unwrap();
    assert_eq!(linked_twice.contract.bytecode, linked_once.contract.bytecode);
    assert!(linked_twice.contract.libraries.is_empty());
}

/// Two builds over the same artifacts and sender produce identical
/// deployable maps, library references included.
#[test]
fn build_is_deterministic() {
    let make = || {
        let mut suite =
            artifact("core/Det.t.sol", "DetTest", 110, abi(vec![("testX", vec![])]));
        suite.1.creation_bytecode = Some({
            let mut code = tagged_code(110);
            code.extend_from_slice(&[0u8; 20]);
            code
        });
        suite.1.library_refs = vec![LibraryRef {
            file: "core/Det.t.sol".to_owned(),
            name: "DetLib".to_owned(),
            offsets: vec![8],
        }];
        let lib = artifact("core/Det.t.sol", "DetLib", 111, abi(vec![("l", vec![])]));
        vec![suite, lib]
    };
    let r1 = MultiContractRunnerBuilder::new()
        .sender(vec![0u8; 20])
        .build(&make(), opts())
        .unwrap();
    let r2 = MultiContractRunnerBuilder::new()
        .sender(vec![0u8; 20])
        .build(&make(), opts())
        .unwrap();
    assert_eq!(r1.contracts.len(), r2.contracts.len());
    for i in 0..r1.contracts.len() {
        assert_eq!(r1.contracts.key_at(i), r2.contracts.key_at(i));
        let a = r1.contracts.value_at(i);
        let b = r2.contracts.value_at(i);
        assert_eq!(a.contract.bytecode, b.contract.bytecode);
        assert_eq!(a.contract.libraries, b.contract.libraries);
    }
}
