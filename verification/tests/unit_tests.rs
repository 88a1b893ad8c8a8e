use forge_core::artifact::{Abi, AbiFunction, ArtifactId};
use forge_core::codec::{decode_arg, encode_calldata};
use forge_core::evm::{Backend, Executor, SpecId};
use forge_core::filter::{Filter, TestFilter};
use forge_core::hash::{bytes_eq, selector_of};
use forge_core::omap::StrMap;
use forge_core::outcome::{Test, TestOutcome};
use forge_core::result::{SuiteResult, TestKind, TestResult};
use forge_core::rlp::create_address;
use forge_core::strutil::{str_cmp, u64_to_dec, StrOrd};
use forge_core::test_verdict;

#[test]
fn verdict_rule() {
    // a test expected to revert passes exactly when the call reverted
    assert!(test_verdict(true, true, false));
    assert!(test_verdict(true, true, true));
    assert!(!test_verdict(true, false, false));
    // any other test passes exactly when it did not revert and the DSTest
    // failed flag is clear
    assert!(test_verdict(false, false, false));
    assert!(!test_verdict(false, true, false));
    assert!(!test_verdict(false, false, true));
}

#[test]
fn keccak_known_value() {
    // the selector of the empty signature is the start of the well-known
    // Keccak-256 hash of the empty input
    let sel = selector_of("");
    assert_eq!(sel, vec![0xc5, 0xd2, 0x46, 0x01]);
}

#[test]
fn selector_known_value() {
    // the canonical ERC-20 transfer selector
    let sel = selector_of("transfer(address,uint256)");
    assert_eq!(sel, vec![0xa9, 0x05, 0x9c, 0xbb]);
}

#[test]
fn calldata_roundtrip() {
    let args = vec![7u64, 0, u64::MAX, 100];
    let data = encode_calldata("testNegative(uint256)", &args);
    assert_eq!(data.len(), 4 + 32 * 4);
    for (i, a) in args.iter().enumerate() {
        assert_eq!(decode_arg(&data, i), *a);
    }
}

#[test]
fn create_addresses_are_distinct_per_nonce() {
    let sender = vec![0x11u8; 20];
    let a0 = create_address(&sender, 0);
    let a1 = create_address(&sender, 1);
    let again = create_address(&sender, 0);
    assert_eq!(a0.len(), 20);
    assert_eq!(a0, again);
    assert_ne!(a0, a1);
    assert_ne!(a0, sender, "the derived address is not the sender");
}

#[test]
fn string_order_and_rendering() {
    assert_eq!(str_cmp("a", "b"), StrOrd::Lt);
    assert_eq!(str_cmp("b", "a"), StrOrd::Gt);
    assert_eq!(str_cmp("same", "same"), StrOrd::Eq);
    assert_eq!(str_cmp("abc", "abcd"), StrOrd::Lt);
    assert_eq!(u64_to_dec(0).as_str(), "0");
    assert_eq!(u64_to_dec(10).as_str(), "10");
    assert_eq!(u64_to_dec(18446744073709551615).as_str(), "18446744073709551615");
}

#[test]
fn signature_rendering() {
    let f = AbiFunction::new(
        "testSuccessfulFuzz",
        vec!["uint128".to_owned(), "uint128".to_owned()],
    );
    assert_eq!(f.signature().as_str(), "testSuccessfulFuzz(uint128,uint128)");
    let g = AbiFunction::new("testAdd", vec![]);
    assert_eq!(g.signature().as_str(), "testAdd()");
}

#[test]
fn identifier_and_name_parts() {
    let id = ArtifactId::new("core/Abstract.t.sol", "AbstractTest", "0.8.10");
    assert_eq!(id.identifier().as_str(), "core/Abstract.t.sol:AbstractTest");
    let t = Test {
        artifact_id: id.identifier(),
        signature: "testSomething()".to_owned(),
        result: empty_result(true),
    };
    assert_eq!(t.contract_name().as_str(), "AbstractTest");
    assert_eq!(t.file_name().as_str(), "core/Abstract.t.sol");
}

#[test]
fn filter_patterns() {
    // the dedicated patterns are combined by logical AND
    let f = Filter::from_patterns(None, Some("test"), Some("Fail"), None, None, None, None)
        .unwrap();
    assert!(f.matches_test("testAdd()"));
    assert!(!f.matches_test("testFailRevert()"));
    assert!(!f.matches_test("setUp()"));
    // an invalid regex is rejected
    assert!(Filter::from_patterns(Some("("), None, None, None, None, None, None).is_err());
    // an invalid glob is rejected
    assert!(Filter::from_patterns(None, None, None, None, None, Some("a{"), None).is_err());
    // the default source-file rule is the test-source suffix
    let plain = Filter::from_patterns(None, None, None, None, None, None, None).unwrap();
    assert!(plain.is_source_file("src/Reverting.t.sol"));
    assert!(!plain.is_source_file("src/Reverting.sol"));
    // a positive path glob decides instead
    let globbed =
        Filter::from_patterns(None, None, None, None, None, Some("src/*.sol"), None).unwrap();
    assert!(globbed.is_source_file("src/Anything.sol"));
    assert!(!globbed.is_source_file("test/Anything.sol"));
}

#[test]
fn executor_deploy_and_call() {
    let backend = Backend {
        contracts: vec![forge_core::evm::ContractBehavior {
            code: vec![9, 9, 9, 9],
            deploy_reverts: None,
            deploy_gas: 5000,
            functions: vec![forge_core::evm::FunctionBehavior {
                signature: "testAdd()".to_owned(),
                behavior: forge_core::evm::CallBehavior::Fixed {
                    reverted: false,
                    reason: None,
                    gas: 777,
                    logs: vec!["hello".to_owned()],
                    sets_failed_flag: true,
                },
            }],
        }],
    };
    let sender = vec![0u8; 20];
    let mut exec = Executor::new(false, false, 30_000_000, SpecId::London);
    exec.set_balance(&backend, &sender, 1000);
    let deployed = exec.deploy(&backend, &sender, &vec![9, 9, 9, 9, 1, 2, 3], 0).unwrap();
    assert_eq!(deployed.gas, 5000);
    assert_eq!(deployed.address.len(), 20);
    // a snapshot isolates the DSTest failed flag
    let snap = exec.snapshot();
    let data = encode_calldata("testAdd()", &vec![]);
    let outcome = exec.call(&backend, &sender, &deployed.address, &data, 0);
    assert!(!outcome.reverted);
    assert_eq!(outcome.gas, 777);
    assert_eq!(outcome.logs, vec!["hello".to_owned()]);
    assert_eq!(exec.load_storage(&deployed.address, 0), 1);
    assert!(exec.revert_to(snap));
    assert_eq!(exec.load_storage(&deployed.address, 0), 0);
    // a call to an address with no code reverts
    let other = exec.call(&backend, &sender, &vec![1u8; 20], &data, 0);
    assert!(other.reverted);
    // deploying bytecode without a declared behaviour reverts
    assert!(exec.deploy(&backend, &sender, &vec![8, 8, 8, 8], 0).is_err());
}

fn empty_result(success: bool) -> TestResult {
    TestResult {
        success,
        reason: None,
        counterexample: None,
        logs: Vec::new(),
        traces: Vec::new(),
        labeled_addresses: Vec::new(),
        kind: TestKind::Standard { gas: 42 },
    }
}

fn outcome_of(verdicts: Vec<(&str, Vec<(&str, bool)>, u64)>, allow_failure: bool) -> TestOutcome {
    let mut results: StrMap<SuiteResult> = StrMap::new();
    for (suite, tests, duration) in verdicts {
        let test_results: Vec<(String, TestResult)> = tests
            .into_iter()
            .map(|(sig, ok)| (sig.to_owned(), empty_result(ok)))
            .collect();
        results.insert(suite.to_owned(), SuiteResult::new(duration, test_results));
    }
    TestOutcome::new(results, allow_failure)
}

#[test]
fn outcome_iteration_and_policy() {
    let outcome = outcome_of(
        vec![
            ("a/A.t.sol:ATest", vec![("testA()", true), ("testB()", false)], 5),
            ("b/B.t.sol:BTest", vec![("testC()", true)], 7),
        ],
        false,
    );
    assert_eq!(outcome.tests().len(), 3);
    assert_eq!(outcome.successes().len(), 2);
    assert_eq!(outcome.failures().len(), 1);
    assert_eq!(outcome.duration(), 12);
    assert_eq!(
        outcome.summary().as_str(),
        "Test result: FAILED. 2 passed; 1 failed; finished in 12ms"
    );
    assert!(outcome.ensure_ok().is_err());

    let lenient = outcome_of(
        vec![("a/A.t.sol:ATest", vec![("testB()", false)], 1)],
        true,
    );
    assert!(lenient.ensure_ok().is_ok());

    let green = outcome_of(vec![("a/A.t.sol:ATest", vec![("testA()", true)], 3)], false);
    assert!(green.ensure_ok().is_ok());
    assert_eq!(
        green.summary().as_str(),
        "Test result: ok. 1 passed; 0 failed; finished in 3ms"
    );
    let all = green.into_tests();
    assert_eq!(all.len(), 1);
    assert_eq!(all[0].artifact_id.as_str(), "a/A.t.sol:ATest");
    assert_eq!(all[0].signature.as_str(), "testA()");
    assert_eq!(all[0].gas_used(), 42);
}

#[test]
fn ordered_map_semantics() {
    let mut m: StrMap<u64> = StrMap::new();
    m.insert("b".to_owned(), 2);
    m.insert("a".to_owned(), 1);
    m.insert("c".to_owned(), 3);
    m.insert("b".to_owned(), 20);
    assert_eq!(m.len(), 3);
    assert_eq!(m.key_at(0).as_str(), "a");
    assert_eq!(m.key_at(1).as_str(), "b");
    assert_eq!(m.key_at(2).as_str(), "c");
    assert_eq!(m.get("b"), Some(&20));
    assert_eq!(m.get("missing"), None);
    assert!(m.contains_key("c"));
}

#[test]
fn byte_helpers() {
    assert!(bytes_eq(&[1, 2, 3], &[1, 2, 3]));
    assert!(!bytes_eq(&[1, 2, 3], &[1, 2, 4]));
    assert!(!bytes_eq(&[1, 2], &[1, 2, 3]));
}

#[test]
fn abi_classification() {
    let suite = Abi {
        constructor: None,
        functions: vec![AbiFunction::new("testX", vec![])],
    };
    assert!(suite.is_test_suite());
    let helper_only = Abi {
        constructor: None,
        functions: vec![AbiFunction::new("helper", vec![])],
    };
    assert!(!helper_only.is_test_suite());
    let with_ctor_args = Abi {
        constructor: Some(vec!["uint256".to_owned()]),
        functions: vec![AbiFunction::new("testX", vec![])],
    };
    assert!(!with_ctor_args.is_test_suite());
    let with_empty_ctor = Abi {
        constructor: Some(vec![]),
        functions: vec![AbiFunction::new("testX", vec![])],
    };
    assert!(with_empty_ctor.is_test_suite());
    assert!(!suite.has_setup());
    let with_setup = Abi {
        constructor: None,
        functions: vec![AbiFunction::new("setUp", vec![]), AbiFunction::new("testX", vec![])],
    };
    assert!(with_setup.has_setup());
}
