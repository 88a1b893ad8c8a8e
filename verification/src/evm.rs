use vstd::prelude::*;
use crate::hash::{spec_bytes_prefix, bytes_starts_with, spec_selector, clone_bytes, bytes_eq};
use crate::codec::{spec_decode_arg, spec_has_args, decode_arg};
use crate::rlp::{spec_create_address, create_address};

verus! {

/// The EVM hardfork a suite runs under.
#[derive(PartialEq, Eq, Structural, Clone, Copy, Debug)]
pub enum SpecId {
    Istanbul,
    Berlin,
    London,
}

/// What a deployed contract does when one of its functions is called. The
/// executor is a model: each function's behaviour is given as data, either a
/// fixed outcome or an outcome that depends on one decoded argument word.
pub enum CallBehavior {
    Fixed {
        reverted: bool,
        reason: Option<String>,
        gas: u64,
        logs: Vec<String>,
        sets_failed_flag: bool,
    },
    RevertIfArgAbove { arg_index: usize, threshold: u64, revert_reason: String, gas: u64 },
}

#[verifier::ext_equal]
pub ghost enum CallBehaviorView {
    Fixed {
        reverted: bool,
        reason: Option<Seq<char>>,
        gas: u64,
        logs: Seq<Seq<char>>,
        sets_failed_flag: bool,
    },
    RevertIfArgAbove { arg_index: usize, threshold: u64, revert_reason: Seq<char>, gas: u64 },
}

impl View for CallBehavior {
    type V = CallBehaviorView;

    open spec fn view(&self) -> CallBehaviorView {
        match self {
            CallBehavior::Fixed { reverted, reason, gas, logs, sets_failed_flag } => {
                CallBehaviorView::Fixed {
                    reverted: *reverted,
                    reason: match reason {
                        Some(s) => Some(s@),
                        None => None,
                    },
                    gas: *gas,
                    logs: logs@.map_values(|s: String| s@),
                    sets_failed_flag: *sets_failed_flag,
                }
            },
            CallBehavior::RevertIfArgAbove { arg_index, threshold, revert_reason, gas } => {
                CallBehaviorView::RevertIfArgAbove {
                    arg_index: *arg_index,
                    threshold: *threshold,
                    revert_reason: revert_reason@,
                    gas: *gas,
                }
            },
        }
    }
}

/// The behaviour of one function, keyed by its full signature.
pub struct FunctionBehavior {
    pub signature: String,
    pub behavior: CallBehavior,
}

#[verifier::ext_equal]
pub ghost struct FunctionBehaviorView {
    pub signature: Seq<char>,
    pub behavior: CallBehaviorView,
}

impl View for FunctionBehavior {
    type V = FunctionBehaviorView;

    open spec fn view(&self) -> FunctionBehaviorView {
        FunctionBehaviorView { signature: self.signature@, behavior: self.behavior@ }
    }
}

/// The behaviour of one contract: keyed by a prefix of its creation
/// bytecode, with a constructor outcome and per-function behaviours.
pub struct ContractBehavior {
    /// Matched as a prefix of the deployed creation bytecode, so that linked
    /// bytecode (with patched library addresses further in) still matches.
    pub code: Vec<u8>,
    pub deploy_reverts: Option<String>,
    pub deploy_gas: u64,
    pub functions: Vec<FunctionBehavior>,
}

#[verifier::ext_equal]
pub ghost struct ContractBehaviorView {
    pub code: Seq<u8>,
    pub deploy_reverts: Option<Seq<char>>,
    pub deploy_gas: u64,
    pub functions: Seq<FunctionBehaviorView>,
}

impl View for ContractBehavior {
    type V = ContractBehaviorView;

    open spec fn view(&self) -> ContractBehaviorView {
        ContractBehaviorView {
            code: self.code@,
            deploy_reverts: match self.deploy_reverts {
                Some(s) => Some(s@),
                None => None,
            },
            deploy_gas: self.deploy_gas,
            functions: self.functions@.map_values(|f: FunctionBehavior| f@),
        }
    }
}

/// The shared read-only database every suite executor draws on: the
/// behaviours of all contracts that can be deployed.
pub struct Backend {
    pub contracts: Vec<ContractBehavior>,
}

#[verifier::ext_equal]
pub ghost struct BackendView {
    pub contracts: Seq<ContractBehaviorView>,
}

impl View for Backend {
    type V = BackendView;

    open spec fn view(&self) -> BackendView {
        BackendView { contracts: self.contracts@.map_values(|c: ContractBehavior| c@) }
    }
}

/// One deployed contract: its address, the index of its behaviour in the
/// backend, and the DSTest failed flag stored in its storage slot zero.
pub struct Instance {
    pub address: Vec<u8>,
    pub behavior: usize,
    pub failed: bool,
}

#[verifier::ext_equal]
pub ghost struct InstanceView {
    pub address: Seq<u8>,
    pub behavior: usize,
    pub failed: bool,
}

impl View for Instance {
    type V = InstanceView;

    open spec fn view(&self) -> InstanceView {
        InstanceView { address: self.address@, behavior: self.behavior, failed: self.failed }
    }
}

/// The mutable per-suite overlay: deployed instances, balances, and the
/// sender's nonce.
pub struct EvmState {
    pub instances: Vec<Instance>,
    pub balances: Vec<(Vec<u8>, u128)>,
    pub nonce: u64,
}

#[verifier::ext_equal]
pub ghost struct EvmStateView {
    pub instances: Seq<InstanceView>,
    pub balances: Seq<(Seq<u8>, u128)>,
    pub nonce: u64,
}

impl View for EvmState {
    type V = EvmStateView;

    open spec fn view(&self) -> EvmStateView {
        EvmStateView {
            instances: self.instances@.map_values(|i: Instance| i@),
            balances: self.balances@.map_values(|p: (Vec<u8>, u128)| (p.0@, p.1)),
            nonce: self.nonce,
        }
    }
}

/// What one call produced.
pub struct CallOutcome {
    pub reverted: bool,
    pub reason: Option<String>,
    pub gas: u64,
    pub logs: Vec<String>,
}

#[verifier::ext_equal]
pub ghost struct CallOutcomeView {
    pub reverted: bool,
    pub reason: Option<Seq<char>>,
    pub gas: u64,
    pub logs: Seq<Seq<char>>,
}

impl View for CallOutcome {
    type V = CallOutcomeView;

    open spec fn view(&self) -> CallOutcomeView {
        CallOutcomeView {
            reverted: self.reverted,
            reason: match self.reason {
                Some(s) => Some(s@),
                None => None,
            },
            gas: self.gas,
            logs: self.logs@.map_values(|s: String| s@),
        }
    }
}

/// A successful deployment: the new contract's address and the gas used.
pub struct Deployed {
    pub address: Vec<u8>,
    pub gas: u64,
}

#[verifier::ext_equal]
pub ghost struct DeployedView {
    pub address: Seq<u8>,
    pub gas: u64,
}

impl View for Deployed {
    type V = DeployedView;

    open spec fn view(&self) -> DeployedView {
        DeployedView { address: self.address@, gas: self.gas }
    }
}

/// The index of the first behaviour whose code key is a prefix of `code`.
pub open spec fn spec_find_behavior(contracts: Seq<ContractBehaviorView>, code: Seq<u8>) -> Option<
    int,
>
    decreases contracts.len(),
{
    if contracts.len() == 0 {
        None
    } else if spec_bytes_prefix(code, contracts[0].code) {
        Some(0)
    } else {
        match spec_find_behavior(contracts.skip(1), code) {
            Some(i) => Some(i + 1),
            None => None,
        }
    }
}

/// The index of the instance deployed at `addr`.
pub open spec fn spec_find_instance(instances: Seq<InstanceView>, addr: Seq<u8>) -> Option<int>
    decreases instances.len(),
{
    if instances.len() == 0 {
        None
    } else if instances[0].address == addr {
        Some(0)
    } else {
        match spec_find_instance(instances.skip(1), addr) {
            Some(i) => Some(i + 1),
            None => None,
        }
    }
}

/// The behaviour of the first function whose selector matches the first four
/// bytes of the call data.
pub open spec fn spec_find_function(
    functions: Seq<FunctionBehaviorView>,
    selector: Seq<u8>,
) -> Option<CallBehaviorView>
    decreases functions.len(),
{
    if functions.len() == 0 {
        None
    } else if spec_selector(functions[0].signature) == selector {
        Some(functions[0].behavior)
    } else {
        spec_find_function(functions.skip(1), selector)
    }
}

/// The first four bytes of call data, which select the function.
pub open spec fn spec_selector_of_calldata(data: Seq<u8>) -> Seq<u8> {
    if data.len() >= 4 {
        data.subrange(0, 4)
    } else {
        data
    }
}

/// The outcome of applying one behaviour to the given call data.
pub open spec fn spec_behavior_outcome(b: CallBehaviorView, data: Seq<u8>) -> CallOutcomeView {
    match b {
        CallBehaviorView::Fixed { reverted, reason, gas, logs, sets_failed_flag } => {
            CallOutcomeView { reverted, reason, gas, logs }
        },
        CallBehaviorView::RevertIfArgAbove { arg_index, threshold, revert_reason, gas } => {
            if spec_has_args(data, arg_index + 1) && spec_decode_arg(data, arg_index as int)
                > threshold {
                CallOutcomeView {
                    reverted: true,
                    reason: Some(revert_reason),
                    gas,
                    logs: Seq::<Seq<char>>::empty(),
                }
            } else {
                CallOutcomeView {
                    reverted: false,
                    reason: None,
                    gas,
                    logs: Seq::<Seq<char>>::empty(),
                }
            }
        },
    }
}

/// Whether applying the behaviour sets the DSTest failed flag.
pub open spec fn spec_behavior_sets_flag(b: CallBehaviorView) -> bool {
    match b {
        CallBehaviorView::Fixed { reverted, reason, gas, logs, sets_failed_flag } => {
            sets_failed_flag
        },
        CallBehaviorView::RevertIfArgAbove { .. } => false,
    }
}

/// The outcome a call at `to` with `data` produces: a revert for an unknown
/// address, the declared behaviour's outcome for a known function, and an
/// empty success for a selector the contract does not declare.
pub open spec fn spec_call_outcome(
    contracts: Seq<ContractBehaviorView>,
    st: EvmStateView,
    to: Seq<u8>,
    data: Seq<u8>,
) -> CallOutcomeView {
    match spec_find_instance(st.instances, to) {
        None => CallOutcomeView {
            reverted: true,
            reason: Some("call target is not deployed"@),
            gas: 0,
            logs: Seq::<Seq<char>>::empty(),
        },
        Some(i) => {
            let bi = st.instances[i].behavior;
            if bi < contracts.len() {
                match spec_find_function(contracts[bi as int].functions, spec_selector_of_calldata(data)) {
                    Some(b) => spec_behavior_outcome(b, data),
                    None => CallOutcomeView {
                        reverted: false,
                        reason: None,
                        gas: 0,
                        logs: Seq::<Seq<char>>::empty(),
                    },
                }
            } else {
                CallOutcomeView {
                    reverted: false,
                    reason: None,
                    gas: 0,
                    logs: Seq::<Seq<char>>::empty(),
                }
            }
        },
    }
}

/// The state after a call: the target's failed flag is set when the invoked
/// behaviour sets it, and nothing else changes.
pub open spec fn spec_call_state(
    contracts: Seq<ContractBehaviorView>,
    st: EvmStateView,
    to: Seq<u8>,
    data: Seq<u8>,
) -> EvmStateView {
    match spec_find_instance(st.instances, to) {
        None => st,
        Some(i) => {
            let bi = st.instances[i].behavior;
            if bi < contracts.len() {
                match spec_find_function(contracts[bi as int].functions, spec_selector_of_calldata(data)) {
                    Some(b) => {
                        if spec_behavior_sets_flag(b) {
                            EvmStateView {
                                instances: st.instances.update(
                                    i,
                                    InstanceView {
                                        address: st.instances[i].address,
                                        behavior: st.instances[i].behavior,
                                        failed: true,
                                    },
                                ),
                                balances: st.balances,
                                nonce: st.nonce,
                            }
                        } else {
                            st
                        }
                    },
                    None => st,
                }
            } else {
                st
            }
        },
    }
}

/// The result of a deployment: the created address and declared gas on
/// success, the declared constructor revert or an unknown-bytecode revert
/// otherwise.
pub open spec fn spec_deploy_result(
    contracts: Seq<ContractBehaviorView>,
    nonce: u64,
    from: Seq<u8>,
    code: Seq<u8>,
) -> Result<DeployedView, Seq<char>> {
    match spec_find_behavior(contracts, code) {
        None => Err("no behaviour is declared for this bytecode"@),
        Some(i) => match contracts[i].deploy_reverts {
            Some(r) => Err(r),
            None => Ok(
                DeployedView {
                    address: spec_create_address(from, nonce),
                    gas: contracts[i].deploy_gas,
                },
            ),
        },
    }
}

/// The state after a deployment: on success the new instance is recorded and
/// the nonce advances; a revert leaves the state unchanged.
pub open spec fn spec_deploy_state(
    contracts: Seq<ContractBehaviorView>,
    st: EvmStateView,
    from: Seq<u8>,
    code: Seq<u8>,
) -> EvmStateView {
    match spec_find_behavior(contracts, code) {
        None => st,
        Some(i) => match contracts[i].deploy_reverts {
            Some(_) => st,
            None => EvmStateView {
                instances: st.instances.push(
                    InstanceView {
                        address: spec_create_address(from, st.nonce),
                        behavior: i as usize,
                        failed: false,
                    },
                ),
                balances: st.balances,
                nonce: vstd::wrapping::u64_specs::wrapping_add(st.nonce, 1),
            },
        },
    }
}

/// Balances after setting `addr`'s balance: the existing entry is replaced,
/// or a new one appended.
pub open spec fn spec_set_balance(
    balances: Seq<(Seq<u8>, u128)>,
    addr: Seq<u8>,
    amount: u128,
) -> Seq<(Seq<u8>, u128)>
    decreases balances.len(),
{
    if balances.len() == 0 {
        seq![(addr, amount)]
    } else if balances[0].0 == addr {
        seq![(addr, amount)] + balances.skip(1)
    } else {
        seq![balances[0]] + spec_set_balance(balances.skip(1), addr, amount)
    }
}

/// Whether the DSTest failed flag is set on the instance at `addr`.
pub open spec fn spec_is_failed(st: EvmStateView, addr: Seq<u8>) -> bool {
    match spec_find_instance(st.instances, addr) {
        Some(i) => st.instances[i].failed,
        None => false,
    }
}

/// If the first `i` instances do not match and `i` is in range, the search
/// stops exactly at `i`; past the end it finds nothing.
pub proof fn lemma_find_instance_at(instances: Seq<InstanceView>, addr: Seq<u8>, i: int)
    requires
        0 <= i <= instances.len(),
        forall|j: int| 0 <= j < i ==> (#[trigger] instances[j]).address != addr,
    ensures
        i < instances.len() && instances[i].address == addr ==> spec_find_instance(instances, addr)
            == Some(i),
        i == instances.len() ==> spec_find_instance(instances, addr) is None,
    decreases i,
{
    if instances.len() == 0 {
    } else if i == 0 {
    } else {
        assert(instances[0].address != addr);
        let tail = instances.skip(1);
        assert(forall|j: int| 0 <= j < i - 1 ==> (#[trigger] tail[j]) == instances[j + 1]);
        lemma_find_instance_at(tail, addr, i - 1);
        if i < instances.len() && instances[i].address == addr {
            assert(tail[i - 1] == instances[i]);
        }
    }
}

/// The same for behaviour lookup by bytecode prefix.
pub proof fn lemma_find_behavior_at(contracts: Seq<ContractBehaviorView>, code: Seq<u8>, i: int)
    requires
        0 <= i <= contracts.len(),
        forall|j: int| 0 <= j < i ==> !spec_bytes_prefix(code, (#[trigger] contracts[j]).code),
    ensures
        i < contracts.len() && spec_bytes_prefix(code, contracts[i].code) ==> spec_find_behavior(
            contracts,
            code,
        ) == Some(i),
        i == contracts.len() ==> spec_find_behavior(contracts, code) is None,
    decreases i,
{
    if contracts.len() == 0 {
    } else if i == 0 {
    } else {
        let tail = contracts.skip(1);
        assert(forall|j: int| 0 <= j < i - 1 ==> (#[trigger] tail[j]) == contracts[j + 1]);
        lemma_find_behavior_at(tail, code, i - 1);
        if i < contracts.len() && spec_bytes_prefix(code, contracts[i].code) {
            assert(tail[i - 1] == contracts[i]);
        }
    }
}

/// The same for function lookup by selector.
pub proof fn lemma_find_function_at(
    functions: Seq<FunctionBehaviorView>,
    selector: Seq<u8>,
    i: int,
)
    requires
        0 <= i <= functions.len(),
        forall|j: int| 0 <= j < i ==> spec_selector((#[trigger] functions[j]).signature)
            != selector,
    ensures
        i < functions.len() && spec_selector(functions[i].signature) == selector
            ==> spec_find_function(functions, selector) == Some(functions[i].behavior),
        i == functions.len() ==> spec_find_function(functions, selector) is None,
    decreases i,
{
    if functions.len() == 0 {
    } else if i == 0 {
    } else {
        let tail = functions.skip(1);
        assert(forall|j: int| 0 <= j < i - 1 ==> (#[trigger] tail[j]) == functions[j + 1]);
        lemma_find_function_at(tail, selector, i - 1);
        if i < functions.len() && spec_selector(functions[i].signature) == selector {
            assert(tail[i - 1] == functions[i]);
        }
    }
}

/// Copies a list of strings.
pub fn clone_strings(v: &Vec<String>) -> (r: Vec<String>)
    ensures
        r@.map_values(|s: String| s@) == v@.map_values(|s: String| s@),
{
    let mut r: Vec<String> = Vec::new();
    let mut i: usize = 0;
    while i < v.len()
        invariant
            0 <= i <= v@.len(),
            r@ == v@.subrange(0, i as int),
        decreases v@.len() - i,
    {
        r.push(v[i].clone());
        proof {
            assert(r@ =~= v@.subrange(0, i + 1 as int));
        }
        i = i + 1;
    }
    proof {
        assert(r@ =~= v@);
        assert(r@.map_values(|s: String| s@) =~= v@.map_values(|s: String| s@));
    }
    r
}

fn clone_opt_string(v: &Option<String>) -> (r: Option<String>)
    ensures
        match r {
            Some(s) => v matches Some(o) && s@ == o@,
            None => v is None,
        },
{
    match v {
        Some(s) => Some(s.clone()),
        None => None,
    }
}

/// Copies the mutable overlay, for snapshots.
fn clone_state(s: &EvmState) -> (r: EvmState)
    ensures
        r@ == s@,
{
    let mut instances: Vec<Instance> = Vec::new();
    let mut i: usize = 0;
    while i < s.instances.len()
        invariant
            0 <= i <= s.instances@.len(),
            instances@.len() == i,
            forall|k: int| 0 <= k < i ==> (#[trigger] instances@[k])@ == s.instances@[k]@,
        decreases s.instances@.len() - i,
    {
        let inst = &s.instances[i];
        instances.push(
            Instance {
                address: clone_bytes(&inst.address),
                behavior: inst.behavior,
                failed: inst.failed,
            },
        );
        i = i + 1;
    }
    let mut balances: Vec<(Vec<u8>, u128)> = Vec::new();
    let mut j: usize = 0;
    while j < s.balances.len()
        invariant
            0 <= j <= s.balances@.len(),
            balances@.len() == j,
            forall|k: int| 0 <= k < j ==> (#[trigger] balances@[k]).0@ == s.balances@[k].0@
                && balances@[k].1 == s.balances@[k].1,
        decreases s.balances@.len() - j,
    {
        let entry = &s.balances[j];
        balances.push((clone_bytes(&entry.0), entry.1));
        j = j + 1;
    }
    let r = EvmState { instances, balances, nonce: s.nonce };
    proof {
        assert(r@.instances =~= s@.instances);
        assert(r@.balances =~= s@.balances);
    }
    r
}

/// An isolated EVM session for one suite: a mutable overlay over the shared
/// backend, with snapshots.
pub struct Executor {
    pub state: EvmState,
    pub snapshots: Vec<EvmState>,
    pub tracing: bool,
    pub cheatcodes: bool,
    pub gas_limit: u64,
    pub spec_id: SpecId,
}

#[verifier::ext_equal]
pub ghost struct ExecutorView {
    pub state: EvmStateView,
    pub snapshots: Seq<EvmStateView>,
    pub tracing: bool,
    pub cheatcodes: bool,
    pub gas_limit: u64,
    pub spec_id: SpecId,
}

impl View for Executor {
    type V = ExecutorView;

    open spec fn view(&self) -> ExecutorView {
        ExecutorView {
            state: self.state@,
            snapshots: self.snapshots@.map_values(|s: EvmState| s@),
            tracing: self.tracing,
            cheatcodes: self.cheatcodes,
            gas_limit: self.gas_limit,
            spec_id: self.spec_id,
        }
    }
}

pub open spec fn spec_empty_state() -> EvmStateView {
    EvmStateView {
        instances: Seq::<InstanceView>::empty(),
        balances: Seq::<(Seq<u8>, u128)>::empty(),
        nonce: 0,
    }
}

impl Executor {
    /// A fresh session with no deployments, as the builder produces it.
    pub fn new(tracing: bool, cheatcodes: bool, gas_limit: u64, spec_id: SpecId) -> (r: Executor)
        ensures
            r@.state == spec_empty_state(),
            r@.snapshots == Seq::<EvmStateView>::empty(),
            r@.tracing == tracing,
            r@.cheatcodes == cheatcodes,
            r@.gas_limit == gas_limit,
            r@.spec_id == spec_id,
    {
        let r = Executor {
            state: EvmState { instances: Vec::new(), balances: Vec::new(), nonce: 0 },
            snapshots: Vec::new(),
            tracing,
            cheatcodes,
            gas_limit,
            spec_id,
        };
        proof {
            assert(r@.state.instances =~= Seq::<InstanceView>::empty());
            assert(r@.state.balances =~= Seq::<(Seq<u8>, u128)>::empty());
            assert(r@.snapshots =~= Seq::<EvmStateView>::empty());
        }
        r
    }

    fn find_instance(&self, addr: &Vec<u8>) -> (r: Option<usize>)
        ensures
            match r {
                Some(i) => i < self@.state.instances.len() && spec_find_instance(
                    self@.state.instances,
                    addr@,
                ) == Some(i as int),
                None => spec_find_instance(self@.state.instances, addr@) is None,
            },
    {
        let mut i: usize = 0;
        while i < self.state.instances.len()
            invariant
                0 <= i <= self.state.instances@.len(),
                self@.state.instances.len() == self.state.instances@.len(),
                forall|j: int| 0 <= j < i ==> (#[trigger] self@.state.instances[j]).address
                    != addr@,
            decreases self.state.instances@.len() - i,
        {
            if bytes_eq(self.state.instances[i].address.as_slice(), addr.as_slice()) {
                proof {
                    assert(self@.state.instances[i as int].address
                        == self.state.instances@[i as int].address@);
                    lemma_find_instance_at(self@.state.instances, addr@, i as int);
                }
                return Some(i);
            }
            proof {
                assert(self@.state.instances[i as int].address
                    == self.state.instances@[i as int].address@);
            }
            i = i + 1;
        }
        proof {
            lemma_find_instance_at(self@.state.instances, addr@, i as int);
        }
        None
    }

    /// Sets an account balance, as the runner does to pre-fund the sender.
    pub fn set_balance(&mut self, backend: &Backend, addr: &Vec<u8>, amount: u128)
        ensures
            final(self)@ == (ExecutorView {
                state: EvmStateView {
                    balances: spec_set_balance(old(self)@.state.balances, addr@, amount),
                    ..old(self)@.state
                },
                ..old(self)@
            }),
    {
        let ghost bal0 = self@.state.balances;
        let mut i: usize = 0;
        while i < self.state.balances.len()
            invariant
                self@ == old(self)@,
                bal0 == old(self)@.state.balances,
                0 <= i <= self.state.balances@.len(),
                bal0.len() == self.state.balances@.len(),
                forall|j: int| 0 <= j < i ==> (#[trigger] bal0[j]).0 != addr@,
            decreases self.state.balances@.len() - i,
        {
            if bytes_eq(self.state.balances[i].0.as_slice(), addr.as_slice()) {
                proof {
                    assert(bal0[i as int].0 == self.state.balances@[i as int].0@);
                    lemma_set_balance_at(bal0, addr@, amount, i as int);
                }
                let entry = self.state.balances.remove(i);
                self.state.balances.insert(i, (entry.0, amount));
                proof {
                    assert(self@.state.balances =~= bal0.subrange(0, i as int) + seq![
                        (addr@, amount),
                    ] + bal0.subrange(i + 1, bal0.len() as int));
                }
                return ;
            }
            proof {
                assert(bal0[i as int].0 == self.state.balances@[i as int].0@);
            }
            i = i + 1;
        }
        proof {
            lemma_set_balance_at(bal0, addr@, amount, i as int);
        }
        let a = clone_bytes(addr);
        self.state.balances.push((a, amount));
        proof {
            assert(self@.state.balances =~= bal0 + seq![(addr@, amount)]);
        }
    }

    /// Deploys creation bytecode from `from`, whose behaviour the backend
    /// declares; on success the address is derived from the sender and nonce.
    pub fn deploy(&mut self, backend: &Backend, from: &Vec<u8>, code: &Vec<u8>, value: u128) -> (r:
        Result<Deployed, String>)
        requires
            from@.len() == 20,
        ensures
            final(self)@ == (ExecutorView {
                state: spec_deploy_state(backend@.contracts, old(self)@.state, from@, code@),
                ..old(self)@
            }),
            match r {
                Ok(d) => spec_deploy_result(
                    backend@.contracts,
                    old(self)@.state.nonce,
                    from@,
                    code@,
                ) == Ok::<DeployedView, Seq<char>>(d@),
                Err(e) => spec_deploy_result(
                    backend@.contracts,
                    old(self)@.state.nonce,
                    from@,
                    code@,
                ) == Err::<DeployedView, Seq<char>>(e@),
            },
    {
        let mut i: usize = 0;
        while i < backend.contracts.len()
            invariant
                self@ == old(self)@,
                from@.len() == 20,
                0 <= i <= backend.contracts@.len(),
                backend@.contracts.len() == backend.contracts@.len(),
                forall|j: int| 0 <= j < i ==> !spec_bytes_prefix(
                    code@,
                    (#[trigger] backend@.contracts[j]).code,
                ),
            decreases backend.contracts@.len() - i,
        {
            if bytes_starts_with(code.as_slice(), backend.contracts[i].code.as_slice()) {
                proof {
                    assert(backend@.contracts[i as int].code
                        == backend.contracts@[i as int].code@);
                    lemma_find_behavior_at(backend@.contracts, code@, i as int);
                }
                match &backend.contracts[i].deploy_reverts {
                    Some(reason) => {
                        proof {
                            assert(backend@.contracts[i as int].deploy_reverts matches Some(x)
                                && x == reason@);
                        }
                        return Err(reason.clone());
                    },
                    None => {
                        proof {
                            assert(backend@.contracts[i as int].deploy_reverts is None);
                            assert(backend@.contracts[i as int].deploy_gas
                                == backend.contracts@[i as int].deploy_gas);
                        }
                        let address = create_address(from, self.state.nonce);
                        let stored = clone_bytes(&address);
                        let gas = backend.contracts[i].deploy_gas;
                        self.state.instances.push(
                            Instance { address: stored, behavior: i, failed: false },
                        );
                        self.state.nonce = self.state.nonce.wrapping_add(1);
                        proof {
                            assert(self@.state.instances =~= old(self)@.state.instances.push(
                                InstanceView {
                                    address: spec_create_address(from@, old(self)@.state.nonce),
                                    behavior: i as usize,
                                    failed: false,
                                },
                            ));
                            assert(self@.state =~= spec_deploy_state(
                                backend@.contracts,
                                old(self)@.state,
                                from@,
                                code@,
                            ));
                        }
                        return Ok(Deployed { address, gas });
                    },
                }
            }
            proof {
                assert(backend@.contracts[i as int].code == backend.contracts@[i as int].code@);
            }
            i = i + 1;
        }
        proof {
            lemma_find_behavior_at(backend@.contracts, code@, i as int);
        }
        Err("no behaviour is declared for this bytecode".to_owned())
    }

    fn calldata_selector(data: &Vec<u8>) -> (r: Vec<u8>)
        ensures
            r@ == spec_selector_of_calldata(data@),
    {
        let mut r: Vec<u8> = Vec::new();
        let n: usize = if data.len() >= 4 {
            4
        } else {
            data.len()
        };
        let mut i: usize = 0;
        while i < n
            invariant
                0 <= i <= n <= data@.len(),
                n == (if data@.len() >= 4 {
                    4int
                } else {
                    data@.len() as int
                }),
                r@ == data@.subrange(0, i as int),
            decreases n - i,
        {
            r.push(data[i]);
            proof {
                assert(r@ =~= data@.subrange(0, i + 1 as int));
            }
            i = i + 1;
        }
        proof {
            if data@.len() < 4 {
                assert(data@.subrange(0, data@.len() as int) =~= data@);
            }
        }
        r
    }

    fn behavior_outcome(b: &CallBehavior, data: &Vec<u8>) -> (r: (CallOutcome, bool))
        ensures
            r.0@ == spec_behavior_outcome(b@, data@),
            r.1 == spec_behavior_sets_flag(b@),
    {
        match b {
            CallBehavior::Fixed { reverted, reason, gas, logs, sets_failed_flag } => {
                let outcome = CallOutcome {
                    reverted: *reverted,
                    reason: clone_opt_string(reason),
                    gas: *gas,
                    logs: clone_strings(logs),
                };
                (outcome, *sets_failed_flag)
            },
            CallBehavior::RevertIfArgAbove { arg_index, threshold, revert_reason, gas } => {
                let n: usize = data.len();
                let idx: usize = *arg_index;
                let has_arg: bool = n >= 36 && idx <= (n - 36) / 32;
                proof {
                    assert(has_arg == spec_has_args(data@, idx + 1)) by (nonlinear_arith)
                        requires
                            n == data@.len(),
                            has_arg == (n >= 36 && idx <= (n - 36) / 32),
                    ;
                }
                if has_arg {
                    let v: u64 = decode_arg(data, idx);
                    if v > *threshold {
                        let outcome = CallOutcome {
                            reverted: true,
                            reason: Some(revert_reason.clone()),
                            gas: *gas,
                            logs: Vec::new(),
                        };
                        proof {
                            assert(outcome@.logs =~= Seq::<Seq<char>>::empty());
                        }
                        return (outcome, false);
                    }
                }
                let outcome = CallOutcome {
                    reverted: false,
                    reason: None,
                    gas: *gas,
                    logs: Vec::new(),
                };
                proof {
                    assert(outcome@.logs =~= Seq::<Seq<char>>::empty());
                }
                (outcome, false)
            },
        }
    }

    /// Calls the contract at `to` with the given call data; the first four
    /// bytes select the function whose declared behaviour decides the
    /// outcome.
    pub fn call(
        &mut self,
        backend: &Backend,
        from: &Vec<u8>,
        to: &Vec<u8>,
        data: &Vec<u8>,
        value: u128,
    ) -> (r: CallOutcome)
        ensures
            r@ == spec_call_outcome(backend@.contracts, old(self)@.state, to@, data@),
            final(self)@ == (ExecutorView {
                state: spec_call_state(backend@.contracts, old(self)@.state, to@, data@),
                ..old(self)@
            }),
    {
        let found = self.find_instance(to);
        match found {
            None => {
                let outcome = CallOutcome {
                    reverted: true,
                    reason: Some("call target is not deployed".to_owned()),
                    gas: 0,
                    logs: Vec::new(),
                };
                proof {
                    assert(outcome@.logs =~= Seq::<Seq<char>>::empty());
                }
                outcome
            },
            Some(i) => {
                let bi: usize = self.state.instances[i].behavior;
                proof {
                    assert(self@.state.instances[i as int].behavior
                        == self.state.instances@[i as int].behavior);
                }
                if bi < backend.contracts.len() {
                    let selector = Self::calldata_selector(data);
                    let mut fi: usize = 0;
                    let nf: usize = backend.contracts[bi].functions.len();
                    while fi < nf
                        invariant
                            self@ == old(self)@,
                            bi < backend.contracts@.len(),
                            backend@.contracts.len() == backend.contracts@.len(),
                            nf == backend@.contracts[bi as int].functions.len(),
                            0 <= fi <= nf,
                            selector@ == spec_selector_of_calldata(data@),
                            spec_find_instance(old(self)@.state.instances, to@) == Some(i as int),
                            i < old(self)@.state.instances.len(),
                            old(self)@.state.instances[i as int].behavior == bi,
                            forall|j: int| 0 <= j < fi ==> spec_selector(
                                (#[trigger] backend@.contracts[bi as int].functions[j]).signature,
                            ) != selector@,
                        decreases nf - fi,
                    {
                        let fb = &backend.contracts[bi].functions[fi];
                        let fsel = crate::hash::selector_of(fb.signature.as_str());
                        proof {
                            assert(backend@.contracts[bi as int].functions[fi as int].signature
                                == backend.contracts@[bi as int].functions@[fi as int].signature@);
                        }
                        if bytes_eq(fsel.as_slice(), selector.as_slice()) {
                            proof {
                                lemma_find_function_at(
                                    backend@.contracts[bi as int].functions,
                                    selector@,
                                    fi as int,
                                );
                            }
                            let (outcome, sets_flag) = Self::behavior_outcome(&fb.behavior, data);
                            proof {
                                assert(backend@.contracts[bi as int].functions[fi as int].behavior
                                    == backend.contracts@[bi as int].functions@[fi as int].behavior@);
                            }
                            if sets_flag {
                                let mut inst = self.state.instances.remove(i);
                                inst.failed = true;
                                self.state.instances.insert(i, inst);
                                proof {
                                    assert(self@.state.instances =~= old(
                                        self,
                                    )@.state.instances.update(
                                        i as int,
                                        InstanceView {
                                            address: old(self)@.state.instances[i as int].address,
                                            behavior: old(self)@.state.instances[i as int].behavior,
                                            failed: true,
                                        },
                                    ));
                                    assert(self@.state =~= spec_call_state(
                                        backend@.contracts,
                                        old(self)@.state,
                                        to@,
                                        data@,
                                    ));
                                }
                            }
                            return outcome;
                        }
                        fi = fi + 1;
                    }
                    proof {
                        lemma_find_function_at(
                            backend@.contracts[bi as int].functions,
                            selector@,
                            fi as int,
                        );
                    }
                    let outcome = CallOutcome {
                        reverted: false,
                        reason: None,
                        gas: 0,
                        logs: Vec::new(),
                    };
                    proof {
                        assert(outcome@.logs =~= Seq::<Seq<char>>::empty());
                    }
                    outcome
                } else {
                    let outcome = CallOutcome {
                        reverted: false,
                        reason: None,
                        gas: 0,
                        logs: Vec::new(),
                    };
                    proof {
                        assert(outcome@.logs =~= Seq::<Seq<char>>::empty());
                    }
                    outcome
                }
            },
        }
    }

    /// Records the current overlay and returns its snapshot id.
    pub fn snapshot(&mut self) -> (id: usize)
        ensures
            final(self)@ == (ExecutorView {
                snapshots: old(self)@.snapshots.push(old(self)@.state),
                ..old(self)@
            }),
            id == old(self)@.snapshots.len(),
    {
        let id = self.snapshots.len();
        let copy = clone_state(&self.state);
        self.snapshots.push(copy);
        proof {
            assert(self@.snapshots =~= old(self)@.snapshots.push(old(self)@.state));
        }
        id
    }

    /// Restores a snapshot; returns whether the id was valid. The snapshot
    /// stays available for further restores.
    pub fn revert_to(&mut self, id: usize) -> (r: bool)
        ensures
            r == (id < old(self)@.snapshots.len()),
            r ==> final(self)@ == (ExecutorView {
                state: old(self)@.snapshots[id as int],
                ..old(self)@
            }),
            !r ==> final(self)@ == old(self)@,
    {
        if id < self.snapshots.len() {
            let st = clone_state(&self.snapshots[id]);
            self.state = st;
            proof {
                assert(self.snapshots@[id as int]@ == old(self)@.snapshots[id as int]);
            }
            true
        } else {
            false
        }
    }

    /// Reads a storage word; slot zero holds the DSTest failed flag.
    pub fn load_storage(&self, addr: &Vec<u8>, slot: u64) -> (r: u64)
        ensures
            slot == 0 ==> r == (if spec_is_failed(self@.state, addr@) {
                1u64
            } else {
                0u64
            }),
            slot != 0 ==> r == 0,
    {
        if slot != 0 {
            return 0;
        }
        match self.find_instance(addr) {
            Some(i) => {
                proof {
                    assert(self@.state.instances[i as int].failed
                        == self.state.instances@[i as int].failed);
                }
                if self.state.instances[i].failed {
                    1
                } else {
                    0
                }
            },
            None => 0,
        }
    }
}

/// Relates the recursive balance update to a positional splice.
proof fn lemma_set_balance_at(
    balances: Seq<(Seq<u8>, u128)>,
    addr: Seq<u8>,
    amount: u128,
    i: int,
)
    requires
        0 <= i <= balances.len(),
        forall|j: int| 0 <= j < i ==> (#[trigger] balances[j]).0 != addr,
    ensures
        i < balances.len() && balances[i].0 == addr ==> spec_set_balance(balances, addr, amount)
            == balances.subrange(0, i) + seq![(addr, amount)] + balances.subrange(
            i + 1,
            balances.len() as int,
        ),
        i == balances.len() ==> spec_set_balance(balances, addr, amount) == balances + seq![
            (addr, amount),
        ],
    decreases i,
{
    if balances.len() == 0 {
        assert(spec_set_balance(balances, addr, amount) =~= balances + seq![(addr, amount)]);
    } else if i == 0 {
        if balances[0].0 == addr {
            assert(spec_set_balance(balances, addr, amount) =~= balances.subrange(0, 0) + seq![
                (addr, amount),
            ] + balances.subrange(1, balances.len() as int));
        }
    } else {
        let tail = balances.skip(1);
        assert(forall|j: int| 0 <= j < i - 1 ==> (#[trigger] tail[j]) == balances[j + 1]);
        lemma_set_balance_at(tail, addr, amount, i - 1);
        if i < balances.len() && balances[i].0 == addr {
            assert(tail[i - 1] == balances[i]);
            assert(spec_set_balance(balances, addr, amount) =~= balances.subrange(0, i) + seq![
                (addr, amount),
            ] + balances.subrange(i + 1, balances.len() as int)) by {
                assert(spec_set_balance(balances, addr, amount) == seq![balances[0]]
                    + spec_set_balance(tail, addr, amount));
                assert(tail.subrange(0, i - 1) =~= balances.subrange(1, i));
                assert(tail.subrange(i, tail.len() as int) =~= balances.subrange(
                    i + 1,
                    balances.len() as int,
                ));
            }
        } else if i == balances.len() {
            assert(spec_set_balance(balances, addr, amount) =~= balances + seq![(addr, amount)])
                by {
                assert(spec_set_balance(balances, addr, amount) == seq![balances[0]]
                    + spec_set_balance(tail, addr, amount));
            }
        }
    }
}


} // verus!
