use vstd::prelude::*;
use crate::artifact::{
    ArtifactId, ArtifactIdView, CompiledContract, CompiledContractView, DeployableContract,
    DeployableContractView, KnownContract, KnownContractView, LibraryRef, LibraryRefView,
};
use crate::omap::{StrMap, entries_contains, lemma_insert_get};
use crate::strutil::{str_cmp, StrOrd, lemma_str_lt_irrefl};
use crate::rlp::create_address;
use crate::hash::clone_bytes;

verus! {

/// A linked test suite with its identity.
pub struct TestContract {
    pub id: ArtifactId,
    pub contract: DeployableContract,
}

#[verifier::ext_equal]
pub ghost struct TestContractView {
    pub id: ArtifactIdView,
    pub contract: DeployableContractView,
}

impl View for TestContract {
    type V = TestContractView;

    open spec fn view(&self) -> TestContractView {
        TestContractView { id: self.id@, contract: self.contract@ }
    }
}

/// Why one artifact could not be linked. The offending suite is dropped; the
/// rest of the set continues.
pub enum LinkFailure {
    /// A referenced library is not among the artifacts.
    UnresolvedLibrary { file: String, name: String },
    /// A library reference points outside the bytecode.
    MalformedBytecode,
    /// The library dependency graph does not resolve (a cycle).
    CyclicDependency,
}

/// What the linker produces: the deployable test suites, the known-contracts
/// map for trace identification, and the artifacts that failed to link.
pub struct LinkOutput {
    pub deployable: StrMap<TestContract>,
    pub known: StrMap<KnownContract>,
    pub failures: Vec<(ArtifactId, LinkFailure)>,
}

pub open spec fn spec_arts_view(arts: Seq<(ArtifactId, CompiledContract)>) -> Seq<
    (ArtifactIdView, CompiledContractView),
> {
    arts.map_values(|p: (ArtifactId, CompiledContract)| (p.0@, p.1@))
}

/// What every entry of the deployable map guarantees: it came from an input
/// artifact that is a test suite with deployable bytecode, its stored
/// bytecode and library list are exactly what `spec_link_code` produces for
/// that artifact from the empty linker state (so every reference offset
/// holds the address `create_address(sender, k)` of the k-th deployed
/// library), and a contract without library references keeps its bytecode
/// byte for byte.
pub open spec fn spec_test_entry_ok(
    arts: Seq<(ArtifactIdView, CompiledContractView)>,
    sender: Seq<u8>,
    key: Seq<char>,
    tc: TestContractView,
) -> bool {
    exists|i: int|
        0 <= i < arts.len() && {
            &&& key == (#[trigger] arts[i]).0.spec_identifier()
            &&& tc.id == arts[i].0
            &&& tc.contract.abi == arts[i].1.abi
            &&& arts[i].1.abi.spec_is_test_suite()
            &&& arts[i].1.creation_bytecode is Some
            &&& (arts[i].1.library_refs.len() == 0 ==> tc.contract.bytecode
                == arts[i].1.creation_bytecode->Some_0 && tc.contract.libraries.len() == 0)
            &&& spec_link_code(
                arts,
                arts[i].1.creation_bytecode->Some_0,
                arts[i].1.library_refs,
                sender,
                spec_empty_link_state(),
                spec_link_fuel(arts.len() as nat),
            ) matches Ok(lr) && tc.contract.bytecode == lr.0 && tc.contract.libraries == lr.1.deps
        }
}

/// Whether an artifact's creation bytecode links: it is the condition under
/// which a test-suite artifact enters the deployable map.
pub open spec fn spec_links_ok(
    arts: Seq<(ArtifactIdView, CompiledContractView)>,
    c: CompiledContractView,
    sender: Seq<u8>,
) -> bool {
    c.creation_bytecode matches Some(b) && spec_link_code(
        arts,
        b,
        c.library_refs,
        sender,
        spec_empty_link_state(),
        spec_link_fuel(arts.len() as nat),
    ) is Ok
}

/// What every entry of the known-contracts map guarantees: it is an input
/// artifact with non-empty deployed bytecode, kept byte for byte.
pub open spec fn spec_known_entry_ok(
    arts: Seq<(ArtifactIdView, CompiledContractView)>,
    key: Seq<char>,
    kc: KnownContractView,
) -> bool {
    exists|i: int|
        0 <= i < arts.len() && {
            &&& key == (#[trigger] arts[i]).0.spec_identifier()
            &&& kc.abi == arts[i].1.abi
            &&& arts[i].1.deployed_bytecode matches Some(b) && b.len() > 0
                && kc.deployed_bytecode == b
        }
}

fn clone_abi(abi: &crate::artifact::Abi) -> (r: crate::artifact::Abi)
    ensures
        r@ == abi@,
{
    let constructor: Option<Vec<String>> = match &abi.constructor {
        Some(ins) => Some(crate::evm::clone_strings(ins)),
        None => None,
    };
    let mut functions: Vec<crate::artifact::AbiFunction> = Vec::new();
    let mut i: usize = 0;
    while i < abi.functions.len()
        invariant
            0 <= i <= abi.functions@.len(),
            functions@.len() == i,
            forall|k: int| 0 <= k < i ==> (#[trigger] functions@[k])@ == abi.functions@[k]@,
        decreases abi.functions@.len() - i,
    {
        let f = &abi.functions[i];
        functions.push(
            crate::artifact::AbiFunction {
                name: f.name.clone(),
                inputs: crate::evm::clone_strings(&f.inputs),
            },
        );
        i = i + 1;
    }
    let r = crate::artifact::Abi { constructor, functions };
    proof {
        assert(r@.functions =~= abi@.functions);
        match &abi.constructor {
            Some(ins) => {
                assert(r@.constructor->Some_0 =~= abi@.constructor->Some_0);
                assert(r@.constructor =~= abi@.constructor);
            },
            None => {},
        }
        assert(r@ =~= abi@);
    }
    r
}

/// Writes the 20 address bytes at `offset` of `code`.
fn patch_address(code: &mut Vec<u8>, offset: usize, addr: &Vec<u8>) -> (r: bool)
    requires
        addr@.len() == 20,
    ensures
        r == (offset + 20 <= old(code)@.len()),
        r ==> final(code)@ == old(code)@.subrange(0, offset as int) + addr@ + old(
            code,
        )@.subrange(offset + 20, old(code)@.len() as int),
        !r ==> final(code)@ == old(code)@,
{
    let n: usize = code.len();
    if offset > n || n - offset < 20 {
        return false;
    }
    let mut t: usize = 0;
    while t < 20
        invariant
            0 <= t <= 20,
            n == old(code)@.len(),
            offset + 20 <= n,
            offset + 20 <= code@.len(),
            addr@.len() == 20,
            code@.len() == old(code)@.len(),
            forall|j: int| 0 <= j < offset ==> code@[j] == old(code)@[j],
            forall|j: int| 0 <= j < t ==> code@[offset + j] == addr@[j],
            forall|j: int| offset + 20 <= j < code@.len() ==> code@[j] == old(code)@[j],
            forall|j: int| offset + t <= j < code@.len() ==> code@[j] == old(code)@[j],
        decreases 20 - t,
    {
        code[offset + t] = addr[t];
        t = t + 1;
    }
    proof {
        assert(code@ =~= old(code)@.subrange(0, offset as int) + addr@ + old(code)@.subrange(
            offset + 20,
            old(code)@.len() as int,
        ));
    }
    true
}

fn id_matches(id: &ArtifactId, file: &String, name: &String) -> (r: bool)
    ensures
        r == (id@.source == file@ && id@.name == name@),
{
    let c1 = str_cmp(id.source.as_str(), file.as_str());
    let c2 = str_cmp(id.name.as_str(), name.as_str());
    proof {
        if id@.source == file@ {
            lemma_str_lt_irrefl(file@);
        }
        if id@.name == name@ {
            lemma_str_lt_irrefl(name@);
        }
    }
    c1 == StrOrd::Eq && c2 == StrOrd::Eq
}


/// The evolving linker state: the libraries already assigned an address, and
/// their linked creation bytecodes in deployment order.
#[verifier::ext_equal]
pub ghost struct LinkStateView {
    pub assigned: Seq<(Seq<char>, Seq<char>, Seq<u8>)>,
    pub deps: Seq<Seq<u8>>,
}

pub open spec fn spec_empty_link_state() -> LinkStateView {
    LinkStateView {
        assigned: Seq::<(Seq<char>, Seq<char>, Seq<u8>)>::empty(),
        deps: Seq::<Seq<u8>>::empty(),
    }
}

pub open spec fn spec_assigned_view(assigned: Seq<(String, String, Vec<u8>)>) -> Seq<
    (Seq<char>, Seq<char>, Seq<u8>),
> {
    assigned.map_values(|p: (String, String, Vec<u8>)| (p.0@, p.1@, p.2@))
}

pub open spec fn spec_deps_view(deps: Seq<Vec<u8>>) -> Seq<Seq<u8>> {
    deps.map_values(|d: Vec<u8>| d@)
}

/// The fuel the linker runs with: one more than the number of artifacts, so
/// only a dependency cycle can exhaust it.
pub open spec fn spec_link_fuel(n: nat) -> nat {
    if n < usize::MAX {
        n + 1
    } else {
        usize::MAX as nat
    }
}

/// The first already-assigned address for the library `(file, name)`.
pub open spec fn spec_find_assigned(
    assigned: Seq<(Seq<char>, Seq<char>, Seq<u8>)>,
    file: Seq<char>,
    name: Seq<char>,
) -> Option<int>
    decreases assigned.len(),
{
    if assigned.len() == 0 {
        None
    } else if assigned[0].0 == file && assigned[0].1 == name {
        Some(0)
    } else {
        match spec_find_assigned(assigned.skip(1), file, name) {
            Some(i) => Some(i + 1),
            None => None,
        }
    }
}

/// The first artifact whose source and name match the library reference.
pub open spec fn spec_find_artifact(
    arts: Seq<(ArtifactIdView, CompiledContractView)>,
    file: Seq<char>,
    name: Seq<char>,
) -> Option<int>
    decreases arts.len(),
{
    if arts.len() == 0 {
        None
    } else if arts[0].0.source == file && arts[0].0.name == name {
        Some(0)
    } else {
        match spec_find_artifact(arts.skip(1), file, name) {
            Some(i) => Some(i + 1),
            None => None,
        }
    }
}

/// The 20 address bytes written over `code` at `offset`.
pub open spec fn spec_splice(code: Seq<u8>, offset: int, addr: Seq<u8>) -> Seq<u8> {
    code.subrange(0, offset) + addr + code.subrange(offset + 20, code.len() as int)
}

/// The code after patching the address at every offset, in order; `None`
/// when an offset points outside the bytecode.
pub open spec fn spec_patch_offsets(code: Seq<u8>, offsets: Seq<usize>, addr: Seq<u8>) -> Option<
    Seq<u8>,
>
    decreases offsets.len(),
{
    if offsets.len() == 0 {
        Some(code)
    } else if offsets[0] + 20 <= code.len() {
        spec_patch_offsets(spec_splice(code, offsets[0] as int, addr), offsets.skip(1), addr)
    } else {
        None
    }
}

/// What linking one bytecode means: each reference in order resolves to an
/// address and is patched at all its offsets. Resolution first reuses an
/// already assigned library; otherwise it links the referenced artifact's own
/// bytecode depth first, derives the address `create_address(sender, k)` for
/// the k-th deployed library, and records the linked bytecode as the next
/// dependency. `Err` when a reference has no artifact or bytecode, an offset
/// is out of bounds, or the fuel runs out (a dependency cycle).
pub open spec fn spec_link_code(
    arts: Seq<(ArtifactIdView, CompiledContractView)>,
    code: Seq<u8>,
    refs: Seq<LibraryRefView>,
    sender: Seq<u8>,
    st: LinkStateView,
    fuel: nat,
) -> Result<(Seq<u8>, LinkStateView), ()>
    decreases fuel, refs.len(), 2nat,
{
    if refs.len() == 0 {
        Ok((code, st))
    } else if fuel == 0 {
        Err(())
    } else {
        spec_link_refs(arts, code, refs, sender, st, fuel)
    }
}

/// Folds the references of one bytecode, left to right.
pub open spec fn spec_link_refs(
    arts: Seq<(ArtifactIdView, CompiledContractView)>,
    code: Seq<u8>,
    refs: Seq<LibraryRefView>,
    sender: Seq<u8>,
    st: LinkStateView,
    fuel: nat,
) -> Result<(Seq<u8>, LinkStateView), ()>
    decreases fuel, refs.len(), 1nat,
{
    if fuel == 0 {
        Err(())
    } else if refs.len() == 0 {
        Ok((code, st))
    } else {
        match spec_resolve_ref(arts, refs[0].file, refs[0].name, sender, st, fuel) {
            Err(e) => Err(e),
            Ok((addr, st1)) => match spec_patch_offsets(code, refs[0].offsets, addr) {
                None => Err(()),
                Some(code1) => spec_link_refs(arts, code1, refs.skip(1), sender, st1, fuel),
            },
        }
    }
}

/// Resolves one library reference to its deployment address.
pub open spec fn spec_resolve_ref(
    arts: Seq<(ArtifactIdView, CompiledContractView)>,
    file: Seq<char>,
    name: Seq<char>,
    sender: Seq<u8>,
    st: LinkStateView,
    fuel: nat,
) -> Result<(Seq<u8>, LinkStateView), ()>
    decreases fuel, 0nat, 0nat,
{
    if fuel == 0 {
        Err(())
    } else {
        match spec_find_assigned(st.assigned, file, name) {
            Some(k) => Ok((st.assigned[k].2, st)),
            None => match spec_find_artifact(arts, file, name) {
                None => Err(()),
                Some(t) => match arts[t].1.creation_bytecode {
                    None => Err(()),
                    Some(lib_code) => match spec_link_code(
                        arts,
                        lib_code,
                        arts[t].1.library_refs,
                        sender,
                        st,
                        (fuel - 1) as nat,
                    ) {
                        Err(e) => Err(e),
                        Ok((linked, st1)) => {
                            let addr = crate::rlp::spec_create_address(
                                sender,
                                st1.deps.len() as u64,
                            );
                            Ok(
                                (
                                    addr,
                                    LinkStateView {
                                        assigned: st1.assigned.push((file, name, addr)),
                                        deps: st1.deps.push(linked),
                                    },
                                ),
                            )
                        },
                    },
                },
            },
        }
    }
}

pub proof fn lemma_find_assigned_bounds(
    assigned: Seq<(Seq<char>, Seq<char>, Seq<u8>)>,
    file: Seq<char>,
    name: Seq<char>,
)
    ensures
        spec_find_assigned(assigned, file, name) matches Some(i) ==> 0 <= i < assigned.len(),
    decreases assigned.len(),
{
    if assigned.len() > 0 && !(assigned[0].0 == file && assigned[0].1 == name) {
        lemma_find_assigned_bounds(assigned.skip(1), file, name);
    }
}

/// The first-match characterisation of the assigned-library scan.
proof fn lemma_find_assigned_at(
    assigned: Seq<(Seq<char>, Seq<char>, Seq<u8>)>,
    file: Seq<char>,
    name: Seq<char>,
    i: int,
)
    requires
        0 <= i <= assigned.len(),
        forall|j: int| 0 <= j < i ==> !((#[trigger] assigned[j]).0 == file && assigned[j].1
            == name),
    ensures
        i < assigned.len() && assigned[i].0 == file && assigned[i].1 == name ==> spec_find_assigned(
            assigned,
            file,
            name,
        ) == Some(i),
        i == assigned.len() ==> spec_find_assigned(assigned, file, name) is None,
    decreases i,
{
    if assigned.len() == 0 {
    } else if i == 0 {
    } else {
        let tail = assigned.skip(1);
        assert(forall|j: int| 0 <= j < i - 1 ==> (#[trigger] tail[j]) == assigned[j + 1]);
        lemma_find_assigned_at(tail, file, name, i - 1);
        if i < assigned.len() && assigned[i].0 == file && assigned[i].1 == name {
            assert(tail[i - 1] == assigned[i]);
        }
    }
}

/// The first-match characterisation of the artifact scan.
proof fn lemma_find_artifact_at(
    arts: Seq<(ArtifactIdView, CompiledContractView)>,
    file: Seq<char>,
    name: Seq<char>,
    i: int,
)
    requires
        0 <= i <= arts.len(),
        forall|j: int| 0 <= j < i ==> !((#[trigger] arts[j]).0.source == file && arts[j].0.name
            == name),
    ensures
        i < arts.len() && arts[i].0.source == file && arts[i].0.name == name ==> spec_find_artifact(
            arts,
            file,
            name,
        ) == Some(i),
        i == arts.len() ==> spec_find_artifact(arts, file, name) is None,
    decreases i,
{
    if arts.len() == 0 {
    } else if i == 0 {
    } else {
        let tail = arts.skip(1);
        assert(forall|j: int| 0 <= j < i - 1 ==> (#[trigger] tail[j]) == arts[j + 1]);
        lemma_find_artifact_at(tail, file, name, i - 1);
        if i < arts.len() && arts[i].0.source == file && arts[i].0.name == name {
            assert(tail[i - 1] == arts[i]);
        }
    }
}

fn find_assigned(
    assigned: &Vec<(String, String, Vec<u8>)>,
    file: &String,
    name: &String,
) -> (r: Option<usize>)
    ensures
        match r {
            Some(i) => i < assigned@.len() && spec_find_assigned(
                spec_assigned_view(assigned@),
                file@,
                name@,
            ) == Some(i as int),
            None => spec_find_assigned(spec_assigned_view(assigned@), file@, name@) is None,
        },
{
    let ghost av = spec_assigned_view(assigned@);
    let mut a: usize = 0;
    while a < assigned.len()
        invariant
            av == spec_assigned_view(assigned@),
            av.len() == assigned@.len(),
            0 <= a <= av.len(),
            forall|j: int| 0 <= j < a ==> !((#[trigger] av[j]).0 == file@ && av[j].1 == name@),
        decreases av.len() - a,
    {
        proof {
            assert(av[a as int] == (assigned@[a as int].0@, assigned@[a as int].1@, assigned@[
                a as int].2@));
        }
        let c1 = str_cmp(assigned[a].0.as_str(), file.as_str());
        let c2 = str_cmp(assigned[a].1.as_str(), name.as_str());
        proof {
            if av[a as int].0 == file@ {
                lemma_str_lt_irrefl(file@);
            }
            if av[a as int].1 == name@ {
                lemma_str_lt_irrefl(name@);
            }
        }
        if c1 == StrOrd::Eq && c2 == StrOrd::Eq {
            proof {
                lemma_find_assigned_at(av, file@, name@, a as int);
            }
            return Some(a);
        }
        a = a + 1;
    }
    proof {
        lemma_find_assigned_at(av, file@, name@, a as int);
    }
    None
}

fn find_artifact(
    artifacts: &Vec<(ArtifactId, CompiledContract)>,
    file: &String,
    name: &String,
) -> (r: Option<usize>)
    ensures
        match r {
            Some(i) => i < artifacts@.len() && spec_find_artifact(
                spec_arts_view(artifacts@),
                file@,
                name@,
            ) == Some(i as int),
            None => spec_find_artifact(spec_arts_view(artifacts@), file@, name@) is None,
        },
{
    let ghost arts = spec_arts_view(artifacts@);
    let mut t: usize = 0;
    while t < artifacts.len()
        invariant
            arts == spec_arts_view(artifacts@),
            arts.len() == artifacts@.len(),
            0 <= t <= arts.len(),
            forall|j: int| 0 <= j < t ==> !((#[trigger] arts[j]).0.source == file@
                && arts[j].0.name == name@),
        decreases arts.len() - t,
    {
        proof {
            assert(arts[t as int] == (artifacts@[t as int].0@, artifacts@[t as int].1@));
        }
        if id_matches(&artifacts[t].0, file, name) {
            proof {
                lemma_find_artifact_at(arts, file@, name@, t as int);
            }
            return Some(t);
        }
        t = t + 1;
    }
    proof {
        lemma_find_artifact_at(arts, file@, name@, t as int);
    }
    None
}

/// Links one blob of creation bytecode: resolves every library reference to a
/// deterministic deployment address, patches it in, and records each library's
/// own linked bytecode, depth first, in deployment order. A bytecode without
/// references is returned unchanged. The result and the final linker state
/// are exactly `spec_link_code` of the inputs.
fn link_code(
    artifacts: &Vec<(ArtifactId, CompiledContract)>,
    code: Vec<u8>,
    refs: &Vec<LibraryRef>,
    sender: &Vec<u8>,
    assigned: &mut Vec<(String, String, Vec<u8>)>,
    deps: &mut Vec<Vec<u8>>,
    fuel: usize,
) -> (r: Result<Vec<u8>, LinkFailure>)
    requires
        sender@.len() == 20,
        forall|k: int| 0 <= k < old(assigned)@.len() ==> (#[trigger] old(assigned)@[k]).2@.len()
            == 20,
    ensures
        forall|k: int| 0 <= k < final(assigned)@.len() ==> (#[trigger] final(assigned)@[k]).2@.len()
            == 20,
        refs@.len() == 0 ==> (r matches Ok(c) && c@ == code@ && final(assigned)@ == old(assigned)@
            && final(deps)@ == old(deps)@),
        match r {
            Ok(c) => spec_link_code(
                spec_arts_view(artifacts@),
                code@,
                refs@.map_values(|x: LibraryRef| x@),
                sender@,
                LinkStateView {
                    assigned: spec_assigned_view(old(assigned)@),
                    deps: spec_deps_view(old(deps)@),
                },
                fuel as nat,
            ) == Ok::<(Seq<u8>, LinkStateView), ()>(
                (
                    c@,
                    LinkStateView {
                        assigned: spec_assigned_view(final(assigned)@),
                        deps: spec_deps_view(final(deps)@),
                    },
                ),
            ),
            Err(_) => spec_link_code(
                spec_arts_view(artifacts@),
                code@,
                refs@.map_values(|x: LibraryRef| x@),
                sender@,
                LinkStateView {
                    assigned: spec_assigned_view(old(assigned)@),
                    deps: spec_deps_view(old(deps)@),
                },
                fuel as nat,
            ) is Err,
        },
    decreases fuel,
{
    let ghost arts = spec_arts_view(artifacts@);
    let ghost refsv = refs@.map_values(|x: LibraryRef| x@);
    let ghost st0 = LinkStateView {
        assigned: spec_assigned_view(assigned@),
        deps: spec_deps_view(deps@),
    };
    let ghost code0 = code@;
    let mut cur = code;
    if refs.len() == 0 {
        proof {
            assert(spec_link_code(arts, code0, refsv, sender@, st0, fuel as nat) == Ok::<
                (Seq<u8>, LinkStateView),
                (),
            >((code0, st0)));
        }
        return Ok(cur);
    }
    if fuel == 0 {
        return Err(LinkFailure::CyclicDependency);
    }
    let ghost top = spec_link_code(arts, code0, refsv, sender@, st0, fuel as nat);
    proof {
        assert(top == spec_link_refs(arts, code0, refsv, sender@, st0, fuel as nat));
        assert(refsv.skip(0) =~= refsv);
    }
    let mut i: usize = 0;
    while i < refs.len()
        invariant
            sender@.len() == 20,
            refs@.len() != 0,
            fuel >= 1,
            arts == spec_arts_view(artifacts@),
            refsv == refs@.map_values(|x: LibraryRef| x@),
            refsv.len() == refs@.len(),
            0 <= i <= refsv.len(),
            code0 == code@,
            st0 == (LinkStateView {
                assigned: spec_assigned_view(old(assigned)@),
                deps: spec_deps_view(old(deps)@),
            }),
            top == spec_link_code(arts, code0, refsv, sender@, st0, fuel as nat),
            top == spec_link_refs(
                arts,
                cur@,
                refsv.skip(i as int),
                sender@,
                LinkStateView {
                    assigned: spec_assigned_view(assigned@),
                    deps: spec_deps_view(deps@),
                },
                fuel as nat,
            ),
            forall|k: int| 0 <= k < assigned@.len() ==> (#[trigger] assigned@[k]).2@.len() == 20,
        decreases refs@.len() - i,
    {
        let ghost stc = LinkStateView {
            assigned: spec_assigned_view(assigned@),
            deps: spec_deps_view(deps@),
        };
        proof {
            assert(refsv[i as int] == refs@[i as int]@);
            assert(refsv.skip(i as int)[0] == refsv[i as int]);
            assert(refsv.skip(i as int).skip(1) =~= refsv.skip(i + 1));
        }
        let file = &refs[i].file;
        let name = &refs[i].name;
        let found = find_assigned(assigned, file, name);
        let addr: Vec<u8> = match found {
            Some(a) => clone_bytes(&assigned[a].2),
            None => {
                match find_artifact(artifacts, file, name) {
                    None => {
                        proof {
                            assert(spec_resolve_ref(
                                arts,
                                refsv[i as int].file,
                                refsv[i as int].name,
                                sender@,
                                stc,
                                fuel as nat,
                            ) is Err);
                            assert(top is Err);
                        }
                        return Err(
                            LinkFailure::UnresolvedLibrary {
                                file: file.clone(),
                                name: name.clone(),
                            },
                        );
                    },
                    Some(t) => {
                        proof {
                            assert(arts[t as int] == (artifacts@[t as int].0@, artifacts@[
                                t as int].1@));
                        }
                        let lib_code: Vec<u8> = match &artifacts[t].1.creation_bytecode {
                            Some(b) => clone_bytes(b),
                            None => {
                                proof {
                                    assert(arts[t as int].1.creation_bytecode is None);
                                    assert(spec_resolve_ref(
                                        arts,
                                        refsv[i as int].file,
                                        refsv[i as int].name,
                                        sender@,
                                        stc,
                                        fuel as nat,
                                    ) is Err);
                                    assert(top is Err);
                                }
                                return Err(
                                    LinkFailure::UnresolvedLibrary {
                                        file: file.clone(),
                                        name: name.clone(),
                                    },
                                );
                            },
                        };
                        proof {
                            assert(arts[t as int].1.creation_bytecode matches Some(b) && b
                                == lib_code@);
                            assert(arts[t as int].1.library_refs == artifacts@[
                                t as int].1.library_refs@.map_values(|x: LibraryRef| x@));
                        }
                        let linked_lib = match link_code(
                            artifacts,
                            lib_code,
                            &artifacts[t].1.library_refs,
                            sender,
                            assigned,
                            deps,
                            fuel - 1,
                        ) {
                            Ok(l) => l,
                            Err(e) => {
                                proof {
                                    assert(spec_resolve_ref(
                                        arts,
                                        refsv[i as int].file,
                                        refsv[i as int].name,
                                        sender@,
                                        stc,
                                        fuel as nat,
                                    ) is Err);
                                    assert(top is Err);
                                }
                                return Err(e);
                            },
                        };
                        let ghost st_rec = LinkStateView {
                            assigned: spec_assigned_view(assigned@),
                            deps: spec_deps_view(deps@),
                        };
                        let ghost lv = linked_lib@;
                        let nonce: u64 = deps.len() as u64;
                        let address = create_address(sender, nonce);
                        let stored = clone_bytes(&address);
                        assigned.push((file.clone(), name.clone(), stored));
                        deps.push(linked_lib);
                        proof {
                            assert(spec_assigned_view(assigned@) =~= st_rec.assigned.push(
                                (file@, name@, address@),
                            ));
                            assert(spec_deps_view(deps@) =~= st_rec.deps.push(lv));
                        }
                        address
                    },
                }
            },
        };
        let ghost st1 = LinkStateView {
            assigned: spec_assigned_view(assigned@),
            deps: spec_deps_view(deps@),
        };
        proof {
            assert(spec_resolve_ref(arts, refsv[i as int].file, refsv[i as int].name, sender@, stc, fuel as nat)
                == Ok::<(Seq<u8>, LinkStateView), ()>((addr@, st1)));
        }
        // patch every occurrence of this library's placeholder
        let ghost codep = cur@;
        let ghost offsv = refsv[i as int].offsets;
        let mut o: usize = 0;
        proof {
            assert(offsv.skip(0) =~= offsv);
        }
        while o < refs[i].offsets.len()
            invariant
                addr@.len() == 20,
                fuel >= 1,
                0 <= i < refs@.len(),
                arts == spec_arts_view(artifacts@),
                refsv == refs@.map_values(|x: LibraryRef| x@),
                refsv.len() == refs@.len(),
                refsv[i as int] == refs@[i as int]@,
                offsv == refsv[i as int].offsets,
                offsv.len() == refs@[i as int].offsets@.len(),
                0 <= o <= offsv.len(),
                code0 == code@,
                st0 == (LinkStateView {
                    assigned: spec_assigned_view(old(assigned)@),
                    deps: spec_deps_view(old(deps)@),
                }),
                top == spec_link_code(arts, code0, refsv, sender@, st0, fuel as nat),
                top == spec_link_refs(
                    arts,
                    codep,
                    refsv.skip(i as int),
                    sender@,
                    stc,
                    fuel as nat,
                ),
                spec_resolve_ref(
                    arts,
                    refsv[i as int].file,
                    refsv[i as int].name,
                    sender@,
                    stc,
                    fuel as nat,
                ) == Ok::<(Seq<u8>, LinkStateView), ()>((addr@, st1)),
                st1 == (LinkStateView {
                    assigned: spec_assigned_view(assigned@),
                    deps: spec_deps_view(deps@),
                }),
                spec_patch_offsets(codep, offsv, addr@) == spec_patch_offsets(
                    cur@,
                    offsv.skip(o as int),
                    addr@,
                ),
                forall|k: int| 0 <= k < assigned@.len() ==> (#[trigger] assigned@[k]).2@.len()
                    == 20,
            decreases refs@[i as int].offsets@.len() - o,
        {
            proof {
                assert(offsv[o as int] == refs@[i as int].offsets@[o as int]);
                assert(offsv.skip(o as int)[0] == offsv[o as int]);
                assert(offsv.skip(o as int).skip(1) =~= offsv.skip(o + 1));
            }
            let offset: usize = refs[i].offsets[o];
            let ok = patch_address(&mut cur, offset, &addr);
            if !ok {
                proof {
                    assert(spec_patch_offsets(cur@, offsv.skip(o as int), addr@) is None);
                    assert(spec_patch_offsets(codep, offsv, addr@) is None);
                    assert(top is Err);
                }
                return Err(LinkFailure::MalformedBytecode);
            }
            o = o + 1;
        }
        proof {
            assert(offsv.skip(offsv.len() as int) =~= Seq::<usize>::empty());
            assert(spec_patch_offsets(codep, offsv, addr@) == Some(cur@));
        }
        i = i + 1;
    }
    proof {
        assert(refsv.skip(refsv.len() as int) =~= Seq::<LibraryRefView>::empty());
    }
    Ok(cur)
}

/// Links a set of compiled artifacts: walks them in order, classifies test
/// suites, resolves their library dependencies, and builds the deployable
/// and known-contracts maps, both keyed by suite identifier. An artifact
/// whose libraries cannot be resolved is dropped and reported in `failures`;
/// the rest of the set is still linked.
pub fn link(artifacts: &Vec<(ArtifactId, CompiledContract)>, sender: &Vec<u8>) -> (r: LinkOutput)
    requires
        sender@.len() == 20,
    ensures
        r.deployable.wf(),
        r.known.wf(),
        forall|j: int| 0 <= j < r.deployable@.len() ==> spec_test_entry_ok(
            spec_arts_view(artifacts@),
            sender@,
            (#[trigger] r.deployable@[j]).0,
            r.deployable@[j].1,
        ),
        forall|j: int| 0 <= j < r.known@.len() ==> spec_known_entry_ok(
            spec_arts_view(artifacts@),
            (#[trigger] r.known@[j]).0,
            r.known@[j].1,
        ),
        forall|p: int|
            0 <= p < artifacts@.len() && (#[trigger] spec_arts_view(
                artifacts@,
            )[p]).1.abi.spec_is_test_suite() && spec_links_ok(
                spec_arts_view(artifacts@),
                spec_arts_view(artifacts@)[p].1,
                sender@,
            ) ==> entries_contains(
                r.deployable@,
                spec_arts_view(artifacts@)[p].0.spec_identifier(),
            ),
        forall|p: int|
            0 <= p < artifacts@.len() ==> ((#[trigger] spec_arts_view(
                artifacts@,
            )[p]).1.deployed_bytecode matches Some(b) && b.len() > 0 ==> entries_contains(
                r.known@,
                spec_arts_view(artifacts@)[p].0.spec_identifier(),
            )),
{
    let ghost arts = spec_arts_view(artifacts@);
    let mut deployable: StrMap<TestContract> = StrMap::new();
    let mut known: StrMap<KnownContract> = StrMap::new();
    let mut failures: Vec<(ArtifactId, LinkFailure)> = Vec::new();
    let mut i: usize = 0;
    while i < artifacts.len()
        invariant
            sender@.len() == 20,
            arts == spec_arts_view(artifacts@),
            arts.len() == artifacts@.len(),
            0 <= i <= artifacts@.len(),
            deployable.wf(),
            known.wf(),
            forall|j: int| 0 <= j < deployable@.len() ==> spec_test_entry_ok(
                arts,
                sender@,
                (#[trigger] deployable@[j]).0,
                deployable@[j].1,
            ),
            forall|j: int| 0 <= j < known@.len() ==> spec_known_entry_ok(
                arts,
                (#[trigger] known@[j]).0,
                known@[j].1,
            ),
            forall|p: int|
                0 <= p < i && (#[trigger] arts[p]).1.abi.spec_is_test_suite() && spec_links_ok(
                    arts,
                    arts[p].1,
                    sender@,
                ) ==> entries_contains(deployable@, arts[p].0.spec_identifier()),
            forall|p: int|
                0 <= p < i ==> ((#[trigger] arts[p]).1.deployed_bytecode matches Some(b) && b.len()
                    > 0 ==> entries_contains(known@, arts[p].0.spec_identifier())),
        decreases artifacts@.len() - i,
    {
        let id = &artifacts[i].0;
        let contract = &artifacts[i].1;
        proof {
            assert(arts[i as int] == (artifacts@[i as int].0@, artifacts@[i as int].1@));
        }
        // a test suite with deployable bytecode is linked and recorded
        if contract.abi.is_test_suite() {
            match &contract.creation_bytecode {
                Some(code) => {
                    let key: String = id.identifier();
                    let code_copy = clone_bytes(code);
                    let mut assigned: Vec<(String, String, Vec<u8>)> = Vec::new();
                    let mut deps: Vec<Vec<u8>> = Vec::new();
                    let fuel: usize = if artifacts.len() < usize::MAX {
                        artifacts.len() + 1
                    } else {
                        usize::MAX
                    };
                    proof {
                        assert(fuel as nat == spec_link_fuel(arts.len() as nat));
                        assert(spec_assigned_view(assigned@) =~= spec_empty_link_state().assigned);
                        assert(spec_deps_view(deps@) =~= spec_empty_link_state().deps);
                        assert((LinkStateView {
                            assigned: spec_assigned_view(assigned@),
                            deps: spec_deps_view(deps@),
                        }) =~= spec_empty_link_state());
                    }
                    let linked = link_code(
                        artifacts,
                        code_copy,
                        &contract.library_refs,
                        sender,
                        &mut assigned,
                        &mut deps,
                        fuel,
                    );
                    match linked {
                        Ok(bytecode) => {
                            let tc = TestContract {
                                id: ArtifactId {
                                    source: id.source.clone(),
                                    name: id.name.clone(),
                                    version: id.version.clone(),
                                },
                                contract: DeployableContract {
                                    abi: clone_abi(&contract.abi),
                                    bytecode,
                                    libraries: deps,
                                },
                            };
                            let ghost dv0 = deployable@;
                            let ghost kk = key@;
                            let ghost tcv = tc@;
                            proof {
                                assert(spec_test_entry_ok(arts, sender@, kk, tcv)) by {
                                    if contract@.library_refs.len() == 0 {
                                        assert(tcv.contract.libraries =~= Seq::<Seq<u8>>::empty());
                                    }
                                    assert(tcv.contract.libraries =~= spec_deps_view(
                                        tc.contract.libraries@,
                                    ));
                                    assert(0 <= i < arts.len() && {
                                        &&& kk == arts[i as int].0.spec_identifier()
                                        &&& tcv.id == arts[i as int].0
                                        &&& tcv.contract.abi == arts[i as int].1.abi
                                        &&& arts[i as int].1.abi.spec_is_test_suite()
                                        &&& arts[i as int].1.creation_bytecode is Some
                                        &&& (arts[i as int].1.library_refs.len() == 0
                                            ==> tcv.contract.bytecode
                                            == arts[i as int].1.creation_bytecode->Some_0
                                            && tcv.contract.libraries.len() == 0)
                                        &&& spec_link_code(
                                            arts,
                                            arts[i as int].1.creation_bytecode->Some_0,
                                            arts[i as int].1.library_refs,
                                            sender@,
                                            spec_empty_link_state(),
                                            spec_link_fuel(arts.len() as nat),
                                        ) matches Ok(lr) && tcv.contract.bytecode == lr.0
                                            && tcv.contract.libraries == lr.1.deps
                                    });
                                }
                                assert(spec_links_ok(arts, arts[i as int].1, sender@));
                            }
                            deployable.insert(key, tc);
                            proof {
                                crate::omap::lemma_entries_insert_members_exact(dv0, kk, tcv);
                                assert forall|j: int| 0 <= j < deployable@.len()
                                    implies spec_test_entry_ok(
                                    arts,
                                    sender@,
                                    (#[trigger] deployable@[j]).0,
                                    deployable@[j].1,
                                ) by {
                                    if deployable@[j] == (kk, tcv) {
                                    } else {
                                        assert(dv0.contains(deployable@[j]));
                                        let w = choose|w: int|
                                            0 <= w < dv0.len() && dv0[w] == deployable@[j];
                                        assert(spec_test_entry_ok(
                                            arts,
                                            sender@,
                                            dv0[w].0,
                                            dv0[w].1,
                                        ));
                                    }
                                }
                                assert forall|q: Seq<char>| entries_contains(dv0, q)
                                    implies entries_contains(deployable@, q) by {
                                    lemma_insert_get(dv0, kk, tcv, q);
                                }
                                lemma_insert_get(dv0, kk, tcv, kk);
                                assert(entries_contains(deployable@, kk));
                            }
                        },
                        Err(e) => {
                            failures.push(
                                (
                                    ArtifactId {
                                        source: id.source.clone(),
                                        name: id.name.clone(),
                                        version: id.version.clone(),
                                    },
                                    e,
                                ),
                            );
                            proof {
                                // this artifact does not link, so no
                                // completeness obligation arises for it
                                assert(!spec_links_ok(arts, arts[i as int].1, sender@));
                            }
                        },
                    }
                },
                None => {},
            }
        }
        // every contract with non-empty deployed bytecode is a known contract
        match &contract.deployed_bytecode {
            Some(deployed) => {
                if deployed.len() > 0 {
                    let key: String = id.identifier();
                    let kc = KnownContract {
                        abi: clone_abi(&contract.abi),
                        deployed_bytecode: clone_bytes(deployed),
                    };
                    let ghost kv0 = known@;
                    let ghost kk = key@;
                    let ghost kcv = kc@;
                    proof {
                        assert(spec_known_entry_ok(arts, kk, kcv)) by {
                            assert(0 <= i < arts.len() && {
                                &&& kk == arts[i as int].0.spec_identifier()
                                &&& kcv.abi == arts[i as int].1.abi
                                &&& arts[i as int].1.deployed_bytecode matches Some(b) && b.len()
                                    > 0 && kcv.deployed_bytecode == b
                            });
                        }
                    }
                    known.insert(key, kc);
                    proof {
                        crate::omap::lemma_entries_insert_members_exact(kv0, kk, kcv);
                        assert forall|j: int| 0 <= j < known@.len() implies spec_known_entry_ok(
                            arts,
                            (#[trigger] known@[j]).0,
                            known@[j].1,
                        ) by {
                            if known@[j] == (kk, kcv) {
                            } else {
                                assert(kv0.contains(known@[j]));
                                let w = choose|w: int| 0 <= w < kv0.len() && kv0[w] == known@[j];
                                assert(spec_known_entry_ok(arts, kv0[w].0, kv0[w].1));
                            }
                        }
                        assert forall|q: Seq<char>| entries_contains(kv0, q)
                            implies entries_contains(known@, q) by {
                            lemma_insert_get(kv0, kk, kcv, q);
                        }
                        lemma_insert_get(kv0, kk, kcv, kk);
                        assert(entries_contains(known@, kk));
                    }
                }
            },
            None => {},
        }
        i = i + 1;
    }
    LinkOutput { deployable, known, failures }
}

} // verus!
