use vstd::prelude::*;
use vstd::string::StringExecFns;
use crate::strutil::{spec_join_commas, join_commas, spec_starts_with, starts_with_str};

verus! {

/// The identity of one compiled contract.
pub struct ArtifactId {
    pub source: String,
    pub name: String,
    pub version: String,
}

#[verifier::ext_equal]
pub ghost struct ArtifactIdView {
    pub source: Seq<char>,
    pub name: Seq<char>,
    pub version: Seq<char>,
}

impl View for ArtifactId {
    type V = ArtifactIdView;

    open spec fn view(&self) -> ArtifactIdView {
        ArtifactIdView { source: self.source@, name: self.name@, version: self.version@ }
    }
}

impl ArtifactIdView {
    /// The canonical suite key: `<source_path>:<contract_name>`.
    pub open spec fn spec_identifier(&self) -> Seq<char> {
        self.source + seq![':'] + self.name
    }
}

impl ArtifactId {
    pub fn new(source: &str, name: &str, version: &str) -> (r: ArtifactId)
        ensures
            r@.source == source@,
            r@.name == name@,
            r@.version == version@,
    {
        ArtifactId { source: source.to_owned(), name: name.to_owned(), version: version.to_owned() }
    }

    /// The suite identifier `<source_path>:<contract_name>`.
    pub fn identifier(&self) -> (r: String)
        ensures
            r@ == self@.spec_identifier(),
    {
        let mut r: String = self.source.clone();
        r.append(":");
        r.append(self.name.as_str());
        proof {
            reveal_strlit(":");
            assert(r@ =~= self@.spec_identifier());
        }
        r
    }
}

/// One function of a contract interface: its name and the type names of its
/// inputs, in declaration order.
pub struct AbiFunction {
    pub name: String,
    pub inputs: Vec<String>,
}

#[verifier::ext_equal]
pub ghost struct AbiFunctionView {
    pub name: Seq<char>,
    pub inputs: Seq<Seq<char>>,
}

impl View for AbiFunction {
    type V = AbiFunctionView;

    open spec fn view(&self) -> AbiFunctionView {
        AbiFunctionView { name: self.name@, inputs: self.inputs@.map_values(|s: String| s@) }
    }
}

impl AbiFunctionView {
    /// The full signature `name(type1,type2,...)`.
    pub open spec fn spec_signature(&self) -> Seq<char> {
        self.name + seq!['('] + spec_join_commas(self.inputs) + seq![')']
    }
}

impl AbiFunction {
    pub fn new(name: &str, inputs: Vec<String>) -> (r: AbiFunction)
        ensures
            r@.name == name@,
            r@.inputs == inputs@.map_values(|s: String| s@),
    {
        AbiFunction { name: name.to_owned(), inputs }
    }

    /// Renders the full signature `name(type1,type2,...)`.
    pub fn signature(&self) -> (r: String)
        ensures
            r@ == self@.spec_signature(),
    {
        let mut r: String = self.name.clone();
        r.append("(");
        let joined: String = join_commas(&self.inputs);
        r.append(joined.as_str());
        r.append(")");
        proof {
            reveal_strlit("(");
            reveal_strlit(")");
            assert(r@ =~= self@.spec_signature());
        }
        r
    }
}

/// A contract interface: an optional constructor and the functions in
/// declaration order.
pub struct Abi {
    /// The constructor's input type names; `None` when no constructor is
    /// declared.
    pub constructor: Option<Vec<String>>,
    pub functions: Vec<AbiFunction>,
}

#[verifier::ext_equal]
pub ghost struct AbiView {
    pub constructor: Option<Seq<Seq<char>>>,
    pub functions: Seq<AbiFunctionView>,
}

impl View for Abi {
    type V = AbiView;

    open spec fn view(&self) -> AbiView {
        AbiView {
            constructor: match self.constructor {
                Some(v) => Some(v@.map_values(|s: String| s@)),
                None => None,
            },
            functions: self.functions@.map_values(|f: AbiFunction| f@),
        }
    }
}

impl AbiView {
    /// A missing or zero-argument constructor is what a test suite needs.
    pub open spec fn spec_constructor_empty(&self) -> bool {
        match self.constructor {
            Some(ins) => ins.len() == 0,
            None => true,
        }
    }

    /// Whether some function name begins with `test`.
    pub open spec fn spec_has_test_function(&self) -> bool {
        exists|i: int|
            0 <= i < self.functions.len() && spec_starts_with(
                #[trigger] self.functions[i].name,
                "test"@,
            )
    }

    /// The classification rule for a test suite: a missing or zero-argument
    /// constructor, and at least one function whose name begins with `test`.
    pub open spec fn spec_is_test_suite(&self) -> bool {
        self.spec_constructor_empty() && self.spec_has_test_function()
    }

    /// Whether the ABI declares a `setUp()` routine.
    pub open spec fn spec_has_setup(&self) -> bool {
        exists|i: int| 0 <= i < self.functions.len() && (#[trigger] self.functions[i].name)
            == "setUp"@
    }
}

impl Abi {
    pub fn is_test_suite(&self) -> (r: bool)
        ensures
            r == self@.spec_is_test_suite(),
    {
        let ctor_ok: bool = match &self.constructor {
            Some(ins) => ins.len() == 0,
            None => true,
        };
        if !ctor_ok {
            return false;
        }
        let mut i: usize = 0;
        while i < self.functions.len()
            invariant
                0 <= i <= self.functions@.len(),
                self@.functions.len() == self.functions@.len(),
                forall|j: int|
                    0 <= j < i ==> !spec_starts_with(
                        (#[trigger] self@.functions[j]).name,
                        "test"@,
                    ),
                self@.spec_constructor_empty(),
            decreases self.functions@.len() - i,
        {
            if starts_with_str(self.functions[i].name.as_str(), "test") {
                proof {
                    assert(self@.functions[i as int].name == self.functions@[i as int].name@);
                }
                return true;
            }
            proof {
                assert(self@.functions[i as int].name == self.functions@[i as int].name@);
            }
            i = i + 1;
        }
        false
    }

    pub fn has_setup(&self) -> (r: bool)
        ensures
            r == self@.spec_has_setup(),
    {
        let mut i: usize = 0;
        while i < self.functions.len()
            invariant
                0 <= i <= self.functions@.len(),
                self@.functions.len() == self.functions@.len(),
                forall|j: int| 0 <= j < i ==> (#[trigger] self@.functions[j]).name != "setUp"@,
            decreases self.functions@.len() - i,
        {
            let fname: &str = self.functions[i].name.as_str();
            let c = crate::strutil::str_cmp(fname, "setUp");
            proof {
                assert(self@.functions[i as int].name == self.functions@[i as int].name@);
            }
            if c == crate::strutil::StrOrd::Eq {
                return true;
            }
            proof {
                if self@.functions[i as int].name == "setUp"@ {
                    crate::strutil::lemma_str_lt_irrefl("setUp"@);
                }
            }
            i = i + 1;
        }
        false
    }
}

/// A symbolic library reference inside creation bytecode: the library's
/// source file and name, and the byte offsets where its address is patched.
pub struct LibraryRef {
    pub file: String,
    pub name: String,
    pub offsets: Vec<usize>,
}

#[verifier::ext_equal]
pub ghost struct LibraryRefView {
    pub file: Seq<char>,
    pub name: Seq<char>,
    pub offsets: Seq<usize>,
}

impl View for LibraryRef {
    type V = LibraryRefView;

    open spec fn view(&self) -> LibraryRefView {
        LibraryRefView { file: self.file@, name: self.name@, offsets: self.offsets@ }
    }
}

/// One compiled artifact as produced by the compiler collaborator.
pub struct CompiledContract {
    pub abi: Abi,
    /// Creation bytecode with unresolved library placeholders; `None` for
    /// contracts without deployable bytecode (abstract contracts).
    pub creation_bytecode: Option<Vec<u8>>,
    pub deployed_bytecode: Option<Vec<u8>>,
    pub library_refs: Vec<LibraryRef>,
}

#[verifier::ext_equal]
pub ghost struct CompiledContractView {
    pub abi: AbiView,
    pub creation_bytecode: Option<Seq<u8>>,
    pub deployed_bytecode: Option<Seq<u8>>,
    pub library_refs: Seq<LibraryRefView>,
}

impl View for CompiledContract {
    type V = CompiledContractView;

    open spec fn view(&self) -> CompiledContractView {
        CompiledContractView {
            abi: self.abi@,
            creation_bytecode: match self.creation_bytecode {
                Some(b) => Some(b@),
                None => None,
            },
            deployed_bytecode: match self.deployed_bytecode {
                Some(b) => Some(b@),
                None => None,
            },
            library_refs: self.library_refs@.map_values(|r: LibraryRef| r@),
        }
    }
}

/// A test suite ready to deploy: its interface, fully linked creation
/// bytecode, and the linked library bytecodes to deploy first, in order.
pub struct DeployableContract {
    pub abi: Abi,
    pub bytecode: Vec<u8>,
    pub libraries: Vec<Vec<u8>>,
}

#[verifier::ext_equal]
pub ghost struct DeployableContractView {
    pub abi: AbiView,
    pub bytecode: Seq<u8>,
    pub libraries: Seq<Seq<u8>>,
}

impl View for DeployableContract {
    type V = DeployableContractView;

    open spec fn view(&self) -> DeployableContractView {
        DeployableContractView {
            abi: self.abi@,
            bytecode: self.bytecode@,
            libraries: self.libraries@.map_values(|b: Vec<u8>| b@),
        }
    }
}

/// A contract known to downstream trace identification: its interface and its
/// deployed (runtime) bytecode.
pub struct KnownContract {
    pub abi: Abi,
    pub deployed_bytecode: Vec<u8>,
}

#[verifier::ext_equal]
pub ghost struct KnownContractView {
    pub abi: AbiView,
    pub deployed_bytecode: Seq<u8>,
}

impl View for KnownContract {
    type V = KnownContractView;

    open spec fn view(&self) -> KnownContractView {
        KnownContractView { abi: self.abi@, deployed_bytecode: self.deployed_bytecode@ }
    }
}

} // verus!
