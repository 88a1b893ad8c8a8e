use vstd::prelude::*;
use crate::strutil::{spec_ends_with, ends_with_str};

verus! {

#[verifier::external_type_specification]
#[verifier::external_body]
pub struct ExRegex(regex::Regex);

#[verifier::external_type_specification]
#[verifier::external_body]
pub struct ExGlobSet(globset::GlobSet);

/// Whether `regex::Regex::new` accepts the pattern.
pub uninterp spec fn regex_ok(pattern: Seq<char>) -> bool;

/// What `regex::Regex::is_match` returns for a pattern and a haystack:
/// whether the regular expression matches some substring of the haystack.
pub uninterp spec fn regex_accepts(pattern: Seq<char>, text: Seq<char>) -> bool;

/// Whether `globset::Glob::new` accepts the pattern and the derived matcher
/// stays within the crate's size limit.
pub uninterp spec fn glob_ok(pattern: Seq<char>) -> bool;

/// What `globset::GlobSet::is_match` returns for a one-pattern set and a
/// path: whether the glob matches it.
pub uninterp spec fn glob_accepts(pattern: Seq<char>, path: Seq<char>) -> bool;

/// A regular expression together with the pattern it was compiled from.
/// The fields are private: only `regex_compile` constructs a value, which is
/// what ties the compiled program to its source pattern.
pub struct CompiledRegex {
    source: String,
    re: regex::Regex,
}

impl CompiledRegex {
    /// The pattern this regular expression was compiled from.
    pub closed spec fn src(&self) -> Seq<char> {
        self.source@
    }
}

/// Relies on `regex::Regex::new`: compilation succeeds or fails as a function
/// of the pattern alone.
#[verifier::external_body]
fn regex_compile(pattern: &str) -> (r: Option<CompiledRegex>)
    ensures
        r is Some <==> regex_ok(pattern@),
        r matches Some(c) ==> c.src() == pattern@,
{
    match regex::Regex::new(pattern) {
        Ok(re) => Some(CompiledRegex { source: pattern.to_owned(), re }),
        Err(_) => None,
    }
}

/// Relies on `regex::Regex::is_match`: a deterministic function of the
/// pattern and the haystack.
#[verifier::external_body]
fn regex_is_match(re: &CompiledRegex, text: &str) -> (r: bool)
    ensures
        r == regex_accepts(re.src(), text@),
{
    re.re.is_match(text)
}

/// A glob matcher together with the pattern it was compiled from. As with
/// `CompiledRegex`, only `glob_compile` constructs a value.
pub struct CompiledGlob {
    source: String,
    matcher: globset::GlobSet,
}

impl CompiledGlob {
    /// The pattern this glob was compiled from.
    pub closed spec fn src(&self) -> Seq<char> {
        self.source@
    }
}

/// Relies on `globset::Glob::new` and `globset::GlobSetBuilder::build`:
/// parsing and matcher construction succeed or fail as a function of the
/// pattern alone. The set builder is used because it reports a derived
/// matcher over the size limit as an error, where a single-glob matcher
/// would panic.
#[verifier::external_body]
fn glob_compile(pattern: &str) -> (r: Option<CompiledGlob>)
    ensures
        r is Some <==> glob_ok(pattern@),
        r matches Some(c) ==> c.src() == pattern@,
{
    let glob = match globset::Glob::new(pattern) {
        Ok(g) => g,
        Err(_) => {
            return None;
        },
    };
    let mut builder = globset::GlobSetBuilder::new();
    builder.add(glob);
    match builder.build() {
        Ok(set) => Some(CompiledGlob { source: pattern.to_owned(), matcher: set }),
        Err(_) => None,
    }
}

/// Relies on `globset::GlobSet::is_match` on a one-pattern set: a
/// deterministic function of the glob pattern and the path within one build;
/// globset's escaping and path handling are fixed per compilation target.
#[verifier::external_body]
fn glob_is_match(g: &CompiledGlob, path: &str) -> (r: bool)
    ensures
        r == glob_accepts(g.src(), path@),
{
    g.matcher.is_match(path)
}

/// The capability the runners need from a filter: which source paths,
/// contract names and test signatures are in scope.
pub trait TestFilter {
    spec fn test_accepted(&self, name: Seq<char>) -> bool;

    spec fn contract_accepted(&self, name: Seq<char>) -> bool;

    spec fn path_accepted(&self, path: Seq<char>) -> bool;

    fn matches_test(&self, name: &str) -> (r: bool)
        ensures
            r == self.test_accepted(name@),
    ;

    fn matches_contract(&self, name: &str) -> (r: bool)
        ensures
            r == self.contract_accepted(name@),
    ;

    fn matches_path(&self, path: &str) -> (r: bool)
        ensures
            r == self.path_accepted(path@),
    ;
}

/// The user-facing filter: all fields are optional and independent, and are
/// combined by logical AND. An absent field accepts everything.
pub struct Filter {
    /// Legacy single test-name regex, applied when no dedicated test-name
    /// pattern is set.
    pub pattern: Option<CompiledRegex>,
    pub test_pattern: Option<CompiledRegex>,
    pub test_pattern_inverse: Option<CompiledRegex>,
    pub contract_pattern: Option<CompiledRegex>,
    pub contract_pattern_inverse: Option<CompiledRegex>,
    pub path_pattern: Option<CompiledGlob>,
    pub path_pattern_inverse: Option<CompiledGlob>,
}

impl Filter {
    /// Which source files are in scope for compilation: a positive path glob
    /// decides if set; otherwise a negative one; otherwise the well-known
    /// test-source suffix.
    pub open spec fn spec_is_source_file(&self, path: Seq<char>) -> bool {
        if self.path_pattern is Some {
            glob_accepts(self.path_pattern->Some_0.src(), path)
        } else if self.path_pattern_inverse is Some {
            !glob_accepts(self.path_pattern_inverse->Some_0.src(), path)
        } else {
            spec_ends_with(path, ".t.sol"@)
        }
    }

    pub fn is_source_file(&self, path: &str) -> (r: bool)
        ensures
            r == self.spec_is_source_file(path@),
    {
        match &self.path_pattern {
            Some(g) => glob_is_match(g, path),
            None => match &self.path_pattern_inverse {
                Some(g) => !glob_is_match(g, path),
                None => ends_with_str(path, ".t.sol"),
            },
        }
    }
}

impl TestFilter for Filter {
    open spec fn test_accepted(&self, name: Seq<char>) -> bool {
        &&& {
            (self.test_pattern is None && self.test_pattern_inverse is None && (
            self.pattern matches Some(re))) ==> regex_accepts(self.pattern->Some_0.src(), name)
        }
        &&& { self.test_pattern matches Some(re) ==> regex_accepts(re.src(), name) }
        &&& { self.test_pattern_inverse matches Some(re) ==> !regex_accepts(re.src(), name) }
    }

    open spec fn contract_accepted(&self, name: Seq<char>) -> bool {
        &&& { self.contract_pattern matches Some(re) ==> regex_accepts(re.src(), name) }
        &&& { self.contract_pattern_inverse matches Some(re) ==> !regex_accepts(re.src(), name) }
    }

    open spec fn path_accepted(&self, path: Seq<char>) -> bool {
        &&& { self.path_pattern matches Some(g) ==> glob_accepts(g.src(), path) }
        &&& { self.path_pattern_inverse matches Some(g) ==> !glob_accepts(g.src(), path) }
    }

    fn matches_test(&self, name: &str) -> (r: bool) {
        let mut ok = true;
        let dedicated_unset = self.test_pattern.is_none() && self.test_pattern_inverse.is_none();
        if dedicated_unset {
            if let Some(re) = &self.pattern {
                ok = ok && regex_is_match(re, name);
            }
        }
        if let Some(re) = &self.test_pattern {
            ok = ok && regex_is_match(re, name);
        }
        if let Some(re) = &self.test_pattern_inverse {
            ok = ok && !regex_is_match(re, name);
        }
        ok
    }

    fn matches_contract(&self, name: &str) -> (r: bool) {
        let mut ok = true;
        if let Some(re) = &self.contract_pattern {
            ok = ok && regex_is_match(re, name);
        }
        if let Some(re) = &self.contract_pattern_inverse {
            ok = ok && !regex_is_match(re, name);
        }
        ok
    }

    fn matches_path(&self, path: &str) -> (r: bool) {
        let mut ok = true;
        if let Some(g) = &self.path_pattern {
            ok = ok && glob_is_match(g, path);
        }
        if let Some(g) = &self.path_pattern_inverse {
            ok = ok && !glob_is_match(g, path);
        }
        ok
    }
}

/// Why a filter could not be built: a pattern that does not parse.
#[derive(Debug)]
pub enum FilterError {
    InvalidRegex(String),
    InvalidGlob(String),
}

/// Whether an optional regex field was built from the given optional pattern.
pub open spec fn re_field_from(field: Option<CompiledRegex>, input: Option<&str>) -> bool {
    match field {
        Some(c) => input matches Some(s) && c.src() == s@,
        None => input is None,
    }
}

/// Whether an optional glob field was built from the given optional pattern.
pub open spec fn glob_field_from(field: Option<CompiledGlob>, input: Option<&str>) -> bool {
    match field {
        Some(c) => input matches Some(s) && c.src() == s@,
        None => input is None,
    }
}

pub open spec fn opt_regex_ok(input: Option<&str>) -> bool {
    input matches Some(s) ==> regex_ok(s@)
}

pub open spec fn opt_glob_ok(input: Option<&str>) -> bool {
    input matches Some(s) ==> glob_ok(s@)
}

fn compile_re_field(input: Option<&str>) -> (r: Result<Option<CompiledRegex>, FilterError>)
    ensures
        r is Ok <==> opt_regex_ok(input),
        r matches Ok(f) ==> re_field_from(f, input),
{
    match input {
        None => Ok(None),
        Some(s) => match regex_compile(s) {
            Some(c) => Ok(Some(c)),
            None => Err(FilterError::InvalidRegex(s.to_owned())),
        },
    }
}

fn compile_glob_field(input: Option<&str>) -> (r: Result<Option<CompiledGlob>, FilterError>)
    ensures
        r is Ok <==> opt_glob_ok(input),
        r matches Ok(f) ==> glob_field_from(f, input),
{
    match input {
        None => Ok(None),
        Some(s) => match glob_compile(s) {
            Some(c) => Ok(Some(c)),
            None => Err(FilterError::InvalidGlob(s.to_owned())),
        },
    }
}

impl Filter {
    /// Builds a filter from its optional pattern sources. Succeeds exactly
    /// when every present regex and glob parses.
    pub fn from_patterns(
        pattern: Option<&str>,
        test_pattern: Option<&str>,
        test_pattern_inverse: Option<&str>,
        contract_pattern: Option<&str>,
        contract_pattern_inverse: Option<&str>,
        path_pattern: Option<&str>,
        path_pattern_inverse: Option<&str>,
    ) -> (r: Result<Filter, FilterError>)
        ensures
            r is Ok <==> (opt_regex_ok(pattern) && opt_regex_ok(test_pattern) && opt_regex_ok(
                test_pattern_inverse,
            ) && opt_regex_ok(contract_pattern) && opt_regex_ok(contract_pattern_inverse)
                && opt_glob_ok(path_pattern) && opt_glob_ok(path_pattern_inverse)),
            r matches Ok(f) ==> {
                &&& re_field_from(f.pattern, pattern)
                &&& re_field_from(f.test_pattern, test_pattern)
                &&& re_field_from(f.test_pattern_inverse, test_pattern_inverse)
                &&& re_field_from(f.contract_pattern, contract_pattern)
                &&& re_field_from(f.contract_pattern_inverse, contract_pattern_inverse)
                &&& glob_field_from(f.path_pattern, path_pattern)
                &&& glob_field_from(f.path_pattern_inverse, path_pattern_inverse)
            },
    {
        let pattern = compile_re_field(pattern)?;
        let test_pattern = compile_re_field(test_pattern)?;
        let test_pattern_inverse = compile_re_field(test_pattern_inverse)?;
        let contract_pattern = compile_re_field(contract_pattern)?;
        let contract_pattern_inverse = compile_re_field(contract_pattern_inverse)?;
        let path_pattern = compile_glob_field(path_pattern)?;
        let path_pattern_inverse = compile_glob_field(path_pattern_inverse)?;
        Ok(
            Filter {
                pattern,
                test_pattern,
                test_pattern_inverse,
                contract_pattern,
                contract_pattern_inverse,
                path_pattern,
                path_pattern_inverse,
            },
        )
    }
}

/// With all test-name patterns unset, `matches_test` accepts every name.
pub proof fn lemma_unset_filter_accepts_all(f: Filter, name: Seq<char>)
    requires
        f.pattern is None,
        f.test_pattern is None,
        f.test_pattern_inverse is None,
    ensures
        f.test_accepted(name),
{
}

/// A filter on test names, contract names and source paths that applies a
/// regular expression to each, mirroring the filters used by the test
/// harnesses around this library.
pub struct RegexFilter {
    test: CompiledRegex,
    contract: CompiledRegex,
    path: CompiledRegex,
}

impl RegexFilter {
    pub closed spec fn test_src(&self) -> Seq<char> {
        self.test.src()
    }

    pub closed spec fn contract_src(&self) -> Seq<char> {
        self.contract.src()
    }

    pub closed spec fn path_src(&self) -> Seq<char> {
        self.path.src()
    }

    /// Builds the filter from three regex patterns; succeeds exactly when all
    /// three parse.
    pub fn new(test_pattern: &str, contract_pattern: &str, path_pattern: &str) -> (r: Option<
        RegexFilter,
    >)
        ensures
            r is Some <==> (regex_ok(test_pattern@) && regex_ok(contract_pattern@) && regex_ok(
                path_pattern@,
            )),
            r matches Some(f) ==> (f.test_src() == test_pattern@ && f.contract_src()
                == contract_pattern@ && f.path_src() == path_pattern@),
    {
        let test = regex_compile(test_pattern);
        let contract = regex_compile(contract_pattern);
        let path = regex_compile(path_pattern);
        match (test, contract, path) {
            (Some(test), Some(contract), Some(path)) => Some(RegexFilter { test, contract, path }),
            _ => None,
        }
    }
}

impl TestFilter for RegexFilter {
    open spec fn test_accepted(&self, name: Seq<char>) -> bool {
        regex_accepts(self.test_src(), name)
    }

    open spec fn contract_accepted(&self, name: Seq<char>) -> bool {
        regex_accepts(self.contract_src(), name)
    }

    open spec fn path_accepted(&self, path: Seq<char>) -> bool {
        regex_accepts(self.path_src(), path)
    }

    fn matches_test(&self, name: &str) -> (r: bool) {
        regex_is_match(&self.test, name)
    }

    fn matches_contract(&self, name: &str) -> (r: bool) {
        regex_is_match(&self.contract, name)
    }

    fn matches_path(&self, path: &str) -> (r: bool) {
        regex_is_match(&self.path, path)
    }
}

} // verus!
