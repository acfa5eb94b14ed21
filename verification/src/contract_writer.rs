//! The contract that the reproducers are written into: where it goes and
//! what it is called.

use crate::decimal::{decimal, lemma_decimal_injective, lemma_decimal_shape, push_decimal};
use crate::error::ContractError;
use crate::json::{json_document, member_of, text_of, Json, JsonView};
use crate::text::{append, append_str, from_chars, same, to_chars, trim, trimmed};
use std::path::Path;
use vstd::prelude::*;
use vstd::relations::injective_on;
use vstd::set_lib::{lemma_int_range, lemma_len_subset, lemma_map_size, set_int_range};

verus! {

/// Calls `Path::extension`. Trusted, with nothing claimed of the result: what
/// counts as a file name depends on the platform.
#[verifier::external_body]
fn path_extension(path: &str) -> Option<String> {
    match Path::new(path).extension() {
        Some(extension) => Some(extension.to_string_lossy().into_owned()),
        None => None,
    }
}

/// Calls `Path::parent`. Trusted, with nothing claimed of the result: what
/// separates the parts of a path depends on the platform.
#[verifier::external_body]
fn path_parent(path: &str) -> Option<String> {
    match Path::new(path).parent() {
        Some(parent) => Some(parent.to_string_lossy().into_owned()),
        None => None,
    }
}

/// The directory that is used where the configuration names none.
pub open spec fn default_directory() -> Seq<char> {
    "test/invariants/fuzz/"@
}

/// `directory`, with a `/` at the end if it has none.
pub open spec fn with_slash(directory: Seq<char>) -> Seq<char> {
    if directory.len() > 0 && directory.last() == '/' {
        directory
    } else {
        directory + "/"@
    }
}

/// The target that counts: the one configured, unless there is none or it is
/// blank or `.`, which stand for the default.
pub open spec fn effective_target(target: Option<Seq<char>>) -> Seq<char> {
    match target {
        Some(target) => if trim(target).len() == 0 || trim(target) == "."@ {
            default_directory()
        } else {
            target
        },
        None => default_directory(),
    }
}

/// The directory for a target, given whether the target has an extension and
/// what its parent is. A target with an extension is a file, and its parent
/// is the directory: `./` where the parent is empty, the default where there
/// is no parent. A target without one is the directory itself.
pub open spec fn directory_of(
    target: Seq<char>,
    has_extension: bool,
    parent: Option<Seq<char>>,
) -> Seq<char> {
    if has_extension {
        match parent {
            Some(parent) => if parent.len() == 0 {
                "./"@
            } else {
                with_slash(parent)
            },
            None => default_directory(),
        }
    } else {
        with_slash(target)
    }
}

/// The target that a configuration names: the string under `compilation`,
/// `platformConfig`, `target`; none where there is no such string.
pub open spec fn configured_target(document: JsonView) -> Option<Seq<char>> {
    match member_of(document, "compilation"@) {
        Some(compilation) => match member_of(compilation, "platformConfig"@) {
            Some(platform) => match member_of(platform, "target"@) {
                Some(target) => text_of(target),
                None => None,
            },
            None => None,
        },
        None => None,
    }
}

/// `directory` is the directory for `target`, for what the standard library
/// says of the extension and the parent of the effective target.
pub open spec fn is_directory_for(target: Option<Seq<char>>, directory: Seq<char>) -> bool {
    exists|has_extension: bool, parent: Option<Seq<char>>|
        directory == directory_of(effective_target(target), has_extension, parent)
}

/// `directory` is the directory for the configuration with this text: the
/// default without a configuration, else the one for its target.
pub open spec fn is_configured_directory(config: Option<Seq<char>>, directory: Seq<char>) -> bool {
    match config {
        Some(text) => json_document(text) matches Some(document) && is_directory_for(
            configured_target(document),
            directory,
        ),
        None => directory == default_directory(),
    }
}

/// Whatever the target, its extension and its parent, the directory ends
/// with a `/`.
pub proof fn lemma_directory_ends_with_slash(
    target: Seq<char>,
    has_extension: bool,
    parent: Option<Seq<char>>,
)
    ensures
        directory_of(target, has_extension, parent).len() > 0,
        directory_of(target, has_extension, parent).last() == '/',
{
    reveal_strlit("/");
    reveal_strlit("./");
    reveal_strlit("test/invariants/fuzz/");
}

/// The name of the `i`-th contract that is tried: `ForgeReproducer`, then
/// `ForgeReproducer1`, `ForgeReproducer2` and so on.
pub open spec fn candidate_name(i: nat) -> Seq<char> {
    if i == 0 {
        "ForgeReproducer"@
    } else {
        "ForgeReproducer"@ + decimal(i)
    }
}

/// The path of the file that holds the contract `name` under `directory`.
pub open spec fn candidate_path(directory: Seq<char>, name: Seq<char>) -> Seq<char> {
    directory + name + ".t.sol"@
}

/// `path` is one of `paths`.
pub open spec fn is_taken(paths: Seq<String>, path: Seq<char>) -> bool {
    exists|i: int| 0 <= i < paths.len() && #[trigger] paths[i]@ == path
}

/// Different numbers give different names.
pub proof fn lemma_candidate_names_differ(i: nat, j: nat)
    requires
        candidate_name(i) == candidate_name(j),
    ensures
        i == j,
{
    let stem = "ForgeReproducer"@;
    lemma_decimal_shape(i);
    lemma_decimal_shape(j);
    if i > 0 && j > 0 {
        assert((stem + decimal(i)).skip(stem.len() as int) == decimal(i));
        assert((stem + decimal(j)).skip(stem.len() as int) == decimal(j));
        lemma_decimal_injective(i, j);
    } else if i > 0 {
        assert((stem + decimal(i)).len() > stem.len());
    } else if j > 0 {
        assert((stem + decimal(j)).len() > stem.len());
    }
}

/// Different numbers give different paths.
pub proof fn lemma_candidate_paths_differ(directory: Seq<char>, i: nat, j: nat)
    requires
        candidate_path(directory, candidate_name(i)) == candidate_path(
            directory,
            candidate_name(j),
        ),
    ensures
        i == j,
{
    let a = candidate_name(i);
    let b = candidate_name(j);
    let tail = ".t.sol"@;
    let from = directory.len() as int;
    assert((directory + a + tail).len() == (directory + b + tail).len());
    assert((directory + a + tail).subrange(from, from + a.len()) == a);
    assert((directory + b + tail).subrange(from, from + b.len()) == b);
    lemma_candidate_names_differ(i, j);
}

/// The position in `existing` of the path with the number `j`.
spec fn holder(directory: Seq<char>, existing: Seq<String>, j: int) -> int {
    choose|k: int|
        0 <= k < existing.len() && #[trigger] existing[k]@ == candidate_path(
            directory,
            candidate_name(j as nat),
        )
}

/// Of one name more than there are files, one is free: the names are all
/// different, so that many files cannot hold them all.
pub proof fn lemma_a_name_is_free(directory: Seq<char>, existing: Seq<String>)
    ensures
        exists|j: nat|
            j <= existing.len() && !is_taken(
                existing,
                candidate_path(directory, #[trigger] candidate_name(j)),
            ),
{
    let n = existing.len() as int;
    if forall|j: nat|
        j <= n ==> is_taken(existing, candidate_path(directory, #[trigger] candidate_name(j))) {
        let numbers = set_int_range(0, n + 1);
        let places = set_int_range(0, n);
        let f = |j: int| holder(directory, existing, j);
        lemma_int_range(0, n + 1);
        lemma_int_range(0, n);
        assert forall|j: int| numbers.contains(j) implies 0 <= #[trigger] f(j) < n && existing[f(
            j,
        )]@ == candidate_path(directory, candidate_name(j as nat)) by {
            assert(is_taken(existing, candidate_path(directory, candidate_name(j as nat))));
        }
        assert(injective_on(f, numbers)) by {
            assert forall|a: int, b: int|
                numbers.contains(a) && numbers.contains(b) && #[trigger] f(a) == #[trigger] f(
                    b,
                ) implies a == b by {
                lemma_candidate_paths_differ(directory, a as nat, b as nat);
            }
        }
        let held = numbers.map(f);
        lemma_map_size(numbers, held, f);
        assert(held.subset_of(places)) by {
            assert forall|k: int| held.contains(k) implies places.contains(k) by {
                let j = choose|j: int| numbers.contains(j) && f(j) == k;
                assert(numbers.contains(j) && f(j) == k);
            }
        }
        lemma_len_subset(held, places);
        assert(false);
    }
}

/// The effective target for a configured one.
pub fn choose_target(target: Option<&str>) -> (r: Vec<char>)
    ensures
        r@ == effective_target(crate::ast::optional_text_of(target)),
{
    match target {
        Some(target) => {
            let chars = to_chars(target);
            let bare = trimmed(&chars);
            if bare.len() == 0 || same(&bare, &to_chars(".")) {
                to_chars("test/invariants/fuzz/")
            } else {
                chars
            }
        },
        None => to_chars("test/invariants/fuzz/"),
    }
}

/// Adds a `/` at the end unless there is one.
pub fn ensure_slash(directory: Vec<char>) -> (r: Vec<char>)
    ensures
        r@ == with_slash(directory@),
{
    let mut directory = directory;
    proof {
        reveal_strlit("/");
        assert("/"@ =~= seq!['/']);
    }
    if directory.len() == 0 || directory[directory.len() - 1] != '/' {
        let ghost before = directory@;
        directory.push('/');
        assert(directory@ =~= before + "/"@);
    }
    directory
}

/// The directory for `target`, which is the effective one, given what the
/// standard library says of its extension and its parent.
pub fn directory_for(target: &str, has_extension: bool, parent: Option<String>) -> (r: String)
    ensures
        r@ == directory_of(target@, has_extension, crate::ast::optional_text(parent)),
{
    if has_extension {
        match parent {
            Some(parent) => {
                let chars = to_chars(parent.as_str());
                if chars.len() == 0 {
                    "./".to_string()
                } else {
                    from_chars(&ensure_slash(chars))
                }
            },
            None => "test/invariants/fuzz/".to_string(),
        }
    } else {
        from_chars(&ensure_slash(to_chars(target)))
    }
}

/// The directory that the reproducers go to, for the target that the
/// configuration names. Whether the target has an extension, and what its
/// parent is, is asked of the standard library.
pub fn target_directory(target: Option<&str>) -> (r: String)
    ensures
        is_directory_for(crate::ast::optional_text_of(target), r@),
        r@.len() > 0 && r@.last() == '/',
{
    let chosen = from_chars(&choose_target(target));
    let has_extension = path_extension(chosen.as_str()).is_some();
    let parent = if has_extension {
        path_parent(chosen.as_str())
    } else {
        None
    };
    let r = directory_for(chosen.as_str(), has_extension, parent);
    proof {
        let effective = effective_target(crate::ast::optional_text_of(target));
        assert(r@ == directory_of(effective, has_extension, crate::ast::optional_text(parent)));
        lemma_directory_ends_with_slash(
            effective,
            has_extension,
            crate::ast::optional_text(parent),
        );
    }
    r
}

/// The target that a configuration names.
pub fn read_configured_target(document: &Json) -> (r: Option<&str>)
    ensures
        crate::ast::optional_text_of(r) == configured_target(document@),
{
    match document.member("compilation") {
        Some(compilation) => match compilation.member("platformConfig") {
            Some(platform) => match platform.member("target") {
                Some(target) => target.text(),
                None => None,
            },
            None => None,
        },
        None => None,
    }
}

/// The directory that the reproducers go to, from the text of the
/// configuration file, if there is such a file. Without a file it is the
/// default. A text that is no JSON is refused. The target is looked for
/// under `compilation`, `platformConfig`, `target`; a target that is missing
/// or no string counts as none.
pub fn get_target_path(config: Option<&str>) -> (r: Result<String, ContractError>)
    ensures
        match r {
            Ok(directory) => {
                &&& is_configured_directory(crate::ast::optional_text_of(config), directory@)
                &&& directory@.len() > 0
                &&& directory@.last() == '/'
            },
            Err(e) => {
                &&& e == ContractError::ParseConfig
                &&& config matches Some(text)
                &&& json_document(text@) is None
            },
        },
{
    let text = match config {
        Some(text) => text,
        None => {
            let directory = "test/invariants/fuzz/".to_string();
            proof {
                reveal_strlit("test/invariants/fuzz/");
            }
            return Ok(directory);
        },
    };
    let document = match Json::parse(text) {
        Some(document) => document,
        None => {
            return Err(ContractError::ParseConfig);
        },
    };
    Ok(target_directory(read_configured_target(&document)))
}

/// The contract that holds the reproducers.
#[derive(Debug, PartialEq)]
pub struct Contract {
    reproducers: String,
    contract_name: String,
    path: String,
}

/// What a contract holds.
pub struct ContractView {
    pub reproducers: Seq<char>,
    pub contract_name: Seq<char>,
    pub path: Seq<char>,
}

impl View for Contract {
    type V = ContractView;

    closed spec fn view(&self) -> ContractView {
        ContractView {
            reproducers: self.reproducers@,
            contract_name: self.contract_name@,
            path: self.path@,
        }
    }
}

impl Contract {
    /// The contract for these reproducers, in the directory that the
    /// configuration asks for, under the first name that no existing file
    /// has. `config` is the text of the configuration file, if there is one;
    /// `existing` are the paths of the files that are there.
    pub fn new(reproducers: String, config: Option<&str>, existing: &Vec<String>) -> (r: Result<
        Contract,
        ContractError,
    >)
        ensures
            match r {
                Ok(contract) => {
                    &&& contract@.reproducers == reproducers@
                    &&& is_configured_directory(
                        crate::ast::optional_text_of(config),
                        contract@.path,
                    )
                    &&& exists|i: nat|
                        {
                            &&& i <= existing.len()
                            &&& contract@.contract_name == candidate_name(i)
                            &&& !is_taken(
                                existing@,
                                candidate_path(contract@.path, #[trigger] candidate_name(i)),
                            )
                            &&& forall|j: nat|
                                j < i ==> is_taken(
                                    existing@,
                                    candidate_path(contract@.path, #[trigger] candidate_name(j)),
                                )
                        }
                },
                Err(e) => {
                    &&& e == ContractError::ParseConfig
                    &&& config matches Some(text)
                    &&& json_document(text@) is None
                },
            },
    {
        let path = match get_target_path(config) {
            Ok(path) => path,
            Err(e) => {
                return Err(e);
            },
        };
        let contract_name = match Contract::find_first_unused_filename(path.clone(), existing) {
            Ok(name) => name,
            Err(e) => {
                return Err(e);
            },
        };
        Ok(Contract { reproducers, contract_name, path })
    }

    /// The contract with these three parts.
    pub fn from_parts(reproducers: String, contract_name: String, path: String) -> (r: Contract)
        ensures
            r@ == (ContractView {
                reproducers: reproducers@,
                contract_name: contract_name@,
                path: path@,
            }),
    {
        Contract { reproducers, contract_name, path }
    }

    /// The text of the reproducers.
    pub fn reproducers(&self) -> (r: &str)
        ensures
            r@ == self@.reproducers,
    {
        self.reproducers.as_str()
    }

    /// The name of the contract.
    pub fn contract_name(&self) -> (r: &str)
        ensures
            r@ == self@.contract_name,
    {
        self.contract_name.as_str()
    }

    /// The directory that the contract is written to.
    pub fn path(&self) -> (r: &str)
        ensures
            r@ == self@.path,
    {
        self.path.as_str()
    }

    /// The name of the file that the contract is written to.
    pub fn file_name(&self) -> (r: String)
        ensures
            r@ == self@.contract_name + ".t.sol"@,
    {
        let mut name = to_chars(self.contract_name.as_str());
        append_str(&mut name, ".t.sol");
        from_chars(&name)
    }

    /// The first of `ForgeReproducer`, `ForgeReproducer1`, `ForgeReproducer2`
    /// and so on whose file under `target_path` is not among `existing`.
    /// There always is one, among one name more than there are files.
    pub fn find_first_unused_filename(target_path: String, existing: &Vec<String>) -> (r: Result<
        String,
        ContractError,
    >)
        ensures
            r matches Ok(name) && exists|i: nat|
                {
                    &&& i <= existing.len()
                    &&& name@ == #[trigger] candidate_name(i)
                    &&& !is_taken(existing@, candidate_path(target_path@, candidate_name(i)))
                    &&& forall|j: nat|
                        j < i ==> is_taken(
                            existing@,
                            candidate_path(target_path@, #[trigger] candidate_name(j)),
                        )
                },
    {
        let directory = to_chars(target_path.as_str());
        let mut i: usize = 0;
        loop
            invariant
                i <= existing.len(),
                directory@ == target_path@,
                forall|j: nat|
                    j < i ==> is_taken(
                        existing@,
                        candidate_path(target_path@, #[trigger] candidate_name(j)),
                    ),
            decreases existing.len() - i,
        {
            let mut name = to_chars("ForgeReproducer");
            if i > 0 {
                push_decimal(&mut name, i as u64);
            }
            let mut path: Vec<char> = Vec::new();
            append(&mut path, &directory);
            append(&mut path, &name);
            append_str(&mut path, ".t.sol");
            assert(name@ == candidate_name(i as nat));
            assert(path@ == candidate_path(target_path@, candidate_name(i as nat)));
            if !Contract::taken(existing, &path) {
                return Ok(from_chars(&name));
            }
            if i == existing.len() {
                proof {
                    lemma_a_name_is_free(target_path@, existing@);
                }
                return Err(ContractError::NoFilename);
            }
            i += 1;
        }
    }

    /// Whether `path` is among `existing`.
    pub fn taken(existing: &Vec<String>, path: &Vec<char>) -> (r: bool)
        ensures
            r == is_taken(existing@, path@),
    {
        let mut k: usize = 0;
        while k < existing.len()
            invariant
                k <= existing.len(),
                forall|j: int| 0 <= j < k ==> existing@[j]@ != path@,
            decreases existing.len() - k,
        {
            if same(&to_chars(existing[k].as_str()), path) {
                return true;
            }
            k += 1;
        }
        false
    }
}

} // verus!
