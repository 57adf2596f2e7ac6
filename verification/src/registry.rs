//! The path mapping that ties context paths to branches, version naming,
//! and the plans for the entries that the registry commands create.

use vstd::prelude::*;
use vstd::string::*;
use crate::strmap::StrMap;
use crate::text::{chars_of, string_of};
use crate::version::is_ascii_digit;


verus! {

/// Where the mapping file lives on the master branch.
pub const MAPPING_PATH: &'static str = ".wctx/mapping.json";

/// The character view of an optional string.
pub open spec fn opt_view(o: Option<String>) -> Option<Seq<char>> {
    match o {
        Some(s) => Some(s@),
        None => None,
    }
}

/// The character view of an optional string slice.
pub open spec fn opt_str_view(o: Option<&str>) -> Option<Seq<char>> {
    match o {
        Some(s) => Some(s@),
        None => None,
    }
}

/// Copies an optional string.
pub fn clone_opt(o: &Option<String>) -> (r: Option<String>)
    ensures
        opt_view(r) == opt_view(*o),
{
    match o {
        Some(s) => Some(s.clone()),
        None => None,
    }
}

/// Turns an optional string slice into an optional owned string.
pub fn own_opt(o: Option<&str>) -> (r: Option<String>)
    ensures
        opt_view(r) == opt_str_view(o),
{
    match o {
        Some(s) => Some(s.to_owned()),
        None => None,
    }
}

/// One record of the mapping: a context path and the branch that holds it.
pub struct MappingEntry {
    pub path: String,
    pub branch: String,
    pub entry_type: String,
    pub parent: Option<String>,
    pub created: String,
}

/// The content of a `MappingEntry`.
pub struct MappingEntryView {
    pub path: Seq<char>,
    pub branch: Seq<char>,
    pub entry_type: Seq<char>,
    pub parent: Option<Seq<char>>,
    pub created: Seq<char>,
}

impl View for MappingEntry {
    type V = MappingEntryView;

    open spec fn view(&self) -> MappingEntryView {
        MappingEntryView {
            path: self.path@,
            branch: self.branch@,
            entry_type: self.entry_type@,
            parent: opt_view(self.parent),
            created: self.created@,
        }
    }
}

impl Clone for MappingEntry {
    fn clone(&self) -> (r: Self)
        ensures
            r@ == self@,
    {
        MappingEntry {
            path: self.path.clone(),
            branch: self.branch.clone(),
            entry_type: self.entry_type.clone(),
            parent: clone_opt(&self.parent),
            created: self.created.clone(),
        }
    }
}

/// Paths to entries, and branches back to paths.
pub struct PathMapping {
    pub entries: StrMap<MappingEntry>,
    pub branches: StrMap<String>,
}

/// The entry that `add` records for the given arguments.
pub open spec fn new_entry(
    path: Seq<char>,
    branch: Seq<char>,
    entry_type: Seq<char>,
    parent: Option<Seq<char>>,
    created: Seq<char>,
) -> MappingEntryView {
    MappingEntryView { path, branch, entry_type, parent, created }
}

/// A mapping's entries by path, each entry by its content.
pub open spec fn entries_view(m: PathMapping) -> Map<Seq<char>, MappingEntryView> {
    m.entries.map().map_values(|e: MappingEntry| e@)
}

/// A mapping's branches: branch name to path.
pub open spec fn branches_view(m: PathMapping) -> Map<Seq<char>, Seq<char>> {
    m.branches.map().map_values(|s: String| s@)
}

/// What a lookup by path finds in an entries view.
pub open spec fn lookup(entries: Map<Seq<char>, MappingEntryView>, path: Seq<char>) -> Option<
    MappingEntryView,
> {
    if entries.contains_key(path) {
        Some(entries[path])
    } else {
        None
    }
}

/// Mapping values through `f` commutes with an insert.
pub proof fn lemma_map_values_insert<V, W>(m: Map<Seq<char>, V>, k: Seq<char>, v: V, f: spec_fn(V) -> W)
    ensures
        m.insert(k, v).map_values(f) == m.map_values(f).insert(k, f(v)),
{
    assert(m.insert(k, v).map_values(f) =~= m.map_values(f).insert(k, f(v)));
}

impl PathMapping {
    /// An empty mapping.
    pub fn new() -> (m: Self)
        ensures
            entries_view(m) == Map::<Seq<char>, MappingEntryView>::empty(),
            branches_view(m) == Map::<Seq<char>, Seq<char>>::empty(),
            m.entries.entries().len() == 0,
            m.branches.entries().len() == 0,
    {
        let m = PathMapping { entries: StrMap::new(), branches: StrMap::new() };
        assert(entries_view(m) =~= Map::<Seq<char>, MappingEntryView>::empty());
        assert(branches_view(m) =~= Map::<Seq<char>, Seq<char>>::empty());
        m
    }

    /// Records `path` as held by `branch`, created at `created`; the entry under
    /// `path` and the path under `branch` are replaced if they were there.
    pub fn add_entry(
        &mut self,
        path: &str,
        branch: &str,
        entry_type: &str,
        parent: Option<&str>,
        created: String,
    )
        ensures
            entries_view(*final(self)) == entries_view(*old(self)).insert(
                path@,
                new_entry(path@, branch@, entry_type@, opt_str_view(parent), created@),
            ),
            branches_view(*final(self)) == branches_view(*old(self)).insert(branch@, path@),
    {
        let entry = MappingEntry {
            path: path.to_owned(),
            branch: branch.to_owned(),
            entry_type: entry_type.to_owned(),
            parent: own_opt(parent),
            created,
        };
        let path_value = path.to_owned();
        proof {
            lemma_map_values_insert(self.entries.map(), path@, entry, |e: MappingEntry| e@);
            lemma_map_values_insert(self.branches.map(), branch@, path_value, |s: String| s@);
        }
        self.entries.insert(path.to_owned(), entry);
        self.branches.insert(branch.to_owned(), path_value);
    }

    /// The entry recorded under `path`.
    pub fn get_by_path(&self, path: &str) -> (r: Option<&MappingEntry>)
        ensures
            match r {
                Some(e) => lookup(entries_view(*self), path@) == Some(e@),
                None => lookup(entries_view(*self), path@) is None,
            },
    {
        self.entries.get(path)
    }

    /// Records `path` as held by `branch`, stamped with the current local time.
    pub fn add(&mut self, path: &str, branch: &str, entry_type: &str, parent: Option<&str>)
        ensures
            exists|created: Seq<char>|
                local_time_text(created) && entries_view(*final(self)) == entries_view(
                    *old(self),
                ).insert(
                    path@,
                    new_entry(path@, branch@, entry_type@, opt_str_view(parent), created),
                ),
            branches_view(*final(self)) == branches_view(*old(self)).insert(branch@, path@),
    {
        let created = local_timestamp();
        let ghost c = created@;
        self.add_entry(path, branch, entry_type, parent, created);
        assert(entries_view(*self) == entries_view(*old(self)).insert(
            path@,
            new_entry(path@, branch@, entry_type@, opt_str_view(parent), c),
        ));
    }
}

/// Recording a path makes a lookup of that path find the recorded entry, and
/// leaves what a lookup of any other path finds as it was.
pub proof fn recorded_path_is_found(
    entries: Map<Seq<char>, MappingEntryView>,
    path: Seq<char>,
    entry: MappingEntryView,
    other: Seq<char>,
)
    ensures
        lookup(entries.insert(path, entry), path) == Some(entry),
        other != path ==> lookup(entries.insert(path, entry), other) == lookup(entries, other),
{
}

/// Recording a path under a branch makes the branch point to that path, and
/// leaves every other branch pointing where it did.
pub proof fn recorded_branch_points_to_path(
    branches: Map<Seq<char>, Seq<char>>,
    branch: Seq<char>,
    path: Seq<char>,
    other: Seq<char>,
)
    ensures
        branches.insert(branch, path).contains_key(branch),
        branches.insert(branch, path)[branch] == path,
        other != branch ==> (branches.insert(branch, path).contains_key(other)
            == branches.contains_key(other)),
        other != branch && branches.contains_key(other) ==> branches.insert(branch, path)[other]
            == branches[other],
{
}

/// A path recorded under the latest version is what resolving the bare path finds.
pub proof fn versioned_path_resolves(
    entries: Map<Seq<char>, MappingEntryView>,
    path: Seq<char>,
    latest: Seq<char>,
    entry: MappingEntryView,
)
    ensures
        resolve_versioned_spec(entries.insert(latest + "/"@ + path, entry), path, Some(latest))
            == Ok::<MappingEntryView, LookupError>(entry),
{
}

/// Why a context path could not be resolved.
#[derive(Clone, Copy, PartialEq, Eq, Debug)]
pub enum LookupError {
    /// There is no version branch to prefix the path with.
    NoVersion,
    /// Neither the path nor the path under the latest version is recorded.
    NotFound,
}

/// What resolving `path` under the latest version finds, once the exact path
/// was not recorded.
pub open spec fn resolve_versioned_spec(
    entries: Map<Seq<char>, MappingEntryView>,
    path: Seq<char>,
    latest: Option<Seq<char>>,
) -> Result<MappingEntryView, LookupError> {
    match latest {
        None => Err(LookupError::NoVersion),
        Some(l) => match lookup(entries, l + "/"@ + path) {
            Some(e) => Ok(e),
            None => Err(LookupError::NotFound),
        },
    }
}

/// Looks `path` up under the latest version `latest`.
pub fn resolve_versioned(mapping: &PathMapping, path: &str, latest: Option<&str>) -> (r: Result<
    MappingEntry,
    LookupError,
>)
    ensures
        match r {
            Ok(e) => resolve_versioned_spec(entries_view(*mapping), path@, opt_str_view(latest))
                == Ok::<MappingEntryView, LookupError>(e@),
            Err(x) => resolve_versioned_spec(entries_view(*mapping), path@, opt_str_view(latest))
                == Err::<MappingEntryView, LookupError>(x),
        },
{
    match latest {
        None => Err(LookupError::NoVersion),
        Some(l) => {
            let mut full = String::new();
            full.append(l);
            full.append("/");
            full.append(path);
            match mapping.get_by_path(full.as_str()) {
                Some(e) => Ok(e.clone()),
                None => Err(LookupError::NotFound),
            }
        },
    }
}

/// What resolving `path` finds: the entry recorded under the path itself, or
/// else the one under the latest version `latest`.
pub open spec fn resolve_spec(
    entries: Map<Seq<char>, MappingEntryView>,
    path: Seq<char>,
    latest: Option<Seq<char>>,
) -> Result<MappingEntryView, LookupError> {
    match lookup(entries, path) {
        Some(e) => Ok(e),
        None => resolve_versioned_spec(entries, path, latest),
    }
}

/// Looks `path` up as it is, then under the latest version `latest`.
pub fn resolve_entry(mapping: &PathMapping, path: &str, latest: Option<&str>) -> (r: Result<
    MappingEntry,
    LookupError,
>)
    ensures
        match r {
            Ok(e) => resolve_spec(entries_view(*mapping), path@, opt_str_view(latest))
                == Ok::<MappingEntryView, LookupError>(e@),
            Err(x) => resolve_spec(entries_view(*mapping), path@, opt_str_view(latest))
                == Err::<MappingEntryView, LookupError>(x),
        },
{
    match mapping.get_by_path(path) {
        Some(e) => Ok(e.clone()),
        None => resolve_versioned(mapping, path, latest),
    }
}

/// Two ASCII digits at positions `i` and `i + 1` of `s`.
pub open spec fn two_digits_at(s: Seq<char>, i: int) -> bool {
    is_ascii_digit(s[i]) && is_ascii_digit(s[i + 1])
}

/// A year as `%Y` writes it: at least four ASCII digits, with a sign in front
/// for years outside 0 to 9999.
pub open spec fn year_text(y: Seq<char>) -> bool {
    &&& y.len() >= 4
    &&& forall|i: int|
        0 <= i < y.len() ==> is_ascii_digit(#[trigger] y[i]) || (i == 0 && (y[i] == '+' || y[i]
            == '-'))
}

/// A time written as `%Y-%m-%d %H:%M:%S`: the year, then `-MM-DD HH:MM:SS`
/// with two ASCII digits in each field.
pub open spec fn local_time_text(s: Seq<char>) -> bool {
    s.len() >= 19 && {
        let t = s.len() - 15;
        &&& year_text(s.take(t))
        &&& s[t] == '-'
        &&& two_digits_at(s, t + 1)
        &&& s[t + 3] == '-'
        &&& two_digits_at(s, t + 4)
        &&& s[t + 6] == ' '
        &&& two_digits_at(s, t + 7)
        &&& s[t + 9] == ':'
        &&& two_digits_at(s, t + 10)
        &&& s[t + 12] == ':'
        &&& two_digits_at(s, t + 13)
    }
}

/// Calls `chrono::Local::now()` and formats it as `%Y-%m-%d %H:%M:%S`. Which
/// time it is is not stated (it is the machine's clock); stated is the shape
/// that chrono's formatter gives every outcome: `%Y` writes at least four
/// digits (signed outside 0 to 9999), and `%m %d %H %M %S` two zero-padded digits.
#[verifier::external_body]
fn local_timestamp() -> (r: String)
    ensures
        local_time_text(r@),
{
    chrono::Local::now().format("%Y-%m-%d %H:%M:%S").to_string()
}

/// Calls `rand::Rng::gen_range(0..n)` on `rand::thread_rng()`; the result is
/// random and below `n` (the range is non-empty, so `gen_range` does not panic;
/// `thread_rng` panics only when the system's generator cannot seed it).
#[verifier::external_body]
fn random_below(n: usize) -> (r: usize)
    requires
        n > 0,
    ensures
        r < n,
{
    rand::Rng::gen_range(&mut rand::thread_rng(), 0..n)
}

/// The characters a random branch code is drawn from.
pub open spec fn code_alphabet() -> Seq<char> {
    "abcdefghijklmnopqrstuvwxyz0123456789"@
}

/// The code spelled by eight positions in `code_alphabet`.
pub fn code_from_draws(draws: &Vec<usize>) -> (code: String)
    requires
        draws@.len() == 8,
        forall|i: int| 0 <= i < 8 ==> draws@[i] < 36,
    ensures
        code@.len() == 8,
        forall|i: int| 0 <= i < 8 ==> code@[i] == code_alphabet()[draws@[i] as int],
{
    proof {
        reveal_strlit("abcdefghijklmnopqrstuvwxyz0123456789");
    }
    let alphabet = chars_of("abcdefghijklmnopqrstuvwxyz0123456789");
    let mut v: Vec<char> = Vec::new();
    let mut k: usize = 0;
    while k < 8
        invariant
            k <= 8,
            draws@.len() == 8,
            forall|i: int| 0 <= i < 8 ==> draws@[i] < 36,
            v@.len() == k,
            alphabet@ == code_alphabet(),
            alphabet@.len() == 36,
            forall|i: int| 0 <= i < k ==> v@[i] == code_alphabet()[draws@[i] as int],
        decreases 8 - k,
    {
        let c = alphabet[draws[k]];
        v.push(c);
        k += 1;
    }
    string_of(&v)
}

/// A random code of 8 characters drawn from `code_alphabet`: eight positions
/// drawn at random, spelled by `code_from_draws`.
pub fn generate_random_code() -> (code: String)
    ensures
        code@.len() == 8,
        forall|i: int| 0 <= i < 8 ==> code_alphabet().contains(#[trigger] code@[i]),
{
    let mut draws: Vec<usize> = Vec::new();
    let mut k: usize = 0;
    while k < 8
        invariant
            k <= 8,
            draws@.len() == k,
            forall|i: int| 0 <= i < k ==> draws@[i] < 36,
        decreases 8 - k,
    {
        draws.push(random_below(36));
        k += 1;
    }
    let code = code_from_draws(&draws);
    proof {
        reveal_strlit("abcdefghijklmnopqrstuvwxyz0123456789");
        assert forall|i: int| 0 <= i < 8 implies code_alphabet().contains(#[trigger] code@[i]) by {
            assert(code@[i] == code_alphabet()[draws@[i] as int]);
        }
    }
    code
}

} // verus!
