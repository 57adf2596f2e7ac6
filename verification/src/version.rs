//! Version branches `v1`, `v2`, ...: recognising them, finding the latest,
//! and naming the next one.

use vstd::prelude::*;
use vstd::string::*;
use crate::registry::{opt_view, opt_str_view};
use crate::text::{chars_of, string_of};

verus! {

/// `c` is one of `0`..`9`.
pub open spec fn is_ascii_digit(c: char) -> bool {
    48 <= (c as u32) <= 57
}

/// `c` can be matched by the class `\d` in a Unicode regular expression:
/// an ASCII digit, or a character outside ASCII.
pub open spec fn digit_like(c: char) -> bool {
    is_ascii_digit(c) || (c as u32) > 127
}

/// Every character of `d` is an ASCII digit.
pub open spec fn all_ascii_digits(d: Seq<char>) -> bool {
    forall|i: int| 0 <= i < d.len() ==> is_ascii_digit(#[trigger] d[i])
}

/// `s` is `v` followed by one or more ASCII digits.
pub open spec fn plain_version_name(s: Seq<char>) -> bool {
    s.len() > 1 && s[0] == 'v' && all_ascii_digits(s.drop_first())
}

/// The decimal value of a string of ASCII digits.
pub open spec fn decimal(d: Seq<char>) -> int
    decreases d.len(),
{
    if d.len() == 0 {
        0
    } else {
        decimal(d.drop_last()) * 10 + ((d.last() as u32) - 48)
    }
}

/// What `str::parse::<u32>` gives for a capture of digits: the value when all
/// characters are ASCII digits and it fits, nothing otherwise.
pub open spec fn parse_u32(d: Seq<char>) -> Option<u32> {
    if d.len() > 0 && all_ascii_digits(d) && decimal(d) <= u32::MAX {
        Some(decimal(d) as u32)
    } else {
        None
    }
}

/// A digit string has a non-negative value that only grows as digits are added.
pub proof fn lemma_decimal_prefix(d: Seq<char>, i: int)
    requires
        all_ascii_digits(d),
        0 <= i <= d.len(),
    ensures
        0 <= decimal(d.take(i)) <= decimal(d),
    decreases d.len(),
{
    if d.len() > 0 {
        if i == d.len() {
            assert(d.take(i) =~= d);
            lemma_decimal_prefix(d.drop_last(), i - 1);
        } else {
            assert(d.drop_last().take(i) =~= d.take(i));
            lemma_decimal_prefix(d.drop_last(), i);
        }
    } else {
        assert(d.take(i) =~= d);
    }
}

/// Computes `parse_u32`.
pub fn parse_u32_exec(d: &Vec<char>) -> (r: Option<u32>)
    ensures
        r == parse_u32(d@),
{
    if d.len() == 0 {
        return None;
    }
    let mut acc: u64 = 0;
    let mut i: usize = 0;
    while i < d.len()
        invariant
            0 < d.len(),
            i <= d.len(),
            all_ascii_digits(d@.take(i as int)),
            acc == decimal(d@.take(i as int)),
            acc <= u32::MAX,
        decreases d.len() - i,
    {
        let c = d[i];
        let u = c as u32;
        if u < 48 || u > 57 {
            assert(!all_ascii_digits(d@));
            return None;
        }
        assert(d@.take(i + 1).drop_last() =~= d@.take(i as int));
        acc = acc * 10 + (u - 48) as u64;
        i += 1;
        if acc > 0xFFFF_FFFF {
            proof {
                if all_ascii_digits(d@) {
                    lemma_decimal_prefix(d@, i as int);
                }
            }
            return None;
        }
    }
    assert(d@.take(d.len() as int) =~= d@);
    Some(acc as u32)
}

/// The number of a version capture, `0` when there is none or it does not parse.
pub open spec fn number_of_capture(cap: Option<Seq<char>>) -> u32 {
    match cap {
        Some(d) => match parse_u32(d) {
            Some(n) => n,
            None => 0,
        },
        None => 0,
    }
}

/// Computes `number_of_capture` for a capture handed in.
pub fn capture_number(cap: &Option<String>) -> (n: u32)
    ensures
        n == number_of_capture(opt_view(*cap)),
{
    match cap {
        Some(d) => {
            let v = chars_of(d.as_str());
            match parse_u32_exec(&v) {
                Some(n) => n,
                None => 0,
            }
        },
        None => 0,
    }
}

/// What `^v(\d+)$` captures in group 1 of a name, when it matches.
pub uninterp spec fn anchored_version_digits(name: Seq<char>) -> Option<Seq<char>>;

/// What `v(\d+)` captures in group 1 at its leftmost match in a name.
pub uninterp spec fn first_version_digits(name: Seq<char>) -> Option<Seq<char>>;

/// What the pattern `^v(\d+)$` is documented to do on `name`: a match is the
/// whole name, `v` and then digits; a name of `v` and ASCII digits matches.
pub open spec fn anchored_facts(name: Seq<char>, cap: Option<Seq<char>>) -> bool {
    &&& cap matches Some(d) ==> name == seq!['v'] + d && d.len() > 0 && forall|i: int|
        0 <= i < d.len() ==> digit_like(#[trigger] d[i])
    &&& plain_version_name(name) ==> cap == Some(name.drop_first())
}

/// `anchored_facts` for the capture that `^v(\d+)$` makes of `name`.
pub open spec fn anchored_ok(name: Seq<char>) -> bool {
    anchored_facts(name, anchored_version_digits(name))
}

/// What the pattern `v(\d+)` is documented to do on `name`: the digits follow a
/// `v` in the name; a name of `v` and ASCII digits gives its digits.
pub open spec fn leading_facts(name: Seq<char>, cap: Option<Seq<char>>) -> bool {
    &&& cap matches Some(d) ==> d.len() > 0 && crate::text::contains(name, seq!['v'] + d)
    &&& plain_version_name(name) ==> cap == Some(name.drop_first())
}

/// `leading_facts` for the capture that `v(\d+)` makes of `name`.
pub open spec fn leading_ok(name: Seq<char>) -> bool {
    leading_facts(name, first_version_digits(name))
}

/// Calls `regex::Regex::captures` with the pattern `^v(\d+)$` and returns group 1.
/// Stated: a match is the whole name, `v` and then the digits; a name of `v` and
/// ASCII digits matches. Not stated: which non-ASCII characters `\d` accepts.
#[verifier::external_body]
fn version_digits(name: &str) -> (r: Option<String>)
    ensures
        opt_view(r) == anchored_version_digits(name@),
        anchored_facts(name@, opt_view(r)),
{
    regex::Regex::new(r"^v(\d+)$").unwrap().captures(name).map(|c| c[1].to_string())
}

/// Calls `regex::Regex::captures` with the pattern `v(\d+)` (not anchored) and
/// returns group 1 of the leftmost match. Stated: the digits follow a `v` in the
/// name; a name of `v` and ASCII digits gives its digits.
#[verifier::external_body]
fn leading_version_digits(name: &str) -> (r: Option<String>)
    ensures
        opt_view(r) == first_version_digits(name@),
        leading_facts(name@, opt_view(r)),
{
    regex::Regex::new(r"v(\d+)").unwrap().captures(name).map(|c| c[1].to_string())
}

/// The number of a version branch name; `0` for a name that is not one.
pub open spec fn version_num(name: Seq<char>) -> u32 {
    number_of_capture(anchored_version_digits(name))
}

/// Computes `version_num`.
pub fn version_number(name: &str) -> (n: u32)
    ensures
        n == version_num(name@),
        anchored_ok(name@),
{
    let cap = version_digits(name);
    capture_number(&cap)
}

/// `name` is a version branch name (`^v(\d+)$` matches it).
pub open spec fn is_version_name(name: Seq<char>) -> bool {
    anchored_version_digits(name) is Some
}

/// Decides `is_version_name`.
pub fn is_version_branch(name: &str) -> (b: bool)
    ensures
        b == is_version_name(name@),
        anchored_ok(name@),
{
    version_digits(name).is_some()
}

/// The version branch names among `names`, in order.
pub open spec fn version_branches(names: Seq<Seq<char>>) -> Seq<Seq<char>>
    decreases names.len(),
{
    if names.len() == 0 {
        Seq::empty()
    } else {
        let prev = version_branches(names.drop_last());
        if is_version_name(names.last()) {
            prev.push(names.last())
        } else {
            prev
        }
    }
}

/// Computes `version_branches`.
pub fn filter_version_branches(names: &Vec<String>) -> (r: Vec<String>)
    ensures
        string_views(r@) == version_branches(string_views(names@)),
        forall|j: int| 0 <= j < names@.len() ==> anchored_ok(#[trigger] string_views(names@)[j]),
{
    let mut r: Vec<String> = Vec::new();
    let mut i: usize = 0;
    while i < names.len()
        invariant
            i <= names.len(),
            string_views(r@) == version_branches(string_views(names@).take(i as int)),
            forall|j: int| 0 <= j < i ==> anchored_ok(#[trigger] string_views(names@)[j]),
        decreases names.len() - i,
    {
        assert(string_views(names@).take(i + 1).drop_last() =~= string_views(names@).take(
            i as int,
        ));
        if is_version_branch(names[i].as_str()) {
            let ghost before = r@;
            r.push(names[i].clone());
            assert(string_views(r@) =~= string_views(before).push(names@[i as int]@));
        }
        i += 1;
    }
    assert(string_views(names@).take(names.len() as int) =~= string_views(names@));
    r
}

/// The views of a sequence of strings.
pub open spec fn string_views(s: Seq<String>) -> Seq<Seq<char>> {
    s.map_values(|x: String| x@)
}

/// Scanning names in order: the highest number seen so far (above 0) and the
/// first name that carried it.
pub open spec fn latest_state(names: Seq<Seq<char>>) -> (u32, Option<Seq<char>>)
    decreases names.len(),
{
    if names.len() == 0 {
        (0u32, None)
    } else {
        let prev = latest_state(names.drop_last());
        let n = version_num(names.last());
        if n > prev.0 {
            (n, Some(names.last()))
        } else {
            prev
        }
    }
}

/// The latest version branch among the names.
pub open spec fn latest_version(names: Seq<Seq<char>>) -> Option<Seq<char>> {
    latest_state(names).1
}

/// The latest version branch among `names`: the first name with the highest
/// version number, when some number is above zero.
pub fn latest_version_of(names: &Vec<String>) -> (r: Option<String>)
    ensures
        opt_view(r) == latest_version(string_views(names@)),
        forall|j: int| 0 <= j < names@.len() ==> anchored_ok(#[trigger] string_views(names@)[j]),
{
    let mut max_version: u32 = 0;
    let mut latest: Option<String> = None;
    let mut i: usize = 0;
    while i < names.len()
        invariant
            i <= names.len(),
            (max_version, opt_view(latest)) == latest_state(string_views(names@).take(i as int)),
            forall|j: int| 0 <= j < i ==> anchored_ok(#[trigger] string_views(names@)[j]),
        decreases names.len() - i,
    {
        assert(string_views(names@).take(i + 1).drop_last() =~= string_views(names@).take(
            i as int,
        ));
        let num = version_number(names[i].as_str());
        if num > max_version {
            max_version = num;
            latest = Some(names[i].clone());
        }
        i += 1;
    }
    assert(string_views(names@).take(names.len() as int) =~= string_views(names@));
    latest
}

/// The number the next version gets after `latest`.
pub open spec fn next_version_number(latest: Option<Seq<char>>) -> int {
    match latest {
        Some(v) => number_of_capture(first_version_digits(v)) + 1,
        None => 1,
    }
}

/// The ASCII digit for `d < 10`.
pub open spec fn digit_char(d: nat) -> char {
    (d + 48) as char
}

/// The decimal digits of `n`, without leading zeros.
pub open spec fn decimal_digits(n: nat) -> Seq<char>
    decreases n,
{
    if n < 10 {
        seq![digit_char(n)]
    } else {
        decimal_digits(n / 10) + seq![digit_char(n % 10)]
    }
}

/// The branch name of version `n`.
pub open spec fn version_name(n: nat) -> Seq<char> {
    seq!['v'] + decimal_digits(n)
}

/// Computes `decimal_digits`.
pub fn decimal_chars(n: u32) -> (v: Vec<char>)
    ensures
        v@ == decimal_digits(n as nat),
    decreases n,
{
    let d = (n % 10) as u8;
    let c = (48u8 + d) as char;
    assert(c == digit_char((n % 10) as nat));
    if n < 10 {
        let mut v: Vec<char> = Vec::new();
        v.push(c);
        assert(v@ =~= seq![digit_char(n as nat)]);
        v
    } else {
        let mut v = decimal_chars(n / 10);
        v.push(c);
        v
    }
}

/// The name of the version that follows `latest`, or `None` when its number
/// would not fit in a `u32`.
pub fn new_version_name(latest: Option<&str>) -> (r: Option<String>)
    ensures
        match r {
            Some(s) => next_version_number(opt_str_view(latest)) <= u32::MAX && s@ == version_name(
                next_version_number(opt_str_view(latest)) as nat,
            ),
            None => next_version_number(opt_str_view(latest)) > u32::MAX,
        },
        latest matches Some(l) ==> leading_ok(l@),
{
    let current = match latest {
        Some(v) => {
            let cap = leading_version_digits(v);
            let n = capture_number(&cap);
            if n == u32::MAX {
                return None;
            }
            n
        },
        None => 0,
    };
    let mut name = chars_of("v");
    proof {
        reveal_strlit("v");
    }
    let digits = decimal_chars(current + 1);
    crate::text::extend_chars(&mut name, &digits);
    assert(name@ =~= version_name((current + 1) as nat));
    Some(string_of(&name))
}


/// What the scan behind `latest_version` keeps: the highest number and the first
/// name that carries it.
pub proof fn lemma_latest_state(names: Seq<Seq<char>>)
    ensures
        (latest_state(names).1 is None) == (latest_state(names).0 == 0),
        forall|j: int| 0 <= j < names.len() ==> version_num(#[trigger] names[j]) <= latest_state(names).0,
        latest_state(names).1 matches Some(x) ==> exists|i: int|
            0 <= i < names.len() && names[i] == x && version_num(x) == latest_state(names).0
                && forall|j: int| 0 <= j < i ==> version_num(#[trigger] names[j]) < latest_state(
                names,
            ).0,
    decreases names.len(),
{
    if names.len() > 0 {
        let prev = names.drop_last();
        lemma_latest_state(prev);
        assert forall|j: int| 0 <= j < names.len() - 1 implies names[j] == prev[j] by {}
        let n = version_num(names.last());
        if n > latest_state(prev).0 {
            let i = names.len() - 1;
            assert forall|j: int| 0 <= j < i implies version_num(#[trigger] names[j]) < n by {
                assert(names[j] == prev[j]);
            }
        } else {
            if let Some(x) = latest_state(prev).1 {
                let i = choose|i: int|
                    0 <= i < prev.len() && prev[i] == x && version_num(x) == latest_state(prev).0
                        && forall|j: int| 0 <= j < i ==> version_num(#[trigger] prev[j]) < latest_state(prev).0;
                assert(names[i] == x);
                assert forall|j: int| 0 <= j < i implies version_num(#[trigger] names[j]) < latest_state(names).0 by {
                    assert(names[j] == prev[j]);
                }
            }
        }
    }
}

/// The latest version is a version branch among the names whose number is the
/// highest there, and the first with that number; when there is none, no name
/// carries a version number.
pub proof fn latest_version_is_greatest(names: Seq<Seq<char>>)
    ensures
        match latest_version(names) {
            Some(x) => {
                &&& version_num(x) > 0
                &&& exists|i: int|
                    0 <= i < names.len() && names[i] == x && forall|j: int|
                        0 <= j < i ==> version_num(#[trigger] names[j]) < version_num(x)
                &&& forall|j: int| 0 <= j < names.len() ==> version_num(#[trigger] names[j]) <= version_num(x)
            },
            None => forall|j: int| 0 <= j < names.len() ==> version_num(#[trigger] names[j]) == 0,
        },
{
    lemma_latest_state(names);
}

/// The digits of `n` read back as `n`.
pub proof fn lemma_decimal_digits(n: nat)
    ensures
        decimal_digits(n).len() > 0,
        all_ascii_digits(decimal_digits(n)),
        decimal(decimal_digits(n)) == n,
    decreases n,
{
    if n < 10 {
        assert(decimal_digits(n).drop_last() =~= Seq::<char>::empty());
        assert((digit_char(n) as u32) == n + 48);
        assert(decimal(Seq::<char>::empty()) == 0);
        assert(decimal(decimal_digits(n)) == decimal(Seq::<char>::empty()) * 10 + n);
    } else {
        assert((digit_char(n % 10) as u32) == n % 10 + 48);
        lemma_decimal_digits(n / 10);
        let d = decimal_digits(n / 10);
        assert(decimal_digits(n).drop_last() =~= d);
        assert(decimal_digits(n).last() == digit_char(n % 10));
        assert(decimal(decimal_digits(n)) == decimal(d) * 10 + (n % 10) as int);
        assert(n == (n / 10) * 10 + n % 10);
        assert forall|i: int| 0 <= i < decimal_digits(n).len() implies is_ascii_digit(
            #[trigger] decimal_digits(n)[i],
        ) by {
            if i < d.len() {
                assert(decimal_digits(n)[i] == d[i]);
            }
        }
    }
}

/// The name of version `n` is a version branch name with number `n`
/// (given that `^v(\d+)$` does on it what it is documented to do).
pub proof fn version_name_round_trip(n: nat)
    requires
        1 <= n <= u32::MAX,
        anchored_ok(version_name(n)),
    ensures
        plain_version_name(version_name(n)),
        is_version_name(version_name(n)),
        version_num(version_name(n)) == n,
{
    lemma_decimal_digits(n);
    let name = version_name(n);
    assert(name.drop_first() =~= decimal_digits(n));
    assert forall|i: int| 0 <= i < name.drop_first().len() implies is_ascii_digit(
        #[trigger] name.drop_first()[i],
    ) by {
        assert(name.drop_first()[i] == decimal_digits(n)[i]);
    }
}

/// The highest version number among the names (0 when there is none).
pub open spec fn highest_version_number(names: Seq<Seq<char>>) -> u32 {
    latest_state(names).0
}

/// The number the next version gets is one above the highest number among the
/// branches (given that both patterns do on the names what they are documented
/// to do).
pub proof fn lemma_next_number(names: Seq<Seq<char>>)
    requires
        forall|j: int| 0 <= j < names.len() ==> anchored_ok(#[trigger] names[j]),
        latest_version(names) matches Some(x) ==> leading_ok(x),
    ensures
        next_version_number(latest_version(names)) == highest_version_number(names) + 1,
{
    lemma_latest_state(names);
    match latest_version(names) {
        Some(x) => {
            let i = choose|i: int|
                0 <= i < names.len() && names[i] == x && version_num(x) == latest_state(names).0
                    && forall|j: int| 0 <= j < i ==> version_num(#[trigger] names[j]) < latest_state(names).0;
            assert(anchored_ok(names[i]));
            let d = anchored_version_digits(x)->0;
            assert(parse_u32(d) is Some);
            assert(x.drop_first() =~= d);
            assert forall|k: int| 0 <= k < x.drop_first().len() implies is_ascii_digit(
                #[trigger] x.drop_first()[k],
            ) by {
                assert(x.drop_first()[k] == d[k]);
            }
            assert(plain_version_name(x));
        },
        None => {},
    }
}

/// A version created after the latest one becomes the latest: its number is one
/// above the highest number among the branches (given that both patterns do on
/// the names what they are documented to do).
pub proof fn new_version_becomes_latest(names: Seq<Seq<char>>)
    requires
        forall|j: int| 0 <= j < names.len() ==> anchored_ok(#[trigger] names[j]),
        latest_version(names) matches Some(x) ==> leading_ok(x),
        next_version_number(latest_version(names)) <= u32::MAX,
        anchored_ok(version_name(next_version_number(latest_version(names)) as nat)),
    ensures
        latest_version(
            names.push(version_name(next_version_number(latest_version(names)) as nat)),
        ) == Some(version_name(next_version_number(latest_version(names)) as nat)),
        version_num(version_name(next_version_number(latest_version(names)) as nat))
            == highest_version_number(names) + 1,
{
    lemma_latest_state(names);
    lemma_next_number(names);
    let next = next_version_number(latest_version(names));
    let new_name = version_name(next as nat);
    version_name_round_trip(next as nat);
    assert(names.push(new_name).drop_last() =~= names);
}

/// The name of the version that `wctx registry new` creates among the branch
/// names: one above the highest version number there, which becomes the latest
/// version; `None` when that number would not fit in a `u32`.
pub fn next_version(names: &Vec<String>) -> (r: Option<String>)
    ensures
        match r {
            Some(s) => {
                &&& highest_version_number(string_views(names@)) < u32::MAX
                &&& s@ == version_name((highest_version_number(string_views(names@)) + 1) as nat)
                &&& is_version_name(s@)
                &&& version_num(s@) == highest_version_number(string_views(names@)) + 1
                &&& forall|j: int|
                    0 <= j < names@.len() ==> version_num(#[trigger] string_views(names@)[j])
                        < version_num(s@)
                &&& latest_version(string_views(names@).push(s@)) == Some(s@)
            },
            None => highest_version_number(string_views(names@)) == u32::MAX,
        },
{
    let ghost ns = string_views(names@);
    let latest = latest_version_of(names);
    let new_name = match &latest {
        Some(l) => new_version_name(Some(l.as_str())),
        None => new_version_name(None),
    };
    proof {
        lemma_next_number(ns);
        lemma_latest_state(ns);
    }
    match new_name {
        Some(s) => {
            let is_version = is_version_branch(s.as_str());
            proof {
                new_version_becomes_latest(ns);
                version_name_round_trip(next_version_number(latest_version(ns)) as nat);
                assert(is_version);
            }
            Some(s)
        },
        None => None,
    }
}

} // verus!
