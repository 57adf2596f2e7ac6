//! Character-level text utilities with exact specifications.

use vstd::prelude::*;
use vstd::string::*;

verus! {

/// Unicode `White_Space` characters, the set that `str::trim` removes.
pub open spec fn is_ws(c: char) -> bool {
    let u = c as u32;
    ||| 0x09 <= u <= 0x0D
    ||| u == 0x20
    ||| u == 0x85
    ||| u == 0xA0
    ||| u == 0x1680
    ||| 0x2000 <= u <= 0x200A
    ||| u == 0x2028
    ||| u == 0x2029
    ||| u == 0x202F
    ||| u == 0x205F
    ||| u == 0x3000
}

/// Decides `is_ws`.
pub fn is_ws_char(c: char) -> (b: bool)
    ensures
        b == is_ws(c),
{
    let u = c as u32;
    (0x09 <= u && u <= 0x0D) || u == 0x20 || u == 0x85 || u == 0xA0 || u == 0x1680 || (0x2000
        <= u && u <= 0x200A) || u == 0x2028 || u == 0x2029 || u == 0x202F || u == 0x205F || u
        == 0x3000
}

/// The characters of a string slice, in order.
pub fn chars_of(s: &str) -> (v: Vec<char>)
    ensures
        v@ == s@,
{
    let mut v: Vec<char> = Vec::new();
    for c in it: s.chars()
        invariant
            v@ == it.seq().take(it.index() as int),
    {
        v.push(c);
    }
    v
}


/// The characters of `v` collected into a `String`.
#[verifier::external_body]
pub(crate) fn string_of(v: &Vec<char>) -> (s: String)
    ensures
        s@ == v@,
{
    v.iter().collect()
}

/// `p` occurs in `s` starting at index `i`.
pub open spec fn occurs_at(s: Seq<char>, p: Seq<char>, i: int) -> bool {
    0 <= i && i + p.len() <= s.len() && s.subrange(i, i + p.len()) == p
}

/// `s` begins with `p`.
pub open spec fn starts_with(s: Seq<char>, p: Seq<char>) -> bool {
    occurs_at(s, p, 0)
}

/// `s` ends with `p`.
pub open spec fn ends_with(s: Seq<char>, p: Seq<char>) -> bool {
    p.len() <= s.len() && occurs_at(s, p, s.len() - p.len())
}

/// Index of the first occurrence of `p` in `s` at or after `i`.
pub open spec fn find_from(s: Seq<char>, p: Seq<char>, i: int) -> Option<int>
    decreases s.len() + 1 - i,
{
    if i < 0 || i + p.len() > s.len() {
        None
    } else if occurs_at(s, p, i) {
        Some(i)
    } else {
        find_from(s, p, i + 1)
    }
}

/// Index of the first occurrence of `p` in `s` (`str::find`).
pub open spec fn find(s: Seq<char>, p: Seq<char>) -> Option<int> {
    find_from(s, p, 0)
}

/// `p` occurs somewhere in `s` (`str::contains`).
pub open spec fn contains(s: Seq<char>, p: Seq<char>) -> bool {
    find(s, p) is Some
}

/// What `find_from` returns: the least occurrence at or after `i`.
pub proof fn lemma_find_from(s: Seq<char>, p: Seq<char>, i: int)
    requires
        0 <= i,
    ensures
        match find_from(s, p, i) {
            Some(k) => i <= k && occurs_at(s, p, k) && forall|j: int|
                i <= j < k ==> !occurs_at(s, p, j),
            None => forall|j: int| i <= j ==> !occurs_at(s, p, j),
        },
    decreases s.len() + 1 - i,
{
    if i + p.len() > s.len() {
    } else if occurs_at(s, p, i) {
    } else {
        lemma_find_from(s, p, i + 1);
    }
}

/// Decides `occurs_at`.
pub fn occurs_at_exec(s: &Vec<char>, p: &Vec<char>, i: usize) -> (b: bool)
    ensures
        b == occurs_at(s@, p@, i as int),
{
    if i > s.len() || p.len() > s.len() - i {
        return false;
    }
    let mut j: usize = 0;
    while j < p.len()
        invariant
            j <= p.len(),
            i + p.len() <= s.len(),
            forall|k: int| 0 <= k < j ==> s@[i + k] == p@[k],
        decreases p.len() - j,
    {
        if s[i + j] != p[j] {
            assert(s@.subrange(i as int, i + p.len())[j as int] != p@[j as int]);
            return false;
        }
        j += 1;
    }
    assert(s@.subrange(i as int, i + p.len()) =~= p@);
    true
}

/// Decides `starts_with`.
pub fn has_prefix(s: &Vec<char>, p: &Vec<char>) -> (b: bool)
    ensures
        b == starts_with(s@, p@),
{
    occurs_at_exec(s, p, 0)
}

/// Decides `ends_with`.
pub fn has_suffix(s: &Vec<char>, p: &Vec<char>) -> (b: bool)
    ensures
        b == ends_with(s@, p@),
{
    if p.len() > s.len() {
        false
    } else {
        occurs_at_exec(s, p, s.len() - p.len())
    }
}

/// Computes `find`.
pub fn find_exec(s: &Vec<char>, p: &Vec<char>) -> (r: Option<usize>)
    ensures
        match r {
            Some(k) => find(s@, p@) == Some(k as int),
            None => find(s@, p@) is None,
        },
{
    let mut i: usize = 0;
    while i < s.len()
        invariant
            i <= s.len(),
            find(s@, p@) == find_from(s@, p@, i as int),
        decreases s.len() - i,
    {
        if p.len() > s.len() - i {
            return None;
        }
        if occurs_at_exec(s, p, i) {
            return Some(i);
        }
        i += 1;
    }
    let b = occurs_at_exec(s, p, i);
    assert(find_from(s@, p@, i + 1) is None);
    assert(find_from(s@, p@, i as int) == if b { Some(i as int) } else { None::<int> });
    if b {
        Some(i)
    } else {
        None
    }
}

/// Decides `contains`.
pub fn contains_exec(s: &Vec<char>, p: &Vec<char>) -> (b: bool)
    ensures
        b == contains(s@, p@),
{
    find_exec(s, p).is_some()
}


/// `s@.subrange(a, b)` as a new vector.
pub fn subvec(s: &Vec<char>, a: usize, b: usize) -> (v: Vec<char>)
    requires
        a <= b <= s.len(),
    ensures
        v@ == s@.subrange(a as int, b as int),
{
    let mut v: Vec<char> = Vec::new();
    let mut i = a;
    while i < b
        invariant
            a <= i <= b <= s.len(),
            v@ == s@.subrange(a as int, i as int),
        decreases b - i,
    {
        v.push(s[i]);
        i += 1;
        assert(v@ =~= s@.subrange(a as int, i as int));
    }
    v
}

/// `s` with leading white space removed.
pub open spec fn trim_start(s: Seq<char>) -> Seq<char>
    decreases s.len(),
{
    if s.len() > 0 && is_ws(s[0]) {
        trim_start(s.drop_first())
    } else {
        s
    }
}

/// `s` with trailing white space removed.
pub open spec fn trim_end(s: Seq<char>) -> Seq<char>
    decreases s.len(),
{
    if s.len() > 0 && is_ws(s.last()) {
        trim_end(s.drop_last())
    } else {
        s
    }
}

/// `s` with white space removed at both ends (`str::trim`).
pub open spec fn trim(s: Seq<char>) -> Seq<char> {
    trim_end(trim_start(s))
}

/// `trim_start` drops exactly the leading white space: the first `a` characters.
pub proof fn lemma_trim_start(s: Seq<char>) -> (a: int)
    ensures
        0 <= a <= s.len(),
        trim_start(s) == s.skip(a),
        forall|k: int| 0 <= k < a ==> is_ws(#[trigger] s[k]),
        a < s.len() ==> !is_ws(s[a]),
    decreases s.len(),
{
    if s.len() > 0 && is_ws(s[0]) {
        let a = lemma_trim_start(s.drop_first());
        assert(s.skip(a + 1) =~= s.drop_first().skip(a));
        assert forall|k: int| 0 <= k < a + 1 implies is_ws(#[trigger] s[k]) by {
            if k > 0 {
                assert(s[k] == s.drop_first()[k - 1]);
            }
        }
        if a + 1 < s.len() {
            assert(s[a + 1] == s.drop_first()[a]);
        }
        a + 1
    } else {
        assert(s.skip(0) =~= s);
        0
    }
}

/// `trim_end` drops exactly the trailing white space: it keeps the first `b` characters.
pub proof fn lemma_trim_end(s: Seq<char>) -> (b: int)
    ensures
        0 <= b <= s.len(),
        trim_end(s) == s.take(b),
        forall|k: int| b <= k < s.len() ==> is_ws(#[trigger] s[k]),
        b > 0 ==> !is_ws(s[b - 1]),
    decreases s.len(),
{
    if s.len() > 0 && is_ws(s.last()) {
        let b = lemma_trim_end(s.drop_last());
        assert(s.take(b) =~= s.drop_last().take(b));
        assert forall|k: int| b <= k < s.len() implies is_ws(#[trigger] s[k]) by {
            if k < s.len() - 1 {
                assert(s[k] == s.drop_last()[k]);
            }
        }
        if b > 0 {
            assert(s[b - 1] == s.drop_last()[b - 1]);
        }
        b
    } else {
        assert(s.take(s.len() as int) =~= s);
        s.len() as int
    }
}

/// A non-empty trimmed text begins and ends with a character that is not white
/// space, and occurs in the text it was trimmed from.
pub proof fn lemma_trim_occurs(x: Seq<char>) -> (off: int)
    requires
        trim(x).len() > 0,
    ensures
        occurs_at(x, trim(x), off),
        !is_ws(trim(x)[0]),
        !is_ws(trim(x).last()),
{
    let a = lemma_trim_start(x);
    let t1 = x.skip(a);
    let b = lemma_trim_end(t1);
    let t = t1.take(b);
    assert(trim(x) == t);
    assert(b > 0);
    assert(t[0] == x[a]);
    assert(t.last() == t1[b - 1]);
    assert(x.subrange(a, a + b) =~= t);
    a
}

/// A trimmed text `t` (non-empty, white space at neither end) that occurs in
/// `s` also occurs in `trim(s)`.
pub proof fn lemma_occurs_in_trim(s: Seq<char>, t: Seq<char>, q: int)
    requires
        occurs_at(s, t, q),
        t.len() > 0,
        !is_ws(t[0]),
        !is_ws(t.last()),
    ensures
        contains(trim(s), t),
{
    let a = lemma_trim_start(s);
    let t1 = s.skip(a);
    let b = lemma_trim_end(t1);
    let tr = t1.take(b);
    assert(s.subrange(q, q + t.len())[0] == s[q]);
    assert(s[q] == t[0]);
    if q < a {
        assert(is_ws(s[q]));
    }
    let r = q - a;
    let last = q + t.len() - 1;
    assert(s.subrange(q, q + t.len())[t.len() - 1] == s[last]);
    assert(s[last] == t.last());
    assert(t1[last - a] == s[last]);
    if last - a >= b {
        assert(is_ws(t1[last - a]));
    }
    assert(tr.subrange(r, r + t.len()) =~= s.subrange(q, q + t.len()));
    assert(occurs_at(tr, t, r));
    lemma_find_from(tr, t, 0);
}

/// The part `c[j]` occurs in the parts joined with `sep`.
pub proof fn lemma_join_occurs(c: Seq<Seq<char>>, sep: Seq<char>, j: int) -> (p: int)
    requires
        0 <= j < c.len(),
    ensures
        occurs_at(join(c, sep), c[j], p),
    decreases c.len(),
{
    if c.len() == 1 {
        assert(join(c, sep).subrange(0, c[0].len() as int) =~= c[0]);
        0
    } else {
        let prev = join(c.drop_last(), sep);
        let whole = join(c, sep);
        assert(whole == prev + sep + c.last());
        if j == c.len() - 1 {
            let p: int = (prev.len() + sep.len()) as int;
            assert(whole.subrange(p, p + c[j].len()) =~= c[j]);
            p
        } else {
            let p = lemma_join_occurs(c.drop_last(), sep, j);
            assert(c.drop_last()[j] == c[j]);
            assert(whole.subrange(p, p + c[j].len()) =~= prev.subrange(p, p + c[j].len()));
            p
        }
    }
}

/// Computes `trim`.
pub fn trim_exec(s: &Vec<char>) -> (v: Vec<char>)
    ensures
        v@ == trim(s@),
{
    let n = s.len();
    let mut a: usize = 0;
    assert(s@.subrange(0, n as int) =~= s@);
    while a < n && is_ws_char(s[a])
        invariant
            n == s.len(),
            a <= n,
            trim_start(s@) == trim_start(s@.subrange(a as int, n as int)),
        decreases n - a,
    {
        assert(s@.subrange(a as int, n as int).drop_first() =~= s@.subrange(a + 1, n as int));
        a += 1;
    }
    let mut b: usize = n;
    while b > a && is_ws_char(s[b - 1])
        invariant
            n == s.len(),
            a <= b <= n,
            trim_start(s@) == s@.subrange(a as int, n as int),
            trim(s@) == trim_end(s@.subrange(a as int, b as int)),
        decreases b - a,
    {
        assert(s@.subrange(a as int, b as int).drop_last() =~= s@.subrange(a as int, b - 1));
        b -= 1;
    }
    subvec(s, a, b)
}

/// `s` with leading copies of `c` removed.
pub open spec fn trim_char_start(s: Seq<char>, c: char) -> Seq<char>
    decreases s.len(),
{
    if s.len() > 0 && s[0] == c {
        trim_char_start(s.drop_first(), c)
    } else {
        s
    }
}

/// `s` with trailing copies of `c` removed.
pub open spec fn trim_char_end(s: Seq<char>, c: char) -> Seq<char>
    decreases s.len(),
{
    if s.len() > 0 && s.last() == c {
        trim_char_end(s.drop_last(), c)
    } else {
        s
    }
}

/// `s` with copies of `c` removed at both ends (`str::trim_matches` with a char).
pub open spec fn trim_char(s: Seq<char>, c: char) -> Seq<char> {
    trim_char_end(trim_char_start(s, c), c)
}

/// Computes `trim_char`.
pub fn trim_char_exec(s: &Vec<char>, c: char) -> (v: Vec<char>)
    ensures
        v@ == trim_char(s@, c),
{
    let n = s.len();
    let mut a: usize = 0;
    assert(s@.subrange(0, n as int) =~= s@);
    while a < n && s[a] == c
        invariant
            n == s.len(),
            a <= n,
            trim_char_start(s@, c) == trim_char_start(s@.subrange(a as int, n as int), c),
        decreases n - a,
    {
        assert(s@.subrange(a as int, n as int).drop_first() =~= s@.subrange(a + 1, n as int));
        a += 1;
    }
    let mut b: usize = n;
    while b > a && s[b - 1] == c
        invariant
            n == s.len(),
            a <= b <= n,
            trim_char_start(s@, c) == s@.subrange(a as int, n as int),
            trim_char(s@, c) == trim_char_end(s@.subrange(a as int, b as int), c),
        decreases b - a,
    {
        assert(s@.subrange(a as int, b as int).drop_last() =~= s@.subrange(a as int, b - 1));
        b -= 1;
    }
    subvec(s, a, b)
}

/// `starts_with` on a suffix of `s` is an occurrence in `s`.
pub proof fn lemma_starts_with_skip(s: Seq<char>, p: Seq<char>, a: int)
    requires
        0 <= a <= s.len(),
    ensures
        starts_with(s.subrange(a, s.len() as int), p) == occurs_at(s, p, a),
        occurs_at(s, p, a) ==> s.subrange(a, s.len() as int).subrange(
            p.len() as int,
            s.len() - a,
        ) == s.subrange(a + p.len(), s.len() as int),
{
    let t = s.subrange(a, s.len() as int);
    if p.len() <= t.len() {
        assert(t.subrange(0, p.len() as int) =~= s.subrange(a, a + p.len()));
    }
    if occurs_at(s, p, a) {
        assert(t.subrange(p.len() as int, s.len() - a) =~= s.subrange(a + p.len(), s.len() as int));
    }
}

/// `s` with repeated leading copies of `p` removed (`str::trim_start_matches`).
pub open spec fn strip_all_prefix(s: Seq<char>, p: Seq<char>) -> Seq<char>
    decreases s.len(),
{
    if p.len() > 0 && starts_with(s, p) {
        strip_all_prefix(s.subrange(p.len() as int, s.len() as int), p)
    } else {
        s
    }
}

/// Computes `strip_all_prefix`.
pub fn strip_all_prefix_exec(s: &Vec<char>, p: &Vec<char>) -> (v: Vec<char>)
    ensures
        v@ == strip_all_prefix(s@, p@),
{
    let n = s.len();
    let mut a: usize = 0;
    assert(s@.subrange(0, n as int) =~= s@);
    while p.len() > 0 && occurs_at_exec(s, p, a)
        invariant
            n == s.len(),
            a <= n,
            strip_all_prefix(s@, p@) == strip_all_prefix(s@.subrange(a as int, n as int), p@),
        decreases n - a,
    {
        proof {
            lemma_starts_with_skip(s@, p@, a as int);
        }
        a += p.len();
    }
    proof {
        lemma_starts_with_skip(s@, p@, a as int);
    }
    subvec(s, a, n)
}

/// The part of `s` before the first occurrence of `p`, or all of `s`
/// (the first item of `str::split`).
pub open spec fn before_first(s: Seq<char>, p: Seq<char>) -> Seq<char> {
    match find(s, p) {
        Some(i) => s.take(i),
        None => s,
    }
}

/// Computes `before_first`.
pub fn before_first_exec(s: &Vec<char>, p: &Vec<char>) -> (v: Vec<char>)
    ensures
        v@ == before_first(s@, p@),
{
    proof {
        lemma_find_from(s@, p@, 0);
    }
    match find_exec(s, p) {
        Some(i) => subvec(s, 0, i),
        None => subvec(s, 0, s.len()),
    }
}


/// Appends the characters of `x` to `out`.
pub fn extend_chars(out: &mut Vec<char>, x: &Vec<char>)
    ensures
        final(out)@ == old(out)@ + x@,
{
    let mut i: usize = 0;
    while i < x.len()
        invariant
            i <= x.len(),
            out@ == old(out)@ + x@.take(i as int),
        decreases x.len() - i,
    {
        out.push(x[i]);
        i += 1;
        assert(out@ =~= old(out)@ + x@.take(i as int));
    }
    assert(x@.take(x.len() as int) =~= x@);
}

/// The character sequences held by a vector of character vectors.
pub open spec fn views(v: Seq<Vec<char>>) -> Seq<Seq<char>> {
    v.map_values(|x: Vec<char>| x@)
}

/// `l` without one trailing carriage return.
pub open spec fn strip_cr(l: Seq<char>) -> Seq<char> {
    if l.len() > 0 && l.last() == '\r' {
        l.drop_last()
    } else {
        l
    }
}

/// The lines of `s` as `str::lines` yields them: split at `\n`, a `\r`
/// before the `\n` dropped, and no empty line after a final `\n`.
pub open spec fn lines(s: Seq<char>) -> Seq<Seq<char>>
    decreases s.len(),
{
    if s.len() == 0 {
        Seq::empty()
    } else {
        match find(s, seq!['\n']) {
            None => seq![s],
            Some(i) => if 0 <= i < s.len() {
                seq![strip_cr(s.take(i))] + lines(s.skip(i + 1))
            } else {
                seq![s]
            },
        }
    }
}

/// Computes `lines`.
pub fn lines_exec(s: &Vec<char>) -> (v: Vec<Vec<char>>)
    ensures
        views(v@) == lines(s@),
{
    let mut nl: Vec<char> = Vec::new();
    nl.push('\n');
    let mut out: Vec<Vec<char>> = Vec::new();
    let mut rest = subvec(s, 0, s.len());
    assert(s@.subrange(0, s.len() as int) =~= s@);
    while rest.len() > 0
        invariant
            nl@ == seq!['\n'],
            lines(s@) == views(out@) + lines(rest@),
        decreases rest.len(),
    {
        proof {
            lemma_find_from(rest@, nl@, 0);
        }
        match find_exec(&rest, &nl) {
            None => {
                assert(views(out@.push(rest)) =~= views(out@) + seq![rest@]);
                out.push(rest);
                rest = Vec::new();
            },
            Some(i) => {
                let mut line = subvec(&rest, 0, i);
                if line.len() > 0 && line[line.len() - 1] == '\r' {
                    line.pop();
                }
                assert(line@ == strip_cr(rest@.take(i as int)));
                let next = subvec(&rest, i + 1, rest.len());
                assert(next@ =~= rest@.skip(i + 1));
                assert(views(out@.push(line)) =~= views(out@) + seq![line@]);
                out.push(line);
                rest = next;
            },
        }
    }
    assert(views(out@) + lines(rest@) =~= views(out@));
    out
}

/// The parts joined with `sep` between neighbours (`join` on slices).
pub open spec fn join(parts: Seq<Seq<char>>, sep: Seq<char>) -> Seq<char>
    decreases parts.len(),
{
    if parts.len() == 0 {
        Seq::empty()
    } else if parts.len() == 1 {
        parts[0]
    } else {
        join(parts.drop_last(), sep) + sep + parts.last()
    }
}

/// Computes `join`.
pub fn join_exec(parts: &Vec<Vec<char>>, sep: &Vec<char>) -> (v: Vec<char>)
    ensures
        v@ == join(views(parts@), sep@),
{
    let mut out: Vec<char> = Vec::new();
    let mut i: usize = 0;
    while i < parts.len()
        invariant
            i <= parts.len(),
            out@ == join(views(parts@).take(i as int), sep@),
        decreases parts.len() - i,
    {
        assert(views(parts@).take(i + 1).drop_last() =~= views(parts@).take(i as int));
        if i > 0 {
            extend_chars(&mut out, sep);
        }
        extend_chars(&mut out, &parts[i]);
        i += 1;
    }
    assert(views(parts@).take(parts.len() as int) =~= views(parts@));
    out
}

/// Every non-overlapping occurrence of `from`, scanned left to right,
/// replaced with `to` (`str::replace`).
pub open spec fn replace_all(s: Seq<char>, from: Seq<char>, to: Seq<char>) -> Seq<char>
    decreases s.len(),
{
    if s.len() == 0 {
        s
    } else if from.len() > 0 && starts_with(s, from) {
        to + replace_all(s.subrange(from.len() as int, s.len() as int), from, to)
    } else {
        seq![s[0]] + replace_all(s.drop_first(), from, to)
    }
}

/// Computes `replace_all`.
pub fn replace_all_exec(s: &Vec<char>, from: &Vec<char>, to: &Vec<char>) -> (v: Vec<char>)
    requires
        from.len() > 0,
    ensures
        v@ == replace_all(s@, from@, to@),
{
    let n = s.len();
    let mut out: Vec<char> = Vec::new();
    let mut a: usize = 0;
    assert(s@.subrange(0, n as int) =~= s@);
    while a < n
        invariant
            n == s.len(),
            a <= n,
            from.len() > 0,
            replace_all(s@, from@, to@) == out@ + replace_all(
                s@.subrange(a as int, n as int),
                from@,
                to@,
            ),
        decreases n - a,
    {
        proof {
            lemma_starts_with_skip(s@, from@, a as int);
        }
        if occurs_at_exec(s, from, a) {
            extend_chars(&mut out, to);
            a += from.len();
        } else {
            assert(s@.subrange(a as int, n as int).drop_first() =~= s@.subrange(a + 1, n as int));
            out.push(s[a]);
            a += 1;
        }
    }
    assert(out@ + replace_all(s@.subrange(n as int, n as int), from@, to@) =~= out@);
    out
}

/// What `str::to_lowercase` returns for a given string.
pub uninterp spec fn lowercase(s: Seq<char>) -> Seq<char>;

/// Calls `str::to_lowercase`; the result depends on the argument alone.
#[verifier::external_body]
pub(crate) fn to_lowercase(s: &Vec<char>) -> (r: Vec<char>)
    ensures
        r@ == lowercase(s@),
{
    let t: String = s.iter().collect();
    t.to_lowercase().chars().collect()
}

} // verus!
