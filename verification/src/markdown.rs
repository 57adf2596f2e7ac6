//! Reading and editing the markdown documents of context entries.

use vstd::prelude::*;
use vstd::string::*;
use crate::registry::{opt_view, MappingEntry};
use crate::strmap::{assoc, keys_unique, StrMap};
use crate::text::{
    chars_of, find, find_exec, occurs_at, join, join_exec, lemma_find_from, lines, lines_exec, lowercase,
    replace_all, replace_all_exec, starts_with, lemma_join_occurs, lemma_trim_occurs, lemma_occurs_in_trim, has_prefix, strip_all_prefix, strip_cr,
    strip_all_prefix_exec, string_of, subvec, to_lowercase, trim, trim_exec, views,
};

verus! {

/// A string-valued map by the characters of its values.
pub open spec fn string_map_view(m: Map<Seq<char>, String>) -> Map<Seq<char>, Seq<char>> {
    m.map_values(|s: String| s@)
}

/// The key a section heading is stored under: trimmed, lower-cased, spaces as `_`.
pub open spec fn section_key(title: Seq<char>) -> Seq<char> {
    replace_all(lowercase(trim(title)), seq![' '], seq!['_'])
}

/// The state of reading a document line by line.
pub struct SectionState {
    pub result: Map<Seq<char>, Seq<char>>,
    pub current: Seq<char>,
    pub content: Seq<Seq<char>>,
}

/// The result with the open section stored, if it has a heading and content.
pub open spec fn flush_section(st: SectionState) -> Map<Seq<char>, Seq<char>> {
    if st.current.len() > 0 && st.content.len() > 0 {
        st.result.insert(section_key(st.current), trim(join(st.content, seq!['\n'])))
    } else {
        st.result
    }
}

/// Reading one line: a `## ` heading closes the open section and opens one, a
/// `# ` heading is the title, other non-blank lines outside fences are content.
pub open spec fn section_step(st: SectionState, line: Seq<char>) -> SectionState {
    if starts_with(line, "## "@) {
        SectionState {
            result: flush_section(st),
            current: strip_all_prefix(line, "## "@),
            content: Seq::empty(),
        }
    } else if starts_with(line, "# "@) {
        SectionState {
            result: st.result.insert("title"@, strip_all_prefix(line, "# "@)),
            current: st.current,
            content: st.content,
        }
    } else if !starts_with(line, "```"@) && trim(line).len() > 0 {
        SectionState { result: st.result, current: st.current, content: st.content.push(line) }
    } else {
        st
    }
}

/// The state after reading `ls` from the start.
pub open spec fn section_fold(ls: Seq<Seq<char>>) -> SectionState
    decreases ls.len(),
{
    if ls.len() == 0 {
        SectionState { result: Map::empty(), current: Seq::empty(), content: Seq::empty() }
    } else {
        section_step(section_fold(ls.drop_last()), ls.last())
    }
}

/// The sections of a markdown document: title and section contents by key.
pub open spec fn markdown_sections(md: Seq<char>) -> Map<Seq<char>, Seq<char>> {
    flush_section(section_fold(lines(md)))
}

/// The key of the section that the `## ` heading `line` opens.
pub open spec fn heading_key(line: Seq<char>) -> Seq<char> {
    section_key(strip_all_prefix(line, "## "@))
}

/// Line `i` lies under the `## ` heading at line `h`: no `## ` heading comes between.
pub open spec fn under_heading(ls: Seq<Seq<char>>, h: int, i: int) -> bool {
    &&& 0 <= h < i < ls.len()
    &&& starts_with(ls[h], "## "@)
    &&& forall|k: int| h < k <= i ==> !starts_with(#[trigger] ls[k], "## "@)
}

/// A line of a section's text: not blank, and neither a heading (`# `, `## `)
/// nor a fence.
pub open spec fn text_line(x: Seq<char>) -> bool {
    &&& trim(x).len() > 0
    &&& !starts_with(x, "## "@)
    &&& !starts_with(x, "# "@)
    &&& !starts_with(x, "```"@)
}

/// No later `## ` heading gives the section of heading `h` the same key, and a
/// section keyed `title` is followed by no `# ` title line.
pub open spec fn key_stays(ls: Seq<Seq<char>>, h: int) -> bool {
    &&& forall|k: int|
        h < k < ls.len() && starts_with(#[trigger] ls[k], "## "@) ==> heading_key(ls[k])
            != heading_key(ls[h])
    &&& heading_key(ls[h]) == "title"@ ==> forall|k: int|
        h < k < ls.len() ==> !starts_with(#[trigger] ls[k], "# "@)
}

proof fn lemma_section_step_at(ls: Seq<Seq<char>>, n: int)
    requires
        1 <= n <= ls.len(),
    ensures
        section_fold(ls.take(n)) == section_step(section_fold(ls.take(n - 1)), ls[n - 1]),
{
    assert(ls.take(n).drop_last() =~= ls.take(n - 1));
}

proof fn lemma_in_section(ls: Seq<Seq<char>>, h: int, i: int, n: int)
    requires
        under_heading(ls, h, i),
        text_line(ls[i]),
        h < n <= ls.len(),
        forall|k: int| h < k < n ==> !starts_with(#[trigger] ls[k], "## "@),
    ensures
        section_fold(ls.take(n)).current == strip_all_prefix(ls[h], "## "@),
        n > i ==> section_fold(ls.take(n)).content.contains(ls[i]),
    decreases n,
{
    lemma_section_step_at(ls, n);
    if n > h + 1 {
        lemma_in_section(ls, h, i, n - 1);
        let st = section_fold(ls.take(n - 1));
        let x = ls[n - 1];
        assert(!starts_with(x, "## "@));
        if n - 1 == i {
            let c = st.content.push(x);
            assert(c[c.len() - 1] == x);
        } else if n - 1 > i {
            if !starts_with(x, "# "@) && !starts_with(x, "```"@) && trim(x).len() > 0 {
                let j = choose|j: int| 0 <= j < st.content.len() && st.content[j] == ls[i];
                assert(st.content.push(x)[j] == ls[i]);
            }
        }
    }
}

/// The section's stored text contains every trimmed line of its content.
proof fn lemma_stored_text_contains(content: Seq<Seq<char>>, x: Seq<char>)
    requires
        content.contains(x),
        trim(x).len() > 0,
    ensures
        crate::text::contains(trim(join(content, seq!['\n'])), trim(x)),
{
    let j = choose|j: int| 0 <= j < content.len() && content[j] == x;
    let p = lemma_join_occurs(content, seq!['\n'], j);
    let off = lemma_trim_occurs(x);
    let whole = join(content, seq!['\n']);
    let t = trim(x);
    assert(whole.subrange(p + off, p + off + t.len()) =~= x.subrange(off, off + t.len())) by {
        assert forall|k: int| 0 <= k < t.len() implies #[trigger] whole.subrange(p + off, p + off + t.len())[k]
            == x.subrange(off, off + t.len())[k] by {
            assert(whole.subrange(p, p + x.len())[off + k] == x[off + k]);
        }
    }
    assert(occurs_at(whole, t, p + off));
    lemma_occurs_in_trim(whole, t, p + off);
}

/// Whether a `## ` heading comes after line `h` and before line `n`.
pub open spec fn heading_between(ls: Seq<Seq<char>>, h: int, n: int) -> bool {
    exists|g: int| h < g < n && starts_with(#[trigger] ls[g], "## "@)
}

proof fn lemma_section_stored(ls: Seq<Seq<char>>, h: int, i: int, n: int)
    requires
        under_heading(ls, h, i),
        text_line(ls[i]),
        strip_all_prefix(ls[h], "## "@).len() > 0,
        key_stays(ls, h),
        i < n <= ls.len(),
    ensures
        !heading_between(ls, h, n) ==> section_fold(ls.take(n)).current == strip_all_prefix(
            ls[h],
            "## "@,
        ) && section_fold(ls.take(n)).content.contains(ls[i]),
        heading_between(ls, h, n) ==> {
            let st = section_fold(ls.take(n));
            &&& st.result.contains_key(heading_key(ls[h]))
            &&& crate::text::contains(st.result[heading_key(ls[h])], trim(ls[i]))
            &&& exists|g: int|
                h < g < n && starts_with(#[trigger] ls[g], "## "@) && st.current
                    == strip_all_prefix(ls[g], "## "@)
        },
    decreases n,
{
    let key = heading_key(ls[h]);
    if !heading_between(ls, h, n) {
        assert forall|k: int| h < k < n implies !starts_with(#[trigger] ls[k], "## "@) by {}
        lemma_in_section(ls, h, i, n);
    } else if n == i + 1 {
        let g = choose|g: int| h < g < n && starts_with(#[trigger] ls[g], "## "@);
        assert(!starts_with(ls[g], "## "@));
    } else {
        lemma_section_stored(ls, h, i, n - 1);
        lemma_section_step_at(ls, n);
        let st = section_fold(ls.take(n - 1));
        let x = ls[n - 1];
        if heading_between(ls, h, n - 1) {
            let g = choose|g: int|
                h < g < n - 1 && starts_with(#[trigger] ls[g], "## "@) && st.current
                    == strip_all_prefix(ls[g], "## "@);
            assert(heading_key(ls[g]) != key);
            if starts_with(x, "## "@) {
                assert(starts_with(ls[n - 1], "## "@));
            } else if starts_with(x, "# "@) {
                assert(key != "title"@);
                assert(exists|g2: int|
                    h < g2 < n && starts_with(#[trigger] ls[g2], "## "@) && section_fold(
                        ls.take(n),
                    ).current == strip_all_prefix(ls[g2], "## "@)) by {
                    assert(h < g < n);
                }
            } else {
                assert(exists|g2: int|
                    h < g2 < n && starts_with(#[trigger] ls[g2], "## "@) && section_fold(
                        ls.take(n),
                    ).current == strip_all_prefix(ls[g2], "## "@)) by {
                    assert(h < g < n);
                }
            }
        } else {
            // the heading at line n - 1 closes the section of heading h
            let g = choose|g: int| h < g < n && starts_with(#[trigger] ls[g], "## "@);
            if g < n - 1 {
                assert(heading_between(ls, h, n - 1));
            }
            assert(g == n - 1);
            assert(st.content.len() > 0) by {
                let j = choose|j: int| 0 <= j < st.content.len() && st.content[j] == ls[i];
            }
            lemma_stored_text_contains(st.content, ls[i]);
        }
    }
}

/// Every line of a section's text is kept: a non-blank line that is no heading
/// and no fence, lying under a `## ` heading with a name, ends up (trimmed) in
/// the content stored under that heading's key, unless a later heading gives
/// the same key or, for a section keyed `title`, a later title line replaces it.
pub proof fn section_text_is_kept(md: Seq<char>, h: int, i: int)
    requires
        under_heading(lines(md), h, i),
        strip_all_prefix(lines(md)[h], "## "@).len() > 0,
        text_line(lines(md)[i]),
        key_stays(lines(md), h),
    ensures
        markdown_sections(md).contains_key(heading_key(lines(md)[h])),
        crate::text::contains(
            markdown_sections(md)[heading_key(lines(md)[h])],
            trim(lines(md)[i]),
        ),
{
    let ls = lines(md);
    let n = ls.len() as int;
    lemma_section_stored(ls, h, i, n);
    assert(ls.take(n) =~= ls);
    let st = section_fold(ls);
    if heading_between(ls, h, n) {
        let g = choose|g: int|
            h < g < n && starts_with(#[trigger] ls[g], "## "@) && st.current == strip_all_prefix(
                ls[g],
                "## "@,
            );
        assert(heading_key(ls[g]) != heading_key(ls[h]));
    } else {
        assert(st.content.len() > 0) by {
            let j = choose|j: int| 0 <= j < st.content.len() && st.content[j] == ls[i];
        }
        lemma_stored_text_contains(st.content, ls[i]);
    }
}

/// Stores `value` under `key` in a string map.
fn store(m: &mut StrMap<String>, key: String, value: String)
    ensures
        string_map_view(final(m).map()) == string_map_view(old(m).map()).insert(key@, value@),
{
    proof {
        crate::registry::lemma_map_values_insert(old(m).map(), key@, value, |s: String| s@);
    }
    m.insert(key, value);
}

/// The key of a section heading.
pub fn section_key_exec(title: &Vec<char>) -> (k: String)
    ensures
        k@ == section_key(title@),
{
    let lower = to_lowercase(&trim_exec(title));
    let mut space: Vec<char> = Vec::new();
    space.push(' ');
    let mut underscore: Vec<char> = Vec::new();
    underscore.push('_');
    string_of(&replace_all_exec(&lower, &space, &underscore))
}

/// Stores the open section, as `flush_section` says.
fn flush_exec(result: &mut StrMap<String>, current: &Vec<char>, content: &Vec<Vec<char>>)
    ensures
        string_map_view(final(result).map()) == flush_section(
            SectionState {
                result: string_map_view(old(result).map()),
                current: current@,
                content: views(content@),
            },
        ),
{
    if current.len() > 0 && content.len() > 0 {
        let mut nl: Vec<char> = Vec::new();
        nl.push('\n');
        let body = trim_exec(&join_exec(content, &nl));
        store(result, section_key_exec(current), string_of(&body));
    }
}

/// Computes `markdown_sections`.
pub fn markdown_sections_exec(md: &str) -> (m: StrMap<String>)
    ensures
        string_map_view(m.map()) == markdown_sections(md@),
{
    proof {
        reveal_strlit("## ");
        reveal_strlit("# ");
        reveal_strlit("```");
        reveal_strlit("title");
    }
    let ls = lines_exec(&chars_of(md));
    let h2 = chars_of("## ");
    let h1 = chars_of("# ");
    let fence = chars_of("```");
    let mut result: StrMap<String> = StrMap::new();
    let mut current: Vec<char> = Vec::new();
    let mut content: Vec<Vec<char>> = Vec::new();
    let mut i: usize = 0;
    assert(string_map_view(result.map()) =~= Map::<Seq<char>, Seq<char>>::empty());
    assert(views(content@) =~= Seq::<Seq<char>>::empty());
    while i < ls.len()
        invariant
            i <= ls.len(),
            views(ls@) == lines(md@),
            h2@ == "## "@,
            h1@ == "# "@,
            fence@ == "```"@,
            section_fold(views(ls@).take(i as int)) == (SectionState {
                result: string_map_view(result.map()),
                current: current@,
                content: views(content@),
            }),
        decreases ls.len() - i,
    {
        assert(views(ls@).take(i + 1).drop_last() =~= views(ls@).take(i as int));
        let line = &ls[i];
        if has_prefix(line, &h2) {
            flush_exec(&mut result, &current, &content);
            current = strip_all_prefix_exec(line, &h2);
            content = Vec::new();
            assert(views(content@) =~= Seq::<Seq<char>>::empty());
        } else if has_prefix(line, &h1) {
            let title = strip_all_prefix_exec(line, &h1);
            store(&mut result, "title".to_owned(), string_of(&title));
        } else if !has_prefix(line, &fence) && trim_exec(line).len() > 0 {
            let ghost before = content@;
            content.push(subvec(line, 0, line.len()));
            assert(line@.subrange(0, line@.len() as int) =~= line@);
            assert(views(content@) =~= views(before).push(line@));
        }
        i += 1;
    }
    assert(views(ls@).take(ls.len() as int) =~= views(ls@));
    flush_exec(&mut result, &current, &content);
    result
}

/// `a` comes before `b` in the order of `String` (byte-wise on UTF-8, which is
/// the order of code points, a proper prefix first).
pub open spec fn text_lt(a: Seq<char>, b: Seq<char>) -> bool
    decreases a.len(),
{
    if a.len() == 0 {
        b.len() > 0
    } else if b.len() == 0 {
        false
    } else if a[0] != b[0] {
        (a[0] as u32) < (b[0] as u32)
    } else {
        text_lt(a.drop_first(), b.drop_first())
    }
}

/// A lower-case hexadecimal digit.
pub open spec fn hex_digit(d: int) -> char {
    seq!['0', '1', '2', '3', '4', '5', '6', '7', '8', '9', 'a', 'b', 'c', 'd', 'e', 'f'][d]
}

/// How one character is written inside a JSON string: `"` and `\` escaped,
/// backspace, tab, line feed, form feed and carriage return by their short
/// escapes, other control characters below 0x20 as `\u00xx`, all else as is.
pub open spec fn json_char(c: char) -> Seq<char> {
    let u = c as u32;
    if c == '"' {
        seq!['\\', '"']
    } else if c == '\\' {
        seq!['\\', '\\']
    } else if u == 8 {
        seq!['\\', 'b']
    } else if u == 9 {
        seq!['\\', 't']
    } else if u == 10 {
        seq!['\\', 'n']
    } else if u == 12 {
        seq!['\\', 'f']
    } else if u == 13 {
        seq!['\\', 'r']
    } else if u < 32 {
        seq!['\\', 'u', '0', '0', hex_digit((u / 16) as int), hex_digit((u % 16) as int)]
    } else {
        seq![c]
    }
}

/// The characters of `s` as written inside a JSON string.
pub open spec fn json_chars(s: Seq<char>) -> Seq<char>
    decreases s.len(),
{
    if s.len() == 0 {
        Seq::empty()
    } else {
        json_chars(s.drop_last()) + json_char(s.last())
    }
}

/// `s` as a JSON string.
pub open spec fn json_string(s: Seq<char>) -> Seq<char> {
    seq!['"'] + json_chars(s) + seq!['"']
}

/// The keys are in strictly increasing `String` order.
pub open spec fn sorted_texts(ks: Seq<Seq<char>>) -> bool {
    forall|i: int, j: int| 0 <= i < j < ks.len() ==> text_lt(#[trigger] ks[i], #[trigger] ks[j])
}

/// The members `"key":"value"` of the keys `ks`, separated by commas.
pub open spec fn json_members(ks: Seq<Seq<char>>, m: Map<Seq<char>, Seq<char>>) -> Seq<char>
    decreases ks.len(),
{
    if ks.len() == 0 {
        Seq::empty()
    } else if ks.len() == 1 {
        json_string(ks[0]) + seq![':'] + json_string(m[ks[0]])
    } else {
        json_members(ks.drop_last(), m) + seq![','] + json_string(ks.last()) + seq![':']
            + json_string(m[ks.last()])
    }
}

/// The compact JSON object of a string map: its members in key order.
pub open spec fn json_object_of(m: Map<Seq<char>, Seq<char>>) -> Seq<char> {
    let ks = choose|ks: Seq<Seq<char>>| sorted_texts(ks) && ks.to_set() == m.dom();
    seq!['{'] + json_members(ks, m) + seq!['}']
}

/// Calls `serde_json::to_string` on a `serde_json::Map` of string values built
/// from `pairs`. Without the `preserve_order` feature the map is a `BTreeMap`,
/// so the members come in key order; the compact formatter writes `{`, the
/// members `"key":"value"` separated by `,`, and `}`, and escapes strings as
/// `json_char` says. Writing into a `Vec` cannot fail, so the result is `Some`.
#[verifier::external_body]
fn json_object_text(pairs: &Vec<(String, String)>) -> (r: Option<String>)
    requires
        keys_unique(pairs@),
    ensures
        opt_view(r) == Some(json_object_of(string_map_view(assoc(pairs@)))),
{
    let obj: serde_json::Map<String, serde_json::Value> = pairs
        .iter()
        .map(|(k, v)| (k.clone(), serde_json::Value::String(v.clone())))
        .collect();
    serde_json::to_string(&obj).ok()
}

/// A document's sections as a JSON object.
pub fn parse_markdown_to_json(markdown: &str) -> (r: String)
    ensures
        r@ == json_object_of(markdown_sections(markdown@)),
{
    let sections = markdown_sections_exec(markdown);
    match json_object_text(sections.pairs()) {
        Some(t) => t,
        None => markdown.to_owned(),
    }
}


/// `a` and `b` hold the same characters.
pub fn chars_equal(a: &Vec<char>, b: &Vec<char>) -> (r: bool)
    ensures
        r == (a@ == b@),
{
    if a.len() != b.len() {
        return false;
    }
    let mut i: usize = 0;
    while i < a.len()
        invariant
            i <= a.len() == b.len(),
            forall|j: int| 0 <= j < i ==> a@[j] == b@[j],
        decreases a.len() - i,
    {
        if a[i] != b[i] {
            return false;
        }
        i += 1;
    }
    assert(a@ =~= b@);
    true
}

/// The state of rewriting a document line by line.
pub struct UpdateState {
    pub found: bool,
    pub updated: bool,
    pub out: Seq<Seq<char>>,
}

/// Rewriting one line. The heading of the field (compared trimmed and in lower
/// case) is kept and arms the rewrite; the next heading gets the value inserted
/// before it, and the next non-blank line that is no table row or list item is
/// replaced by the value.
pub open spec fn update_step(
    st: UpdateState,
    line: Seq<char>,
    key_pattern: Seq<char>,
    value: Seq<char>,
) -> UpdateState {
    if lowercase(trim(line)) == lowercase(key_pattern) {
        UpdateState { found: true, updated: st.updated, out: st.out.push(line) }
    } else if st.found && starts_with(line, "## "@) {
        UpdateState { found: false, updated: true, out: st.out + seq![value, Seq::empty(), line] }
    } else if st.found && trim(line).len() > 0 && !starts_with(line, "|"@) && !starts_with(
        line,
        "-"@,
    ) {
        UpdateState { found: false, updated: true, out: st.out.push(value) }
    } else {
        UpdateState { found: st.found, updated: st.updated, out: st.out.push(line) }
    }
}

/// The state after rewriting `ls` from the start.
pub open spec fn update_fold(
    ls: Seq<Seq<char>>,
    key_pattern: Seq<char>,
    value: Seq<char>,
) -> UpdateState
    decreases ls.len(),
{
    if ls.len() == 0 {
        UpdateState { found: false, updated: false, out: Seq::empty() }
    } else {
        update_step(update_fold(ls.drop_last(), key_pattern, value), ls.last(), key_pattern, value)
    }
}

/// The lines of the rewritten document: when the field's heading ends the
/// document, the value goes under it; a field whose heading never occurs is
/// appended as a new section.
pub open spec fn updated_lines(md: Seq<char>, key: Seq<char>, value: Seq<char>) -> Seq<Seq<char>> {
    let kp = "## "@ + key;
    let st = update_fold(lines(md), kp, value);
    let out = if st.found && !st.updated {
        st.out.push(value)
    } else {
        st.out
    };
    if !st.updated && !st.found {
        out + seq![Seq::empty(), kp, value]
    } else {
        out
    }
}

/// The document with the field `key` set to `value`.
pub open spec fn update_markdown(md: Seq<char>, key: Seq<char>, value: Seq<char>) -> Seq<char> {
    join(updated_lines(md, key, value), seq!['\n'])
}

/// Sets the field `key` of a markdown document to `value`.
pub fn update_markdown_field(content: &str, key: &str, value: &str) -> (r: String)
    ensures
        r@ == update_markdown(content@, key@, value@),
{
    proof {
        reveal_strlit("## ");
        reveal_strlit("|");
        reveal_strlit("-");
    }
    let mut kp = String::new();
    kp.append("## ");
    kp.append(key);
    let kp_chars = chars_of(kp.as_str());
    let kp_lower = to_lowercase(&kp_chars);
    let value_chars = chars_of(value);
    let h2 = chars_of("## ");
    let bar = chars_of("|");
    let dash = chars_of("-");
    let ls = lines_exec(&chars_of(content));
    let mut found = false;
    let mut updated = false;
    let mut out: Vec<Vec<char>> = Vec::new();
    let mut i: usize = 0;
    assert(views(out@) =~= Seq::<Seq<char>>::empty());
    while i < ls.len()
        invariant
            i <= ls.len(),
            views(ls@) == lines(content@),
            kp_chars@ == kp@,
            kp@ == "## "@ + key@,
            kp_lower@ == lowercase(kp@),
            value_chars@ == value@,
            h2@ == "## "@,
            bar@ == "|"@,
            dash@ == "-"@,
            update_fold(views(ls@).take(i as int), kp@, value@) == (UpdateState {
                found,
                updated,
                out: views(out@),
            }),
        decreases ls.len() - i,
    {
        assert(views(ls@).take(i + 1).drop_last() =~= views(ls@).take(i as int));
        let line = &ls[i];
        let ghost before = views(out@);
        let line_copy = subvec(line, 0, line.len());
        assert(line@.subrange(0, line@.len() as int) =~= line@);
        let trimmed = trim_exec(line);
        if chars_equal(&to_lowercase(&trimmed), &kp_lower) {
            found = true;
            out.push(line_copy);
            assert(views(out@) =~= before.push(line@));
        } else if found && has_prefix(line, &h2) {
            out.push(subvec(&value_chars, 0, value_chars.len()));
            out.push(Vec::new());
            out.push(line_copy);
            assert(value_chars@.subrange(0, value_chars@.len() as int) =~= value_chars@);
            assert(views(out@) =~= before + seq![value@, Seq::<char>::empty(), line@]);
            found = false;
            updated = true;
        } else if found && trimmed.len() > 0 && !has_prefix(line, &bar) && !has_prefix(
            line,
            &dash,
        ) {
            out.push(subvec(&value_chars, 0, value_chars.len()));
            assert(value_chars@.subrange(0, value_chars@.len() as int) =~= value_chars@);
            assert(views(out@) =~= before.push(value@));
            found = false;
            updated = true;
        } else {
            out.push(line_copy);
            assert(views(out@) =~= before.push(line@));
        }
        i += 1;
    }
    assert(views(ls@).take(ls.len() as int) =~= views(ls@));
    if found && !updated {
        let ghost before = views(out@);
        out.push(subvec(&value_chars, 0, value_chars.len()));
        assert(value_chars@.subrange(0, value_chars@.len() as int) =~= value_chars@);
        assert(views(out@) =~= before.push(value@));
    }
    if !updated && !found {
        let ghost before = views(out@);
        out.push(Vec::new());
        out.push(subvec(&kp_chars, 0, kp_chars.len()));
        out.push(subvec(&value_chars, 0, value_chars.len()));
        assert(value_chars@.subrange(0, value_chars@.len() as int) =~= value_chars@);
        assert(kp_chars@.subrange(0, kp_chars@.len() as int) =~= kp_chars@);
        assert(views(out@) =~= before + seq![Seq::<char>::empty(), kp@, value@]);
    }
    let mut nl: Vec<char> = Vec::new();
    nl.push('\n');
    string_of(&join_exec(&out, &nl))
}

/// `line` is the heading of the field `key`, compared trimmed and in lower case.
pub open spec fn is_field_heading(line: Seq<char>, key: Seq<char>) -> bool {
    lowercase(trim(line)) == lowercase("## "@ + key)
}

/// A line that the rewrite passes over while it looks for the field's value:
/// blank, a table row or a list item.
pub open spec fn passed_over(line: Seq<char>) -> bool {
    !starts_with(line, "## "@) && (trim(line).len() == 0 || starts_with(line, "|"@) || starts_with(
        line,
        "-"@,
    ))
}

/// The lines up to and including line `j` once the value has been written
/// there: before it when it is the next heading, in its place otherwise.
pub open spec fn rewritten_through(ls: Seq<Seq<char>>, j: int, value: Seq<char>) -> Seq<Seq<char>> {
    if starts_with(ls[j], "## "@) {
        ls.take(j) + seq![value, Seq::empty(), ls[j]]
    } else {
        ls.take(j).push(value)
    }
}

proof fn lemma_fold_without_heading(ls: Seq<Seq<char>>, kp: Seq<char>, value: Seq<char>, n: int)
    requires
        0 <= n <= ls.len(),
        forall|k: int| 0 <= k < ls.len() ==> lowercase(trim(#[trigger] ls[k])) != lowercase(kp),
    ensures
        update_fold(ls.take(n), kp, value) == (UpdateState {
            found: false,
            updated: false,
            out: ls.take(n),
        }),
    decreases n,
{
    if n == 0 {
        assert(ls.take(0) =~= Seq::<Seq<char>>::empty());
    } else {
        lemma_fold_without_heading(ls, kp, value, n - 1);
        assert(ls.take(n).drop_last() =~= ls.take(n - 1));
        assert(ls.take(n - 1).push(ls[n - 1]) =~= ls.take(n));
        assert(lowercase(trim(ls[n - 1])) != lowercase(kp));
    }
}

proof fn lemma_fold_with_heading(
    ls: Seq<Seq<char>>,
    kp: Seq<char>,
    value: Seq<char>,
    i: int,
    j: int,
    n: int,
)
    requires
        0 <= i < j < ls.len(),
        0 <= n <= ls.len(),
        lowercase(trim(ls[i])) == lowercase(kp),
        forall|k: int|
            0 <= k < ls.len() && k != i ==> lowercase(trim(#[trigger] ls[k])) != lowercase(kp),
        forall|k: int| i < k < j ==> passed_over(#[trigger] ls[k]),
        !passed_over(ls[j]),
    ensures
        update_fold(ls.take(n), kp, value) == (if n <= i {
            UpdateState { found: false, updated: false, out: ls.take(n) }
        } else if n <= j {
            UpdateState { found: true, updated: false, out: ls.take(n) }
        } else {
            UpdateState {
                found: false,
                updated: true,
                out: rewritten_through(ls, j, value) + ls.subrange(j + 1, n),
            }
        }),
    decreases n,
{
    if n == 0 {
        assert(ls.take(0) =~= Seq::<Seq<char>>::empty());
    } else {
        lemma_fold_with_heading(ls, kp, value, i, j, n - 1);
        assert(ls.take(n).drop_last() =~= ls.take(n - 1));
        assert(ls.take(n - 1).push(ls[n - 1]) =~= ls.take(n));
        let line = ls[n - 1];
        if n - 1 < i {
            assert(lowercase(trim(line)) != lowercase(kp));
        } else if n - 1 == i {
        } else if n - 1 < j {
            assert(lowercase(trim(line)) != lowercase(kp));
            assert(passed_over(line));
        } else if n - 1 == j {
            assert(lowercase(trim(line)) != lowercase(kp));
            assert(ls.subrange(j + 1, n) =~= Seq::<Seq<char>>::empty());
            assert(rewritten_through(ls, j, value) + ls.subrange(j + 1, n) =~= rewritten_through(
                ls,
                j,
                value,
            ));
        } else {
            assert(lowercase(trim(line)) != lowercase(kp));
            assert((rewritten_through(ls, j, value) + ls.subrange(j + 1, n - 1)).push(line)
                =~= rewritten_through(ls, j, value) + ls.subrange(j + 1, n));
        }
    }
}

/// A field that the document does not have is appended as a new section: a
/// blank line, its heading and the value follow the unchanged lines.
pub proof fn missing_field_is_appended(md: Seq<char>, key: Seq<char>, value: Seq<char>)
    requires
        forall|k: int| 0 <= k < lines(md).len() ==> !is_field_heading(#[trigger] lines(md)[k], key),
    ensures
        updated_lines(md, key, value) == lines(md) + seq![Seq::empty(), "## "@ + key, value],
{
    let ls = lines(md);
    lemma_fold_without_heading(ls, "## "@ + key, value, ls.len() as int);
    assert(ls.take(ls.len() as int) =~= ls);
}

/// A field whose heading occurs once gets the value at the first line after
/// the heading that is not blank, a table row or a list item: that line is
/// replaced, or, when it is the next heading, the value goes before it. Every
/// other line stays as it was.
pub proof fn present_field_is_rewritten(
    md: Seq<char>,
    key: Seq<char>,
    value: Seq<char>,
    i: int,
    j: int,
)
    requires
        0 <= i < j < lines(md).len(),
        is_field_heading(lines(md)[i], key),
        forall|k: int|
            0 <= k < lines(md).len() && k != i ==> !is_field_heading(#[trigger] lines(md)[k], key),
        forall|k: int| i < k < j ==> passed_over(#[trigger] lines(md)[k]),
        !passed_over(lines(md)[j]),
    ensures
        updated_lines(md, key, value) == rewritten_through(lines(md), j, value) + lines(md).skip(
            j + 1,
        ),
{
    let ls = lines(md);
    let n = ls.len() as int;
    lemma_fold_with_heading(ls, "## "@ + key, value, i, j, n);
    assert(ls.take(n) =~= ls);
    assert(ls.subrange(j + 1, n) =~= ls.skip(j + 1));
}

/// `x` holds no line break.
pub open spec fn no_newline(x: Seq<char>) -> bool {
    forall|k: int| 0 <= k < x.len() ==> x[k] != '\n'
}

/// Joining `ls` with line breaks and splitting the text into lines again gives
/// `ls` back: no line holds a line break or ends in a carriage return, and the
/// last line is not empty.
pub open spec fn rejoins_to_itself(ls: Seq<Seq<char>>) -> bool {
    &&& forall|i: int| 0 <= i < ls.len() ==> no_newline(#[trigger] ls[i])
    &&& forall|i: int|
        0 <= i < ls.len() ==> !(#[trigger] ls[i].len() > 0 && ls[i].last() == '\r')
    &&& (ls.len() == 0 || ls.last().len() > 0)
}

/// No line of a text holds a line break.
proof fn lemma_lines_no_newline(s: Seq<char>)
    ensures
        forall|i: int| 0 <= i < lines(s).len() ==> no_newline(#[trigger] lines(s)[i]),
    decreases s.len(),
{
    let nl = seq!['\n'];
    if s.len() > 0 {
        lemma_find_from(s, nl, 0);
        match find(s, nl) {
            None => {
                assert forall|k: int| 0 <= k < s.len() implies s[k] != '\n' by {
                    if s[k] == '\n' {
                        assert(s.subrange(k, k + 1) =~= nl);
                        assert(occurs_at(s, nl, k));
                    }
                }
            },
            Some(m) => {
                if 0 <= m < s.len() {
                    let x = s.take(m);
                    assert forall|k: int| 0 <= k < x.len() implies x[k] != '\n' by {
                        if x[k] == '\n' {
                            assert(s.subrange(k, k + 1) =~= nl);
                            assert(occurs_at(s, nl, k));
                        }
                    }
                    assert(no_newline(strip_cr(x)));
                    lemma_lines_no_newline(s.skip(m + 1));
                    let r = lines(s.skip(m + 1));
                    assert(lines(s) == seq![strip_cr(x)] + r);
                    assert forall|i: int| 0 <= i < lines(s).len() implies no_newline(
                        #[trigger] lines(s)[i],
                    ) by {
                        if i > 0 {
                            assert(lines(s)[i] == r[i - 1]);
                        }
                    }
                } else {
                    assert forall|k: int| 0 <= k < s.len() implies s[k] != '\n' by {
                        if s[k] == '\n' {
                            assert(s.subrange(k, k + 1) =~= nl);
                            assert(occurs_at(s, nl, k));
                        }
                    }
                }
            },
        }
    }
}

/// Joining two or more parts is the first part, the separator, and the rest joined.
proof fn lemma_join_front(ls: Seq<Seq<char>>, sep: Seq<char>)
    requires
        ls.len() >= 2,
    ensures
        join(ls, sep) == ls[0] + sep + join(ls.skip(1), sep),
    decreases ls.len(),
{
    if ls.len() == 2 {
        assert(ls.drop_last().len() == 1);
        assert(ls.skip(1).len() == 1);
        assert(join(ls.skip(1), sep) == ls.skip(1)[0]);
        assert(join(ls.drop_last(), sep) == ls.drop_last()[0]);
        assert(ls[0] + sep + ls[1] =~= ls[0] + sep + join(ls.skip(1), sep));
    } else {
        lemma_join_front(ls.drop_last(), sep);
        assert(ls.skip(1).drop_last() =~= ls.drop_last().skip(1));
        assert(ls.skip(1).last() == ls.last());
        assert(ls.drop_last()[0] == ls[0]);
        assert(join(ls, sep) =~= ls[0] + sep + join(ls.skip(1), sep));
    }
}

/// Lines that rejoin to themselves come back from their joined text.
proof fn lemma_lines_of_join(ls: Seq<Seq<char>>)
    requires
        rejoins_to_itself(ls),
    ensures
        lines(join(ls, seq!['\n'])) == ls,
    decreases ls.len(),
{
    let nl = seq!['\n'];
    if ls.len() == 0 {
        assert(lines(join(ls, nl)) =~= ls);
    } else {
        let x = ls[0];
        assert(no_newline(x));
        if ls.len() == 1 {
            let s = join(ls, nl);
            assert(s == x);
            lemma_find_from(s, nl, 0);
            if find(s, nl) is Some {
                let k = find(s, nl)->0;
                assert(s.subrange(k, k + 1)[0] == s[k]);
            }
            assert(lines(s) =~= ls);
        } else {
            lemma_join_front(ls, nl);
            let rest = join(ls.skip(1), nl);
            let s = x + nl + rest;
            let m = x.len() as int;
            assert(s.subrange(m, m + 1) =~= nl);
            assert(occurs_at(s, nl, m));
            lemma_find_from(s, nl, 0);
            let k = find(s, nl)->0;
            if k < m {
                assert(s.subrange(k, k + 1)[0] == s[k]);
                assert(x[k] == '\n');
            }
            assert(k == m);
            assert(s.take(m) =~= x);
            assert(!(x.len() > 0 && x.last() == '\r'));
            assert(strip_cr(x) == x);
            assert(s.skip(m + 1) =~= rest);
            let t = ls.skip(1);
            assert forall|i: int| 0 <= i < t.len() implies no_newline(#[trigger] t[i]) by {
                assert(t[i] == ls[i + 1]);
            }
            assert forall|i: int|
                0 <= i < t.len() implies !(#[trigger] t[i].len() > 0 && t[i].last() == '\r') by {
                assert(t[i] == ls[i + 1]);
            }
            assert(t.last() == ls.last());
            lemma_lines_of_join(t);
            assert(lines(s) == seq![x] + t);
            assert(seq![x] + t =~= ls);
        }
    }
}

/// Rewriting a line after the lines before it.
proof fn lemma_fold_push(o: Seq<Seq<char>>, y: Seq<char>, kp: Seq<char>, value: Seq<char>)
    ensures
        update_fold(o.push(y), kp, value) == update_step(update_fold(o, kp, value), y, kp, value),
{
    assert(o.push(y).drop_last() =~= o);
}

/// What the value, the empty line and the field's heading do to a second rewrite.
pub open spec fn value_rewrites_cleanly(key: Seq<char>, value: Seq<char>) -> bool {
    &&& trim(value).len() > 0
    &&& !starts_with(value, "|"@)
    &&& !starts_with(value, "-"@)
    &&& !starts_with(value, "## "@)
    &&& !is_field_heading(value, key)
    &&& !is_field_heading(Seq::empty(), key)
    &&& trim("## "@ + key) == "## "@ + key
}

/// Rewriting the lines that one rewrite wrote out comes back to the same state.
proof fn lemma_rewrite_output_is_stable(ls: Seq<Seq<char>>, key: Seq<char>, value: Seq<char>, n: int)
    requires
        0 <= n <= ls.len(),
        value_rewrites_cleanly(key, value),
        no_newline(value),
        forall|i: int| 0 <= i < ls.len() ==> no_newline(#[trigger] ls[i]),
    ensures
        update_fold(update_fold(ls.take(n), "## "@ + key, value).out, "## "@ + key, value)
            == update_fold(ls.take(n), "## "@ + key, value),
        forall|j: int|
            0 <= j < update_fold(ls.take(n), "## "@ + key, value).out.len() ==> no_newline(
                #[trigger] update_fold(ls.take(n), "## "@ + key, value).out[j],
            ),
    decreases n,
{
    let kp = "## "@ + key;
    if n == 0 {
        assert(ls.take(0) =~= Seq::<Seq<char>>::empty());
        assert(update_fold(Seq::<Seq<char>>::empty(), kp, value).out =~= Seq::<Seq<char>>::empty());
    } else {
        lemma_rewrite_output_is_stable(ls, key, value, n - 1);
        assert(ls.take(n).drop_last() =~= ls.take(n - 1));
        let prev = update_fold(ls.take(n - 1), kp, value);
        let x = ls[n - 1];
        let o = prev.out;
        let cur = update_fold(ls.take(n), kp, value);
        assert(cur == update_step(prev, x, kp, value));
        assert(no_newline(x));
        lemma_fold_push(o, x, kp, value);
        if lowercase(trim(x)) == lowercase(kp) {
        } else if prev.found && starts_with(x, "## "@) {
            let e: Seq<char> = Seq::empty();
            lemma_fold_push(o, value, kp, value);
            lemma_fold_push(o.push(value), e, kp, value);
            lemma_fold_push(o.push(value).push(e), x, kp, value);
            assert(o.push(value).push(e).push(x) =~= o + seq![value, e, x]);
            assert(trim(e) =~= e);
            assert(cur.out =~= o + seq![value, e, x]);
            assert forall|j: int| 0 <= j < cur.out.len() implies no_newline(#[trigger] cur.out[j]) by {
                if j < o.len() {
                    assert(cur.out[j] == o[j]);
                }
            }
        } else if prev.found && trim(x).len() > 0 && !starts_with(x, "|"@) && !starts_with(x, "-"@) {
            lemma_fold_push(o, value, kp, value);
            assert forall|j: int| 0 <= j < cur.out.len() implies no_newline(#[trigger] cur.out[j]) by {
                if j < o.len() {
                    assert(cur.out[j] == o[j]);
                }
            }
        } else {
        }
        assert forall|j: int| 0 <= j < cur.out.len() implies no_newline(#[trigger] cur.out[j]) by {
            if j < o.len() {
                assert(cur.out[j] == o[j]);
            }
        }
    }
}

/// Setting a field to a value and then setting it to the same value again
/// changes nothing the second time. It holds for a value that is one non-blank
/// line, no table row, list item or heading (the field's own heading least of
/// all), a key that is one line without trailing white space, and a document
/// whose rewritten lines come back from its text (no line ends in a carriage
/// return, and the last line is not empty).
pub proof fn rewriting_a_field_twice_changes_nothing(md: Seq<char>, key: Seq<char>, value: Seq<char>)
    requires
        no_newline(value),
        no_newline(key),
        value_rewrites_cleanly(key, value),
        forall|i: int|
            0 <= i < updated_lines(md, key, value).len() ==> !(
            #[trigger] updated_lines(md, key, value)[i].len() > 0 && updated_lines(
                md,
                key,
                value,
            )[i].last() == '\r'),
        updated_lines(md, key, value).len() == 0 || updated_lines(md, key, value).last().len() > 0,
    ensures
        update_markdown(update_markdown(md, key, value), key, value) == update_markdown(
            md,
            key,
            value,
        ),
{
    reveal_strlit("## ");
    let kp = "## "@ + key;
    let ls = lines(md);
    let n = ls.len() as int;
    lemma_lines_no_newline(md);
    lemma_rewrite_output_is_stable(ls, key, value, n);
    assert(ls.take(n) =~= ls);
    let st = update_fold(ls, kp, value);
    let o = st.out;
    let l = updated_lines(md, key, value);
    assert(no_newline(kp)) by {
        assert forall|k: int| 0 <= k < kp.len() implies kp[k] != '\n' by {
            if k >= 3 {
                assert(kp[k] == key[k - 3]);
            }
        }
    }
    let e: Seq<char> = Seq::empty();
    assert(trim(e) =~= e);
    assert(update_fold(o, kp, value) == st);
    if st.found && !st.updated {
        assert(l == o.push(value));
        lemma_fold_push(o, value, kp, value);
    } else if !st.updated && !st.found {
        assert(l == o + seq![e, kp, value]);
        lemma_fold_push(o, e, kp, value);
        lemma_fold_push(o.push(e), kp, kp, value);
        lemma_fold_push(o.push(e).push(kp), value, kp, value);
        assert(o.push(e).push(kp).push(value) =~= o + seq![e, kp, value]);
        assert(lowercase(trim(kp)) == lowercase(kp));
    } else {
        assert(l == o);
    }
    assert forall|i: int| 0 <= i < l.len() implies no_newline(#[trigger] l[i]) by {
        if i < o.len() {
            assert(l[i] == o[i]);
        }
    }
    assert(rejoins_to_itself(l));
    lemma_lines_of_join(l);
    let s = update_markdown(md, key, value);
    assert(lines(s) == l);
    assert(updated_lines(s, key, value) == l);
}

/// The table rows (lines starting with `|`) among `ls`, in order.
pub open spec fn table_rows(ls: Seq<Seq<char>>) -> Seq<Seq<char>>
    decreases ls.len(),
{
    if ls.len() == 0 {
        Seq::empty()
    } else if starts_with(ls.last(), "|"@) {
        table_rows(ls.drop_last()).push(ls.last())
    } else {
        table_rows(ls.drop_last())
    }
}

/// The table rows among `ls` that differ from `v`, in order.
pub open spec fn table_rows_other_than(ls: Seq<Seq<char>>, v: Seq<char>) -> Seq<Seq<char>>
    decreases ls.len(),
{
    if ls.len() == 0 {
        Seq::empty()
    } else if starts_with(ls.last(), "|"@) && ls.last() != v {
        table_rows_other_than(ls.drop_last(), v).push(ls.last())
    } else {
        table_rows_other_than(ls.drop_last(), v)
    }
}

proof fn lemma_rows_push(ls: Seq<Seq<char>>, x: Seq<char>, v: Seq<char>)
    ensures
        table_rows_other_than(ls.push(x), v) == if starts_with(x, "|"@) && x != v {
            table_rows_other_than(ls, v).push(x)
        } else {
            table_rows_other_than(ls, v)
        },
        table_rows(ls.push(x)) == if starts_with(x, "|"@) {
            table_rows(ls).push(x)
        } else {
            table_rows(ls)
        },
{
    assert(ls.push(x).drop_last() =~= ls);
}

proof fn lemma_heading_is_no_row(x: Seq<char>)
    requires
        starts_with(x, "## "@),
    ensures
        !starts_with(x, "|"@),
{
    reveal_strlit("## ");
    reveal_strlit("|");
    assert(x.subrange(0, 3)[0] == x[0]);
    if starts_with(x, "|"@) {
        assert(x.subrange(0, 1)[0] == x[0]);
    }
}

proof fn lemma_rows_kept(ls: Seq<Seq<char>>, kp: Seq<char>, value: Seq<char>, n: int)
    requires
        0 <= n <= ls.len(),
    ensures
        table_rows_other_than(update_fold(ls.take(n), kp, value).out, value)
            == table_rows_other_than(ls.take(n), value),
    decreases n,
{
    reveal_strlit("|");
    if n == 0 {
        assert(ls.take(0) =~= Seq::<Seq<char>>::empty());
    } else {
        lemma_rows_kept(ls, kp, value, n - 1);
        assert(ls.take(n) =~= ls.take(n - 1).push(ls[n - 1]));
        assert(ls.take(n).drop_last() =~= ls.take(n - 1));
        let prev = update_fold(ls.take(n - 1), kp, value);
        let x = ls[n - 1];
        let o = prev.out;
        let e: Seq<char> = Seq::empty();
        lemma_rows_push(ls.take(n - 1), x, value);
        lemma_rows_push(o, x, value);
        lemma_rows_push(o, value, value);
        if lowercase(trim(x)) == lowercase(kp) {
        } else if prev.found && starts_with(x, "## "@) {
            lemma_heading_is_no_row(x);
            lemma_rows_push(o.push(value), e, value);
            lemma_rows_push(o.push(value).push(e), x, value);
            assert(o + seq![value, e, x] =~= o.push(value).push(e).push(x));
        } else if prev.found && trim(x).len() > 0 && !starts_with(x, "|"@) && !starts_with(x, "-"@) {
        } else {
        }
    }
}

/// Updating a field never changes, drops or reorders a table row of the
/// document: the rows of the updated document, apart from lines equal to the
/// value written, are those of the document in the same order.
pub proof fn table_rows_survive_update(md: Seq<char>, key: Seq<char>, value: Seq<char>)
    ensures
        table_rows_other_than(updated_lines(md, key, value), value) == table_rows_other_than(
            lines(md),
            value,
        ),
{
    reveal_strlit("|");
    let ls = lines(md);
    let kp = "## "@ + key;
    lemma_rows_kept(ls, kp, value, ls.len() as int);
    assert(ls.take(ls.len() as int) =~= ls);
    let st = update_fold(ls, kp, value);
    let o = st.out;
    let e: Seq<char> = Seq::empty();
    lemma_rows_push(o, value, value);
    if !st.updated && !st.found {
        let o1 = if st.found && !st.updated { o.push(value) } else { o };
        assert(o1 == o);
        reveal_strlit("## ");
        assert(kp.subrange(0, 3) =~= "## "@);
        lemma_heading_is_no_row(kp);
        lemma_rows_push(o, e, value);
        lemma_rows_push(o.push(e), kp, value);
        lemma_rows_push(o.push(e).push(kp), value, value);
        assert(o + seq![e, kp, value] =~= o.push(e).push(kp).push(value));
    }
}

proof fn lemma_rows_without_value_row(ls: Seq<Seq<char>>, v: Seq<char>)
    requires
        !starts_with(v, "|"@),
    ensures
        table_rows_other_than(ls, v) == table_rows(ls),
    decreases ls.len(),
{
    if ls.len() > 0 {
        lemma_rows_without_value_row(ls.drop_last(), v);
    }
}

/// When the value written is no table row, the updated document has exactly
/// the table rows of the document, unchanged and in the same order.
pub proof fn table_rows_unchanged_by_update(md: Seq<char>, key: Seq<char>, value: Seq<char>)
    requires
        !starts_with(value, "|"@),
    ensures
        table_rows(updated_lines(md, key, value)) == table_rows(lines(md)),
{
    table_rows_survive_update(md, key, value);
    lemma_rows_without_value_row(updated_lines(md, key, value), value);
    lemma_rows_without_value_row(lines(md), value);
}

/// Why an update request was refused.
#[derive(Clone, Copy, PartialEq, Eq, Debug)]
pub enum UpdateFormatError {
    /// The request holds no `:` between key and value.
    MissingColon,
}

/// A `key:value` request split at its first `:`, both sides trimmed.
pub open spec fn update_request(u: Seq<char>) -> Option<(Seq<char>, Seq<char>)> {
    match find(u, seq![':']) {
        Some(i) => Some((trim(u.take(i)), trim(u.skip(i + 1)))),
        None => None,
    }
}

/// Splits an update request `key:value`.
pub fn parse_update_request(update: &str) -> (r: Result<(String, String), UpdateFormatError>)
    ensures
        match r {
            Ok((k, v)) => update_request(update@) == Some((k@, v@)),
            Err(e) => update_request(update@) is None && e == UpdateFormatError::MissingColon,
        },
{
    let u = chars_of(update);
    let mut colon: Vec<char> = Vec::new();
    colon.push(':');
    proof {
        lemma_find_from(u@, colon@, 0);
    }
    match find_exec(&u, &colon) {
        Some(i) => {
            let k = trim_exec(&subvec(&u, 0, i));
            let v = trim_exec(&subvec(&u, i + 1, u.len()));
            assert(u@.subrange(0, i as int) =~= u@.take(i as int));
            assert(u@.subrange(i + 1, u@.len() as int) =~= u@.skip(i + 1));
            Ok((string_of(&k), string_of(&v)))
        },
        None => Err(UpdateFormatError::MissingColon),
    }
}


/// A request written as `key:value`, with no `:` in the key, splits back into
/// the trimmed key and the trimmed value.
pub proof fn update_request_round_trip(key: Seq<char>, value: Seq<char>)
    requires
        !key.contains(':'),
    ensures
        update_request(key + seq![':'] + value) == Some((trim(key), trim(value))),
{
    let u = key + seq![':'] + value;
    let colon = seq![':'];
    lemma_find_from(u, colon, 0);
    let m = key.len() as int;
    assert(u.subrange(m, m + 1) =~= colon);
    assert(occurs_at(u, colon, m));
    match find(u, colon) {
        Some(k) => {
            if k < m {
                assert(u.subrange(k, k + 1)[0] == u[k]);
                assert(key[k] == ':');
                assert(false);
            }
            assert(k == m);
        },
        None => {
            assert(false);
        },
    }
    assert(u.take(m) =~= key);
    assert(u.skip(m + 1) =~= value);
}

/// The commit message of an update.
pub fn update_commit_message(key: &str, value: &str) -> (s: String)
    ensures
        s@ == "[UPDATE] "@ + key@ + ": "@ + value@,
{
    let mut s = String::new();
    s.append("[UPDATE] ");
    s.append(key);
    s.append(": ");
    s.append(value);
    s
}

/// A context entry as the show command prints it.
pub struct ContextEntry {
    pub path: String,
    pub entry_type: String,
    pub content: String,
    pub branch: String,
}

/// The entry to show: the mapping entry's path, type and branch, with its
/// document turned into JSON.
pub fn context_entry(entry: MappingEntry, document: &str) -> (c: ContextEntry)
    ensures
        c.path@ == entry.path@,
        c.entry_type@ == entry.entry_type@,
        c.branch@ == entry.branch@,
        c.content@ == json_object_of(markdown_sections(document@)),
{
    ContextEntry {
        path: entry.path,
        entry_type: entry.entry_type,
        content: parse_markdown_to_json(document),
        branch: entry.branch,
    }
}

} // verus!
