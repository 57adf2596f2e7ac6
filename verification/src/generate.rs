//! Collecting the entries of a version and writing them out as prompt context.

use vstd::prelude::*;
use vstd::string::*;
use crate::markdown::string_map_view;
use crate::registry::{MappingEntry, PathMapping};
use crate::strmap::StrMap;
use crate::text::{chars_of, has_prefix, starts_with, strip_all_prefix, strip_all_prefix_exec, string_of};

verus! {

/// The three parts of a version's context.
#[derive(Clone, Copy, Debug, PartialEq, Eq, Structural)]
pub enum ContextCategory {
    Architecture,
    Constraints,
    Security,
}

/// The part an entry belongs to, by the start of its path within the version.
pub open spec fn category_of(short: Seq<char>) -> Option<ContextCategory> {
    if starts_with(short, "architecture"@) {
        Some(ContextCategory::Architecture)
    } else if starts_with(short, "constraint"@) {
        Some(ContextCategory::Constraints)
    } else if starts_with(short, "security"@) {
        Some(ContextCategory::Security)
    } else {
        None
    }
}

/// An entry of the version: its path within the version, its kind, its branch
/// and its part.
pub struct ContextItem {
    pub short_path: String,
    pub entry_type: String,
    pub branch: String,
    pub category: Option<ContextCategory>,
}

/// The content of a `ContextItem`.
pub struct ContextItemView {
    pub short_path: Seq<char>,
    pub entry_type: Seq<char>,
    pub branch: Seq<char>,
    pub category: Option<ContextCategory>,
}

impl View for ContextItem {
    type V = ContextItemView;

    open spec fn view(&self) -> ContextItemView {
        ContextItemView {
            short_path: self.short_path@,
            entry_type: self.entry_type@,
            branch: self.branch@,
            category: self.category,
        }
    }
}

/// The items of the entries whose paths lie under `version/`, in order.
pub open spec fn context_items(pairs: Seq<(String, MappingEntry)>, version: Seq<char>) -> Seq<
    ContextItemView,
>
    decreases pairs.len(),
{
    if pairs.len() == 0 {
        Seq::empty()
    } else {
        let prev = context_items(pairs.drop_last(), version);
        let (path, entry) = pairs.last();
        let prefix = version + "/"@;
        if starts_with(path@, prefix) {
            let short = strip_all_prefix(path@, prefix);
            prev.push(
                ContextItemView {
                    short_path: short,
                    entry_type: entry.entry_type@,
                    branch: entry.branch@,
                    category: category_of(short),
                },
            )
        } else {
            prev
        }
    }
}

/// The context of a version holds only entries recorded under that version:
/// each item comes from a mapping entry whose path begins with `version/`, and
/// carries that path with the prefix taken off, the entry's kind and branch,
/// and the part its path names.
pub proof fn items_come_from_version(pairs: Seq<(String, MappingEntry)>, version: Seq<char>)
    ensures
        context_items(pairs, version).len() <= pairs.len(),
        forall|k: int|
            #![trigger context_items(pairs, version)[k]]
            0 <= k < context_items(pairs, version).len() ==> exists|i: int|
                0 <= i < pairs.len() && starts_with(#[trigger] pairs[i].0@, version + "/"@)
                    && context_items(pairs, version)[k].short_path == strip_all_prefix(
                    pairs[i].0@,
                    version + "/"@,
                ) && context_items(pairs, version)[k].entry_type == pairs[i].1.entry_type@
                    && context_items(pairs, version)[k].branch == pairs[i].1.branch@
                    && context_items(pairs, version)[k].category == category_of(
                    context_items(pairs, version)[k].short_path,
                ),
    decreases pairs.len(),
{
    if pairs.len() > 0 {
        items_come_from_version(pairs.drop_last(), version);
        let prev = context_items(pairs.drop_last(), version);
        let items = context_items(pairs, version);
        let q = pairs.drop_last();
        assert forall|k: int| #![trigger items[k]] 0 <= k < items.len() implies exists|i: int|
            0 <= i < pairs.len() && starts_with(#[trigger] pairs[i].0@, version + "/"@)
                && items[k].short_path == strip_all_prefix(pairs[i].0@, version + "/"@)
                && items[k].entry_type == pairs[i].1.entry_type@
                && items[k].branch == pairs[i].1.branch@ && items[k].category == category_of(
                items[k].short_path,
            ) by {
            if k < prev.len() {
                assert(items[k] == prev[k]);
                let i = choose|i: int|
                    0 <= i < q.len() && starts_with(#[trigger] q[i].0@, version + "/"@)
                        && prev[k].short_path == strip_all_prefix(q[i].0@, version + "/"@)
                        && prev[k].entry_type == q[i].1.entry_type@
                        && prev[k].branch == q[i].1.branch@ && prev[k].category == category_of(
                        prev[k].short_path,
                    );
                assert(pairs[i] == q[i]);
            } else {
                let last = pairs.len() - 1;
                assert(pairs[last] == pairs.last());
            }
        }
    }
}

/// The views of a list of items.
pub open spec fn item_views(v: Seq<ContextItem>) -> Seq<ContextItemView> {
    v.map_values(|x: ContextItem| x@)
}

/// Decides `category_of`.
fn category_of_exec(short: &Vec<char>) -> (c: Option<ContextCategory>)
    ensures
        c == category_of(short@),
{
    if has_prefix(short, &chars_of("architecture")) {
        Some(ContextCategory::Architecture)
    } else if has_prefix(short, &chars_of("constraint")) {
        Some(ContextCategory::Constraints)
    } else if has_prefix(short, &chars_of("security")) {
        Some(ContextCategory::Security)
    } else {
        None
    }
}

/// The entries of `version` in the mapping, in the mapping's order.
pub fn select_context_items(mapping: &PathMapping, version: &str) -> (r: Vec<ContextItem>)
    ensures
        item_views(r@) == context_items(mapping.entries.entries(), version@),
{
    let pairs = mapping.entries.pairs();
    let mut prefix = String::new();
    prefix.append(version);
    prefix.append("/");
    let prefix_chars = chars_of(prefix.as_str());
    let mut r: Vec<ContextItem> = Vec::new();
    let mut i: usize = 0;
    assert(item_views(r@) =~= Seq::<ContextItemView>::empty());
    while i < pairs.len()
        invariant
            i <= pairs.len(),
            pairs@ == mapping.entries.entries(),
            prefix_chars@ == version@ + "/"@,
            item_views(r@) == context_items(pairs@.take(i as int), version@),
        decreases pairs.len() - i,
    {
        assert(pairs@.take(i + 1).drop_last() =~= pairs@.take(i as int));
        let path = chars_of(pairs[i].0.as_str());
        if has_prefix(&path, &prefix_chars) {
            let short = strip_all_prefix_exec(&path, &prefix_chars);
            let category = category_of_exec(&short);
            let ghost before = item_views(r@);
            r.push(
                ContextItem {
                    short_path: string_of(&short),
                    entry_type: pairs[i].1.entry_type.clone(),
                    branch: pairs[i].1.branch.clone(),
                    category,
                },
            );
            assert(item_views(r@) =~= before.push(r@[r@.len() - 1]@));
        }
        i += 1;
    }
    assert(pairs@.take(pairs.len() as int) =~= pairs@);
    r
}

/// The context of one version, part by part.
pub struct ContextOutput {
    pub version: String,
    pub architecture: Option<StrMap<String>>,
    pub constraints: Option<StrMap<String>>,
    pub security: Option<StrMap<String>>,
    pub generated_at: String,
}

/// A part's entries by kind, when the part is there.
pub open spec fn part_view(m: Option<StrMap<String>>) -> Option<Map<Seq<char>, Seq<char>>> {
    match m {
        Some(x) => Some(string_map_view(x.map())),
        None => None,
    }
}

/// The three parts by their entries.
pub struct PartsView {
    pub architecture: Option<Map<Seq<char>, Seq<char>>>,
    pub constraints: Option<Map<Seq<char>, Seq<char>>>,
    pub security: Option<Map<Seq<char>, Seq<char>>>,
}

/// A part with one more entry; a part that was not there is created.
pub open spec fn part_insert(
    m: Option<Map<Seq<char>, Seq<char>>>,
    k: Seq<char>,
    v: Seq<char>,
) -> Option<Map<Seq<char>, Seq<char>>> {
    match m {
        Some(x) => Some(x.insert(k, v)),
        None => Some(Map::<Seq<char>, Seq<char>>::empty().insert(k, v)),
    }
}

/// Filing the entries with their contents into the parts, in order, each under
/// its kind (a later entry of the same kind replaces an earlier one); entries
/// outside the three parts are left out.
pub open spec fn parts_of(items: Seq<ContextItemView>, contents: Seq<Seq<char>>) -> PartsView
    decreases items.len(),
{
    if items.len() == 0 || contents.len() < items.len() {
        PartsView { architecture: None, constraints: None, security: None }
    } else {
        let prev = parts_of(items.drop_last(), contents.take(items.len() - 1));
        let it = items.last();
        let c = contents[items.len() - 1];
        match it.category {
            Some(ContextCategory::Architecture) => PartsView {
                architecture: part_insert(prev.architecture, it.entry_type, c),
                ..prev
            },
            Some(ContextCategory::Constraints) => PartsView {
                constraints: part_insert(prev.constraints, it.entry_type, c),
                ..prev
            },
            Some(ContextCategory::Security) => PartsView {
                security: part_insert(prev.security, it.entry_type, c),
                ..prev
            },
            None => prev,
        }
    }
}

/// The part that holds the entries of category `c`.
pub open spec fn part_for(p: PartsView, c: ContextCategory) -> Option<Map<Seq<char>, Seq<char>>> {
    match c {
        ContextCategory::Architecture => p.architecture,
        ContextCategory::Constraints => p.constraints,
        ContextCategory::Security => p.security,
    }
}

/// Item `k` belongs to category `c` and is of kind `key`.
pub open spec fn filed_as(items: Seq<ContextItemView>, k: int, c: ContextCategory, key: Seq<char>) -> bool {
    items[k].category == Some(c) && items[k].entry_type == key
}

/// Some item belongs to category `c`.
pub open spec fn has_items_in(items: Seq<ContextItemView>, c: ContextCategory) -> bool {
    exists|k: int| 0 <= k < items.len() && #[trigger] items[k].category == Some(c)
}

/// No item after `k` belongs to category `c` with kind `key`.
pub open spec fn last_filed(items: Seq<ContextItemView>, k: int, c: ContextCategory, key: Seq<char>) -> bool {
    forall|j: int| k < j < items.len() ==> !#[trigger] filed_as(items, j, c, key)
}

/// Filing keeps what was filed before: a part is there exactly when some item
/// belongs to its category; its keys are exactly the kinds of the items of that
/// category; and under each key stands the content of the last such item.
pub proof fn parts_hold_their_items(items: Seq<ContextItemView>, contents: Seq<Seq<char>>)
    requires
        contents.len() == items.len(),
    ensures
        forall|c: ContextCategory|
            (#[trigger] part_for(parts_of(items, contents), c) is Some) == has_items_in(items, c),
        forall|c: ContextCategory, key: Seq<char>|
            part_for(parts_of(items, contents), c) is Some ==> (#[trigger] part_for(
                parts_of(items, contents),
                c,
            )->0.contains_key(key) <==> exists|k: int|
                0 <= k < items.len() && #[trigger] filed_as(items, k, c, key)),
        forall|c: ContextCategory, k: int|
            0 <= k < items.len() && #[trigger] filed_as(items, k, c, items[k].entry_type)
                && last_filed(items, k, c, items[k].entry_type) ==> part_for(
                parts_of(items, contents),
                c,
            ) is Some && part_for(
                parts_of(items, contents),
                c,
            )->0.contains_key(items[k].entry_type) && part_for(parts_of(items, contents), c)->0[
                items[k].entry_type] == contents[k],
    decreases items.len(),
{
    let p = parts_of(items, contents);
    if items.len() == 0 {
        assert forall|c: ContextCategory| (#[trigger] part_for(p, c) is Some) == has_items_in(items, c) by {
        }
    } else {
        let n = items.len() - 1;
        let pi = items.drop_last();
        let pc = contents.take(n);
        parts_hold_their_items(pi, pc);
        let q = parts_of(pi, pc);
        let it = items[n];
        let v = contents[n];
        assert(it == items.last());
        assert forall|j: int| 0 <= j < n implies #[trigger] items[j] == pi[j] by {}
        assert forall|j: int| 0 <= j < n implies #[trigger] contents[j] == pc[j] by {}
        // how the parts change with the last item
        assert forall|c: ContextCategory| #[trigger] part_for(p, c) == (if it.category == Some(c) {
            match part_for(q, c) {
                Some(x) => Some(x.insert(it.entry_type, v)),
                None => Some(Map::<Seq<char>, Seq<char>>::empty().insert(it.entry_type, v)),
            }
        } else {
            part_for(q, c)
        }) by {}
        assert forall|c: ContextCategory| (#[trigger] part_for(p, c) is Some) == has_items_in(items, c) by {
            if has_items_in(pi, c) {
                let k = choose|k: int| 0 <= k < pi.len() && #[trigger] pi[k].category == Some(c);
                assert(items[k].category == Some(c));
            }
            if has_items_in(items, c) && it.category != Some(c) {
                let k = choose|k: int| 0 <= k < items.len() && #[trigger] items[k].category == Some(c);
                assert(pi[k].category == Some(c));
            }
            if it.category == Some(c) {
                assert(items[n].category == Some(c));
            }
        }
        assert forall|c: ContextCategory, key: Seq<char>|
            part_for(p, c) is Some implies (#[trigger] part_for(p, c)->0.contains_key(key)
                <==> exists|k: int| 0 <= k < items.len() && #[trigger] filed_as(items, k, c, key)) by {
            if exists|k: int| 0 <= k < items.len() && #[trigger] filed_as(items, k, c, key) {
                let k = choose|k: int| 0 <= k < items.len() && #[trigger] filed_as(items, k, c, key);
                if k < n {
                    assert(filed_as(pi, k, c, key));
                }
            }
            if part_for(q, c) is Some && part_for(q, c)->0.contains_key(key) {
                let k = choose|k: int| 0 <= k < pi.len() && #[trigger] filed_as(pi, k, c, key);
                assert(filed_as(items, k, c, key));
            }
            if it.category == Some(c) && it.entry_type == key {
                assert(filed_as(items, n, c, key));
            }
        }
        assert forall|c: ContextCategory, k: int|
            0 <= k < items.len() && #[trigger] filed_as(items, k, c, items[k].entry_type)
                && last_filed(items, k, c, items[k].entry_type) implies part_for(p, c) is Some
                && part_for(p, c)->0.contains_key(
            items[k].entry_type) && part_for(p, c)->0[items[k].entry_type] == contents[k] by {
            if k < n {
                let key = items[k].entry_type;
                assert(!filed_as(items, n, c, key));
                assert(pi[k].category == Some(c));
                assert forall|j: int| k < j < pi.len() implies !#[trigger] filed_as(pi, j, c, key) by {
                    assert(!filed_as(items, j, c, key));
                }
                assert(last_filed(pi, k, c, key));
                assert(pc[k] == contents[k]);
                assert(filed_as(pi, k, c, pi[k].entry_type));
            } else {
                assert(items[k] == it);
            }
        }
    }
}

/// The parts of a context output by their entries.
pub open spec fn output_parts(r: ContextOutput) -> PartsView {
    PartsView {
        architecture: part_view(r.architecture),
        constraints: part_view(r.constraints),
        security: part_view(r.security),
    }
}

/// Adds an entry to a part, creating the part if needed.
fn file_into(part: &mut Option<StrMap<String>>, k: String, v: String)
    ensures
        part_view(*final(part)) == part_insert(part_view(*old(part)), k@, v@),
{
    let mut m = match part.take() {
        Some(x) => x,
        None => StrMap::new(),
    };
    proof {
        crate::registry::lemma_map_values_insert(m.map(), k@, v, |s: String| s@);
        assert(string_map_view(Map::<Seq<char>, String>::empty()) =~= Map::<Seq<char>, Seq<char>>::empty());
    }
    m.insert(k, v);
    *part = Some(m);
}

/// The context of `version` from its entries and their contents.
pub fn build_context_output(
    version: String,
    items: &Vec<ContextItem>,
    contents: &Vec<String>,
    generated_at: String,
) -> (r: ContextOutput)
    requires
        contents.len() == items.len(),
    ensures
        r.version == version,
        r.generated_at == generated_at,
        (PartsView {
            architecture: part_view(r.architecture),
            constraints: part_view(r.constraints),
            security: part_view(r.security),
        }) == parts_of(item_views(items@), crate::version::string_views(contents@)),
        forall|c: ContextCategory|
            (#[trigger] part_for(output_parts(r), c) is Some) == has_items_in(item_views(items@), c),
        forall|c: ContextCategory, key: Seq<char>|
            part_for(output_parts(r), c) is Some ==> (#[trigger] part_for(output_parts(r), c)->0.contains_key(key)
                <==> exists|k: int| 0 <= k < items.len() && #[trigger] filed_as(item_views(items@), k, c, key)),
        forall|c: ContextCategory, k: int|
            0 <= k < items.len() && #[trigger] filed_as(item_views(items@), k, c, items@[k].entry_type@)
                && last_filed(item_views(items@), k, c, items@[k].entry_type@) ==> part_for(
                output_parts(r),
                c,
            ) is Some && part_for(output_parts(r), c)->0.contains_key(items@[k].entry_type@)
                && part_for(output_parts(r), c)->0[items@[k].entry_type@] == contents@[k]@,
{
    let mut architecture: Option<StrMap<String>> = None;
    let mut constraints: Option<StrMap<String>> = None;
    let mut security: Option<StrMap<String>> = None;
    let ghost iv = item_views(items@);
    let ghost cv = crate::version::string_views(contents@);
    let mut i: usize = 0;
    while i < items.len()
        invariant
            i <= items.len() == contents.len(),
            iv == item_views(items@),
            cv == crate::version::string_views(contents@),
            (PartsView {
                architecture: part_view(architecture),
                constraints: part_view(constraints),
                security: part_view(security),
            }) == parts_of(iv.take(i as int), cv.take(i as int)),
        decreases items.len() - i,
    {
        assert(iv.take(i + 1).drop_last() =~= iv.take(i as int));
        assert(cv.take(i + 1).take(i as int) =~= cv.take(i as int));
        assert(iv.take(i + 1).last() == items@[i as int]@);
        let it = &items[i];
        match it.category {
            Some(ContextCategory::Architecture) => file_into(
                &mut architecture,
                it.entry_type.clone(),
                contents[i].clone(),
            ),
            Some(ContextCategory::Constraints) => file_into(
                &mut constraints,
                it.entry_type.clone(),
                contents[i].clone(),
            ),
            Some(ContextCategory::Security) => file_into(
                &mut security,
                it.entry_type.clone(),
                contents[i].clone(),
            ),
            None => {},
        }
        i += 1;
    }
    assert(iv.take(items.len() as int) =~= iv);
    assert(cv.take(items.len() as int) =~= cv);
    let r = ContextOutput { version, architecture, constraints, security, generated_at };
    proof {
        parts_hold_their_items(iv, cv);
        assert forall|k: int| 0 <= k < items.len() implies #[trigger] iv[k] == items@[k]@ && cv[k]
            == contents@[k]@ by {}
    }
    r
}


/// Each entry of a part as a `##` section with its content.
pub open spec fn part_sections(pairs: Seq<(String, String)>) -> Seq<char>
    decreases pairs.len(),
{
    if pairs.len() == 0 {
        Seq::empty()
    } else {
        part_sections(pairs.drop_last()) + "## "@ + pairs.last().0@ + "\n\n"@ + pairs.last().1@
            + "\n\n"@
    }
}

/// A part of the prompt: a rule, its heading and its entries, when it has any.
pub open spec fn part_block(m: Option<StrMap<String>>, heading: Seq<char>) -> Seq<char> {
    match m {
        Some(x) => if x.entries().len() > 0 {
            "---\n\n"@ + heading + part_sections(x.entries())
        } else {
            Seq::empty()
        },
        None => Seq::empty(),
    }
}

/// The prompt for a version's context.
pub open spec fn prompt_text(c: ContextOutput) -> Seq<char> {
    "# Web Application Context\n\n"@ + "## Version: "@ + c.version@ + "\n\n"@ + "Generated: "@
        + c.generated_at@ + "\n\n"@ + part_block(c.architecture, "# Architecture\n\n"@)
        + part_block(c.constraints, "# Constraints\n\n"@) + part_block(
        c.security,
        "# Security\n\n"@,
    )
}

/// Appends a part of the prompt.
fn append_part(prompt: &mut String, m: &Option<StrMap<String>>, heading: &str)
    ensures
        final(prompt)@ == old(prompt)@ + part_block(*m, heading@),
{
    let ghost start = prompt@;
    match m {
        Some(x) => {
            let pairs = x.pairs();
            if pairs.len() > 0 {
                prompt.append("---\n\n");
                prompt.append(heading);
                let ghost mid = prompt@;
                let mut i: usize = 0;
                assert(pairs@.take(0) =~= Seq::<(String, String)>::empty());
                assert(mid + part_sections(Seq::<(String, String)>::empty()) =~= mid);
                while i < pairs.len()
                    invariant
                        i <= pairs.len(),
                        prompt@ == mid + part_sections(pairs@.take(i as int)),
                    decreases pairs.len() - i,
                {
                    let ghost before = part_sections(pairs@.take(i as int));
                    assert(pairs@.take(i + 1).drop_last() =~= pairs@.take(i as int));
                    prompt.append("## ");
                    prompt.append(pairs[i].0.as_str());
                    prompt.append("\n\n");
                    prompt.append(pairs[i].1.as_str());
                    prompt.append("\n\n");
                    assert(prompt@ =~= mid + (before + "## "@ + pairs@[i as int].0@ + "\n\n"@
                        + pairs@[i as int].1@ + "\n\n"@));
                    i += 1;
                }
                assert(pairs@.take(pairs.len() as int) =~= pairs@);
                assert(prompt@ =~= start + ("---\n\n"@ + heading@ + part_sections(pairs@)));
            } else {
                assert(prompt@ =~= start + Seq::<char>::empty());
            }
        },
        None => {
            assert(prompt@ =~= start + Seq::<char>::empty());
        },
    }
}

/// Writes a version's context as a prompt.
pub fn generate_prompt(context: &ContextOutput) -> (prompt: String)
    ensures
        prompt@ == prompt_text(*context),
{
    let mut prompt = String::new();
    prompt.append("# Web Application Context\n\n");
    prompt.append("## Version: ");
    prompt.append(context.version.as_str());
    prompt.append("\n\n");
    prompt.append("Generated: ");
    prompt.append(context.generated_at.as_str());
    prompt.append("\n\n");
    append_part(&mut prompt, &context.architecture, "# Architecture\n\n");
    append_part(&mut prompt, &context.constraints, "# Constraints\n\n");
    append_part(&mut prompt, &context.security, "# Security\n\n");
    prompt
}

} // verus!
