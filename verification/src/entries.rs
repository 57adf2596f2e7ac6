//! What the registry commands write: branch names, paths and the documents of
//! versions, categories and entries.

use vstd::prelude::*;
use vstd::string::*;
use crate::registry::{entries_view, lookup, opt_str_view, PathMapping};
use crate::text::{chars_of, replace_all, replace_all_exec, string_of, subvec};
use crate::version::{string_views, version_branches, filter_version_branches};

verus! {

/// The kinds of entry that live under a category.
#[derive(Clone, Copy, PartialEq, Eq, Debug)]
pub enum EntryKind {
    TechStack,
    Module,
    Validation,
    Permission,
    Auth,
    Cors,
}

/// The category that holds a kind of entry.
pub open spec fn kind_category(k: EntryKind) -> Seq<char> {
    match k {
        EntryKind::TechStack | EntryKind::Module => "architecture"@,
        EntryKind::Validation | EntryKind::Permission => "constraint"@,
        EntryKind::Auth | EntryKind::Cors => "security"@,
    }
}

/// Tech-stack and module entries live in the architecture category, validation
/// and permission entries in the constraint category, and authentication and
/// CORS entries in the security category.
pub proof fn kinds_live_in_their_category(k: EntryKind)
    ensures
        (k is TechStack || k is Module) ==> kind_category(k) == "architecture"@,
        (k is Validation || k is Permission) ==> kind_category(k) == "constraint"@,
        (k is Auth || k is Cors) ==> kind_category(k) == "security"@,
{
}

/// The prefix of the branch names of a kind of entry.
pub open spec fn kind_branch_prefix(k: EntryKind) -> Seq<char> {
    match k {
        EntryKind::TechStack | EntryKind::Module => "arch"@,
        EntryKind::Validation | EntryKind::Permission => "constraint"@,
        EntryKind::Auth | EntryKind::Cors => "security"@,
    }
}

/// The entry type recorded in the mapping.
pub open spec fn kind_type_tag(k: EntryKind) -> Seq<char> {
    match k {
        EntryKind::TechStack => "tech-stack"@,
        EntryKind::Module => "module"@,
        EntryKind::Validation => "validation"@,
        EntryKind::Permission => "permission"@,
        EntryKind::Auth => "auth"@,
        EntryKind::Cors => "cors"@,
    }
}

/// The heading word of a kind's document.
pub open spec fn kind_title(k: EntryKind) -> Seq<char> {
    match k {
        EntryKind::TechStack => "Tech Stack"@,
        EntryKind::Module => "Module"@,
        EntryKind::Validation => "Validation Rule"@,
        EntryKind::Permission => "Permission"@,
        EntryKind::Auth => "Authentication"@,
        EntryKind::Cors => "CORS Policy"@,
    }
}

/// The section that names the entry in its document.
pub open spec fn kind_label(k: EntryKind) -> Seq<char> {
    match k {
        EntryKind::Module => "Path"@,
        _ => "Name"@,
    }
}

/// The description used when none is given.
pub open spec fn kind_default_description(k: EntryKind) -> Seq<char> {
    match k {
        EntryKind::TechStack => "Tech stack configuration"@,
        EntryKind::Module => "Module configuration"@,
        EntryKind::Validation => "Validation rule"@,
        EntryKind::Permission => "Permission configuration"@,
        EntryKind::Auth => "Authentication configuration"@,
        EntryKind::Cors => "CORS policy"@,
    }
}

/// The kind-specific sections of a document, before `Last Updated`.
pub open spec fn kind_body(k: EntryKind) -> Seq<char> {
    match k {
        EntryKind::TechStack => "## Tech Stack Details\n\n### Language\nTBD\n\n### Web Framework\nTBD\n\n### Database\nTBD\n\n### Dependencies\n- None yet\n\n"@,
        EntryKind::Module => "## Module Structure\n\n### Files\n- None yet\n\n### Dependencies\n- None yet\n\n## API Endpoints\n- None yet\n\n"@,
        EntryKind::Validation => "## Validation Rules\n\n| Field | Rule | Error Message |\n|-------|------|---------------|\n| TBD | | |\n\n"@,
        EntryKind::Permission => "## Permission Matrix\n\n| Resource | Admin | User | Guest |\n|----------|-------|------|-------|\n| TBD | | | |\n\n## Roles\n- None yet\n\n"@,
        EntryKind::Auth => "## Authentication Method\nTBD\n\n## Token Configuration\n- Token Expiry:\n- Refresh Token:\n\n"@,
        EntryKind::Cors => "## CORS Configuration\n- Allowed Origins:\n- Allowed Methods:\n- Allowed Headers:\n- Exposed Headers:\n- Max Age:\n\n"@,
    }
}

/// The start of the commit message that records a kind of entry.
pub open spec fn kind_commit_tag(k: EntryKind) -> Seq<char> {
    match k {
        EntryKind::TechStack => "[TECH-STACK] Create "@,
        EntryKind::Module => "[MODULE] Create "@,
        EntryKind::Validation => "[VALIDATION] Create "@,
        EntryKind::Permission => "[PERMISSION] Create "@,
        EntryKind::Auth => "[AUTH] Create "@,
        EntryKind::Cors => "[CORS] Create "@,
    }
}

impl EntryKind {
    /// The category that holds this kind.
    pub fn category(&self) -> (s: &'static str)
        ensures
            s@ == kind_category(*self),
            (*self is TechStack || *self is Module) ==> s@ == "architecture"@,
            (*self is Validation || *self is Permission) ==> s@ == "constraint"@,
            (*self is Auth || *self is Cors) ==> s@ == "security"@,
    {
        match self {
            EntryKind::TechStack | EntryKind::Module => "architecture",
            EntryKind::Validation | EntryKind::Permission => "constraint",
            EntryKind::Auth | EntryKind::Cors => "security",
        }
    }

    /// The branch-name prefix of this kind.
    pub fn branch_prefix(&self) -> (s: &'static str)
        ensures
            s@ == kind_branch_prefix(*self),
    {
        match self {
            EntryKind::TechStack | EntryKind::Module => "arch",
            EntryKind::Validation | EntryKind::Permission => "constraint",
            EntryKind::Auth | EntryKind::Cors => "security",
        }
    }

    /// The entry type recorded in the mapping.
    pub fn type_tag(&self) -> (s: &'static str)
        ensures
            s@ == kind_type_tag(*self),
    {
        match self {
            EntryKind::TechStack => "tech-stack",
            EntryKind::Module => "module",
            EntryKind::Validation => "validation",
            EntryKind::Permission => "permission",
            EntryKind::Auth => "auth",
            EntryKind::Cors => "cors",
        }
    }

    /// The heading word of the document.
    pub fn title(&self) -> (s: &'static str)
        ensures
            s@ == kind_title(*self),
    {
        match self {
            EntryKind::TechStack => "Tech Stack",
            EntryKind::Module => "Module",
            EntryKind::Validation => "Validation Rule",
            EntryKind::Permission => "Permission",
            EntryKind::Auth => "Authentication",
            EntryKind::Cors => "CORS Policy",
        }
    }

    /// The section that names the entry.
    pub fn label(&self) -> (s: &'static str)
        ensures
            s@ == kind_label(*self),
    {
        match self {
            EntryKind::Module => "Path",
            _ => "Name",
        }
    }

    /// The description used when none is given.
    pub fn default_description(&self) -> (s: &'static str)
        ensures
            s@ == kind_default_description(*self),
    {
        match self {
            EntryKind::TechStack => "Tech stack configuration",
            EntryKind::Module => "Module configuration",
            EntryKind::Validation => "Validation rule",
            EntryKind::Permission => "Permission configuration",
            EntryKind::Auth => "Authentication configuration",
            EntryKind::Cors => "CORS policy",
        }
    }

    /// The kind-specific sections of the document.
    pub fn body(&self) -> (s: &'static str)
        ensures
            s@ == kind_body(*self),
    {
        match self {
            EntryKind::TechStack => "## Tech Stack Details\n\n### Language\nTBD\n\n### Web Framework\nTBD\n\n### Database\nTBD\n\n### Dependencies\n- None yet\n\n",
            EntryKind::Module => "## Module Structure\n\n### Files\n- None yet\n\n### Dependencies\n- None yet\n\n## API Endpoints\n- None yet\n\n",
            EntryKind::Validation => "## Validation Rules\n\n| Field | Rule | Error Message |\n|-------|------|---------------|\n| TBD | | |\n\n",
            EntryKind::Permission => "## Permission Matrix\n\n| Resource | Admin | User | Guest |\n|----------|-------|------|-------|\n| TBD | | | |\n\n## Roles\n- None yet\n\n",
            EntryKind::Auth => "## Authentication Method\nTBD\n\n## Token Configuration\n- Token Expiry:\n- Refresh Token:\n\n",
            EntryKind::Cors => "## CORS Configuration\n- Allowed Origins:\n- Allowed Methods:\n- Allowed Headers:\n- Exposed Headers:\n- Max Age:\n\n",
        }
    }

    /// The start of the commit message.
    pub fn commit_tag(&self) -> (s: &'static str)
        ensures
            s@ == kind_commit_tag(*self),
    {
        match self {
            EntryKind::TechStack => "[TECH-STACK] Create ",
            EntryKind::Module => "[MODULE] Create ",
            EntryKind::Validation => "[VALIDATION] Create ",
            EntryKind::Permission => "[PERMISSION] Create ",
            EntryKind::Auth => "[AUTH] Create ",
            EntryKind::Cors => "[CORS] Create ",
        }
    }
}

/// The document of a context entry, category or kind-specific.
pub open spec fn info_document(
    title: Seq<char>,
    type_tag: Seq<char>,
    label: Seq<char>,
    value: Seq<char>,
    desc: Seq<char>,
    version: Seq<char>,
    date: Seq<char>,
    body: Seq<char>,
) -> Seq<char> {
    "# "@ + title + "\n\n## Type\n"@ + type_tag + "\n\n## "@ + label + "\n"@ + value
        + "\n\n## Description\n"@ + desc + "\n\n## Version\n"@ + version + "\n\n## Created\n"@
        + date + "\n\n"@ + body + "## Last Updated\n"@ + date + "\n"@
}

/// Computes `info_document`.
pub fn info_document_text(
    title: &str,
    type_tag: &str,
    label: &str,
    value: &str,
    desc: &str,
    version: &str,
    date: &str,
    body: &str,
) -> (s: String)
    ensures
        s@ == info_document(title@, type_tag@, label@, value@, desc@, version@, date@, body@),
{
    let mut s = String::new();
    s.append("# ");
    s.append(title);
    s.append("\n\n## Type\n");
    s.append(type_tag);
    s.append("\n\n## ");
    s.append(label);
    s.append("\n");
    s.append(value);
    s.append("\n\n## Description\n");
    s.append(desc);
    s.append("\n\n## Version\n");
    s.append(version);
    s.append("\n\n## Created\n");
    s.append(date);
    s.append("\n\n");
    s.append(body);
    s.append("## Last Updated\n");
    s.append(date);
    s.append("\n");
    s
}


/// The part of `s` after the last `c` (the last item of `str::split`).
pub open spec fn after_last(s: Seq<char>, c: char) -> Seq<char>
    decreases s.len(),
{
    if s.len() == 0 {
        s
    } else if s.last() == c {
        Seq::empty()
    } else {
        after_last(s.drop_last(), c).push(s.last())
    }
}

/// Computes `after_last`.
pub fn after_last_exec(s: &Vec<char>, c: char) -> (v: Vec<char>)
    ensures
        v@ == after_last(s@, c),
{
    let n = s.len();
    let mut k = n;
    assert(s@.take(n as int) =~= s@);
    while k > 0 && s[k - 1] != c
        invariant
            n == s.len(),
            k <= n,
            after_last(s@, c) == after_last(s@.take(k as int), c) + s@.subrange(k as int, n as int),
        decreases k,
    {
        assert(s@.take(k as int).drop_last() =~= s@.take(k - 1));
        assert(after_last(s@.take(k - 1), c).push(s@[k - 1]) + s@.subrange(k as int, n as int)
            =~= after_last(s@.take(k - 1), c) + s@.subrange(k - 1, n as int));
        k -= 1;
    }
    assert(after_last(s@.take(k as int), c) =~= Seq::<char>::empty());
    assert(after_last(s@, c) =~= s@.subrange(k as int, n as int));
    subvec(s, k, n)
}

/// The given description, or the default one.
pub open spec fn desc_or(d: Option<Seq<char>>, default: Seq<char>) -> Seq<char> {
    match d {
        Some(x) => x,
        None => default,
    }
}

/// What follows the kind's title in the heading: the module's last path part,
/// or the entry's name.
pub open spec fn entry_heading(k: EntryKind, name: Seq<char>) -> Seq<char> {
    match k {
        EntryKind::Module => after_last(name, '/'),
        _ => name,
    }
}

/// The document of an entry of kind `k`.
pub open spec fn entry_document(
    k: EntryKind,
    name: Seq<char>,
    desc: Seq<char>,
    version: Seq<char>,
    date: Seq<char>,
) -> Seq<char> {
    info_document(
        kind_title(k) + ": "@ + entry_heading(k, name),
        kind_type_tag(k),
        kind_label(k),
        name,
        desc,
        version,
        date,
        kind_body(k),
    )
}

/// The branch an entry branches from: the branch recorded for the category path,
/// or the category's root branch.
pub open spec fn parent_branch(
    entries: Map<Seq<char>, crate::registry::MappingEntryView>,
    category_path: Seq<char>,
    category: Seq<char>,
) -> Seq<char> {
    match lookup(entries, category_path) {
        Some(e) => e.branch,
        None => category,
    }
}

/// What creating an entry writes: its branch, the branch it starts from, its
/// context path, its document and the commit message.
pub struct EntryPlan {
    pub branch_name: String,
    pub parent_branch: String,
    pub path: String,
    pub content: String,
    pub commit_message: String,
}

/// `a` followed by `b`.
pub fn concat2(a: &str, b: &str) -> (s: String)
    ensures
        s@ == a@ + b@,
{
    let mut s = String::new();
    s.append(a);
    s.append(b);
    s
}

/// `a`, a slash and `b`.
pub fn slash_join(a: &str, b: &str) -> (s: String)
    ensures
        s@ == a@ + "/"@ + b@,
{
    let mut s = String::new();
    s.append(a);
    s.append("/");
    s.append(b);
    s
}

/// The plan for an entry of kind `kind` named `name` in version `latest`, with the
/// random branch code `code`, created at `date`.
pub fn plan_entry(
    kind: EntryKind,
    mapping: &PathMapping,
    latest: &str,
    name: &str,
    description: Option<&str>,
    code: &str,
    date: &str,
) -> (p: EntryPlan)
    ensures
        p.branch_name@ == kind_branch_prefix(kind) + "-"@ + code@,
        p.parent_branch@ == parent_branch(
            entries_view(*mapping),
            latest@ + "/"@ + kind_category(kind),
            kind_category(kind),
        ),
        p.path@ == latest@ + "/"@ + kind_category(kind) + "/"@ + name@,
        p.content@ == entry_document(
            kind,
            name@,
            desc_or(opt_str_view(description), kind_default_description(kind)),
            latest@,
            date@,
        ),
        p.commit_message@ == kind_commit_tag(kind) + name@,
        (kind is TechStack || kind is Module) ==> p.path@ == latest@ + "/architecture/"@ + name@
            && p.parent_branch@ == parent_branch(
            entries_view(*mapping),
            latest@ + "/architecture"@,
            "architecture"@,
        ),
        (kind is Validation || kind is Permission) ==> p.path@ == latest@ + "/constraint/"@
            + name@ && p.parent_branch@ == parent_branch(
            entries_view(*mapping),
            latest@ + "/constraint"@,
            "constraint"@,
        ),
        (kind is Auth || kind is Cors) ==> p.path@ == latest@ + "/security/"@ + name@
            && p.parent_branch@ == parent_branch(
            entries_view(*mapping),
            latest@ + "/security"@,
            "security"@,
        ),
{
    proof {
        reveal_strlit("/");
        reveal_strlit("architecture");
        reveal_strlit("constraint");
        reveal_strlit("security");
        reveal_strlit("/architecture");
        reveal_strlit("/constraint");
        reveal_strlit("/security");
        reveal_strlit("/architecture/");
        reveal_strlit("/constraint/");
        reveal_strlit("/security/");
        assert(latest@ + "/"@ + "architecture"@ =~= latest@ + "/architecture"@);
        assert(latest@ + "/"@ + "constraint"@ =~= latest@ + "/constraint"@);
        assert(latest@ + "/"@ + "security"@ =~= latest@ + "/security"@);
        assert(latest@ + "/"@ + "architecture"@ + "/"@ + name@ =~= latest@ + "/architecture/"@ + name@);
        assert(latest@ + "/"@ + "constraint"@ + "/"@ + name@ =~= latest@ + "/constraint/"@ + name@);
        assert(latest@ + "/"@ + "security"@ + "/"@ + name@ =~= latest@ + "/security/"@ + name@);
    }
    let mut branch_name = String::new();
    branch_name.append(kind.branch_prefix());
    branch_name.append("-");
    branch_name.append(code);
    let category_path = slash_join(latest, kind.category());
    let parent = match mapping.get_by_path(category_path.as_str()) {
        Some(e) => e.branch.clone(),
        None => kind.category().to_owned(),
    };
    let mut path = slash_join(latest, kind.category());
    path.append("/");
    path.append(name);
    let desc = match description {
        Some(d) => d,
        None => kind.default_description(),
    };
    let heading_chars = match kind {
        EntryKind::Module => after_last_exec(&chars_of(name), '/'),
        _ => chars_of(name),
    };
    let heading = string_of(&heading_chars);
    let mut title = String::new();
    title.append(kind.title());
    title.append(": ");
    title.append(heading.as_str());
    let content = info_document_text(
        title.as_str(),
        kind.type_tag(),
        kind.label(),
        name,
        desc,
        latest,
        date,
        kind.body(),
    );
    let commit_message = concat2(kind.commit_tag(), name);
    EntryPlan { branch_name, parent_branch: parent, path, content, commit_message }
}


/// `name` is one of the three categories.
pub open spec fn is_category(name: Seq<char>) -> bool {
    name == "architecture"@ || name == "constraint"@ || name == "security"@
}

/// Decides `is_category`.
pub fn is_valid_category(name: &str) -> (b: bool)
    ensures
        b == is_category(name@),
{
    let n = name.to_owned();
    n == "architecture".to_owned() || n == "constraint".to_owned() || n == "security".to_owned()
}

/// The three categories, in the order their root branches are created.
pub open spec fn category_names() -> Seq<Seq<char>> {
    seq!["architecture"@, "constraint"@, "security"@]
}

/// The categories, in order.
pub fn categories() -> (v: Vec<String>)
    ensures
        string_views(v@) == category_names(),
{
    let mut v: Vec<String> = Vec::new();
    v.push("architecture".to_owned());
    v.push("constraint".to_owned());
    v.push("security".to_owned());
    assert(string_views(v@) =~= category_names());
    v
}

/// The title of a category's root document.
pub open spec fn root_title(name: Seq<char>) -> Seq<char> {
    if name == "architecture"@ {
        "Architecture"@
    } else if name == "constraint"@ {
        "Constraint"@
    } else {
        "Security"@
    }
}

/// The document on a category's root branch.
pub open spec fn root_document(name: Seq<char>) -> Seq<char> {
    "# "@ + root_title(name) + " Root\n\nThis is the root branch for all "@ + name
        + " contexts.\n"@
}

/// What creating a category's root branch writes: its document and the commit message.
pub fn root_branch_texts(name: &str) -> (r: (String, String))
    requires
        is_category(name@),
    ensures
        r.0@ == root_document(name@),
        r.1@ == "[INIT] Create "@ + name@ + " root branch"@,
{
    let n = name.to_owned();
    let title = if n == "architecture".to_owned() {
        "Architecture"
    } else if n == "constraint".to_owned() {
        "Constraint"
    } else {
        "Security"
    };
    let mut doc = String::new();
    doc.append("# ");
    doc.append(title);
    doc.append(" Root\n\nThis is the root branch for all ");
    doc.append(name);
    doc.append(" contexts.\n");
    let mut msg = String::new();
    msg.append("[INIT] Create ");
    msg.append(name);
    msg.append(" root branch");
    (doc, msg)
}

/// The plan for the category `name` in version `latest`.
pub fn plan_category(
    name: &str,
    latest: &str,
    description: Option<&str>,
    code: &str,
    date: &str,
) -> (p: EntryPlan)
    ensures
        p.branch_name@ == name@ + "-"@ + code@,
        p.parent_branch@ == name@,
        p.path@ == latest@ + "/"@ + name@,
        p.content@ == info_document(
            name@,
            "category"@,
            "Path"@,
            name@,
            desc_or(opt_str_view(description), "New category"@),
            latest@,
            date@,
            ""@,
        ),
        p.commit_message@ == "[CATEGORY] Create "@ + name@,
{
    let mut branch_name = String::new();
    branch_name.append(name);
    branch_name.append("-");
    branch_name.append(code);
    let desc = match description {
        Some(d) => d,
        None => "New category",
    };
    let content = info_document_text(name, "category", "Path", name, desc, latest, date, "");
    EntryPlan {
        branch_name,
        parent_branch: name.to_owned(),
        path: slash_join(latest, name),
        content,
        commit_message: concat2("[CATEGORY] Create ", name),
    }
}

/// The document on a version branch.
pub open spec fn version_document(version: Seq<char>, desc: Seq<char>, date: Seq<char>) -> Seq<
    char,
> {
    "# "@ + version + "\n\n## Description\n"@ + desc + "\n\n## Created\n"@ + date
        + "\n\n## Categories\n- architecture\n- constraint\n- security\n\n## Last Updated\n"@ + date
        + "\n"@
}

/// Computes `version_document`; a missing description reads "New context version".
pub fn version_document_text(version: &str, description: Option<&str>, date: &str) -> (s: String)
    ensures
        s@ == version_document(
            version@,
            desc_or(opt_str_view(description), "New context version"@),
            date@,
        ),
{
    let desc = match description {
        Some(d) => d,
        None => "New context version",
    };
    let mut s = String::new();
    s.append("# ");
    s.append(version);
    s.append("\n\n## Description\n");
    s.append(desc);
    s.append("\n\n## Created\n");
    s.append(date);
    s.append("\n\n## Categories\n- architecture\n- constraint\n- security\n\n## Last Updated\n");
    s.append(date);
    s.append("\n");
    s
}

/// The version list kept on master when the repository is set up.
pub open spec fn versions_file(date: Seq<char>) -> Seq<char> {
    "# Context Versions\n\n## Current Version\nNone\n\n## Version History\n\n## Last Updated\n"@
        + date + "\n"@
}

/// Computes `versions_file`.
pub fn versions_file_text(date: &str) -> (s: String)
    ensures
        s@ == versions_file(date@),
{
    let mut s = String::new();
    s.append("# Context Versions\n\n## Current Version\nNone\n\n## Version History\n\n## Last Updated\n");
    s.append(date);
    s.append("\n");
    s
}

/// The version list after recording `version`: the current version set where it
/// was still `None`, and a history line added under the history heading.
pub open spec fn record_version(md: Seq<char>, version: Seq<char>, desc: Seq<char>) -> Seq<char> {
    replace_all(
        replace_all(md, "## Current Version\nNone"@, "## Current Version\n"@ + version),
        "## Version History"@,
        "## Version History\n- "@ + version + ": "@ + desc + "\n"@,
    )
}

/// Computes `record_version`; a missing description reads "New context version".
pub fn record_version_text(md: &str, version: &str, description: Option<&str>) -> (s: String)
    ensures
        s@ == record_version(
            md@,
            version@,
            desc_or(opt_str_view(description), "New context version"@),
        ),
{
    proof {
        reveal_strlit("## Current Version\nNone");
        reveal_strlit("## Version History");
    }
    let desc = match description {
        Some(d) => d,
        None => "New context version",
    };
    let current_from = chars_of("## Current Version\nNone");
    let current_to = chars_of(concat2("## Current Version\n", version).as_str());
    let step = replace_all_exec(&chars_of(md), &current_from, &current_to);
    let mut history = String::new();
    history.append("## Version History\n- ");
    history.append(version);
    history.append(": ");
    history.append(desc);
    history.append("\n");
    let history_from = chars_of("## Version History");
    let out = replace_all_exec(&step, &history_from, &chars_of(history.as_str()));
    string_of(&out)
}

/// The commit message that records a new version on master.
pub fn version_commit_message(version: &str) -> (s: String)
    ensures
        s@ == "[VERSION] Record "@ + version@ + " in master"@,
{
    let mut s = String::new();
    s.append("[VERSION] Record ");
    s.append(version);
    s.append(" in master");
    s
}

/// The root branches a context repository needs.
pub struct RequiredBranches {
    pub master: bool,
    pub architecture: bool,
    pub constraint: bool,
    pub security: bool,
}

impl RequiredBranches {
    /// All four root branches are there.
    pub fn complete(&self) -> (b: bool)
        ensures
            b == (self.master && self.architecture && self.constraint && self.security),
    {
        self.master && self.architecture && self.constraint && self.security
    }
}

/// `[s]` when `b` holds, `[]` otherwise.
pub open spec fn item_if(b: bool, s: Seq<char>) -> Seq<Seq<char>> {
    if b {
        seq![s]
    } else {
        Seq::empty()
    }
}

/// The checks that pass for a repository.
pub open spec fn passed_checks(
    r: RequiredBranches,
    mapping_present: bool,
    versions_file_present: bool,
    has_versions: bool,
) -> Seq<Seq<char>> {
    item_if(r.master, "master"@) + item_if(r.architecture, "architecture"@) + item_if(
        r.constraint,
        "constraint"@,
    ) + item_if(r.security, "security"@) + item_if(mapping_present, "mapping.json"@) + item_if(
        versions_file_present,
        "VERSION.md"@,
    ) + item_if(has_versions, "version branches"@)
}

/// The issues found in a repository.
pub open spec fn found_issues(
    r: RequiredBranches,
    mapping_present: bool,
    versions_file_present: bool,
    has_versions: bool,
) -> Seq<Seq<char>> {
    item_if(!r.master, "Missing master branch"@) + item_if(
        !r.architecture,
        "Missing architecture branch"@,
    ) + item_if(!r.constraint, "Missing constraint branch"@) + item_if(
        !r.security,
        "Missing security branch"@,
    ) + item_if(!mapping_present, "Missing .wctx/mapping.json"@) + item_if(
        !versions_file_present,
        "Missing VERSION.md"@,
    ) + item_if(!has_versions, "No version branches (v1, v2, etc.)"@)
}

/// Every check of a repository either passes or is reported as an issue, and
/// no issue is reported exactly when every check passes.
pub proof fn checks_pass_or_fail(
    r: RequiredBranches,
    mapping_present: bool,
    versions_file_present: bool,
    has_versions: bool,
)
    ensures
        passed_checks(r, mapping_present, versions_file_present, has_versions).len() + found_issues(
            r,
            mapping_present,
            versions_file_present,
            has_versions,
        ).len() == 7,
        found_issues(r, mapping_present, versions_file_present, has_versions).len() == 0 <==> (
        r.master && r.architecture && r.constraint && r.security && mapping_present
            && versions_file_present && has_versions),
{
}

/// The outcome of checking a repository.
pub struct CheckReport {
    pub passed: Vec<String>,
    pub issues: Vec<String>,
    pub versions: Vec<String>,
}

/// Adds `s` to `v` when `b` holds.
fn push_if(v: &mut Vec<String>, b: bool, s: &str)
    ensures
        string_views(final(v)@) == string_views(old(v)@) + item_if(b, s@),
{
    let ghost before = v@;
    if b {
        v.push(s.to_owned());
        assert(string_views(v@) =~= string_views(before) + item_if(b, s@));
    } else {
        assert(string_views(v@) =~= string_views(before) + item_if(b, s@));
    }
}

/// What a repository check reports, from what was found on disk and the branch names.
pub fn check_report(
    branches: &RequiredBranches,
    mapping_present: bool,
    versions_file_present: bool,
    branch_names: &Vec<String>,
) -> (r: CheckReport)
    ensures
        string_views(r.versions@) == version_branches(string_views(branch_names@)),
        string_views(r.passed@) == passed_checks(
            *branches,
            mapping_present,
            versions_file_present,
            r.versions@.len() > 0,
        ),
        string_views(r.issues@) == found_issues(
            *branches,
            mapping_present,
            versions_file_present,
            r.versions@.len() > 0,
        ),
{
    let versions = filter_version_branches(branch_names);
    let has_versions = versions.len() > 0;
    let mut passed: Vec<String> = Vec::new();
    let mut issues: Vec<String> = Vec::new();
    assert(string_views(passed@) =~= Seq::<Seq<char>>::empty());
    assert(string_views(issues@) =~= Seq::<Seq<char>>::empty());
    push_if(&mut passed, branches.master, "master");
    push_if(&mut issues, !branches.master, "Missing master branch");
    push_if(&mut passed, branches.architecture, "architecture");
    push_if(&mut issues, !branches.architecture, "Missing architecture branch");
    push_if(&mut passed, branches.constraint, "constraint");
    push_if(&mut issues, !branches.constraint, "Missing constraint branch");
    push_if(&mut passed, branches.security, "security");
    push_if(&mut issues, !branches.security, "Missing security branch");
    push_if(&mut passed, mapping_present, "mapping.json");
    push_if(&mut issues, !mapping_present, "Missing .wctx/mapping.json");
    push_if(&mut passed, versions_file_present, "VERSION.md");
    push_if(&mut issues, !versions_file_present, "Missing VERSION.md");
    push_if(&mut passed, has_versions, "version branches");
    push_if(&mut issues, !has_versions, "No version branches (v1, v2, etc.)");
    assert(string_views(passed@) =~= passed_checks(
        *branches,
        mapping_present,
        versions_file_present,
        has_versions,
    ));
    assert(string_views(issues@) =~= found_issues(
        *branches,
        mapping_present,
        versions_file_present,
        has_versions,
    ));
    CheckReport { passed, issues, versions }
}

} // verus!
