//! Scanning a project: its type, name, tech stack, layout and security files,
//! decided from what was read from the project directory.

use vstd::prelude::*;
use vstd::string::*;
use crate::registry::{opt_view, opt_str_view};
use crate::text::{
    before_first, before_first_exec, ends_with, has_suffix,
    chars_of, contains, contains_exec, find, find_exec, lemma_find_from,
    lines, lines_exec, starts_with, has_prefix, strip_all_prefix, strip_all_prefix_exec,
    string_of, subvec, trim, trim_char, trim_char_exec, trim_exec, views,
};
use crate::version::string_views;

verus! {

/// The kind of project found in a directory.
#[derive(Clone, Copy, Debug, PartialEq, Eq, Structural)]
pub enum ProjectType {
    Rust,
    NodeJS,
    Python,
    Go,
    Java,
    DotNet,
    Unknown,
}

impl Default for ProjectType {
    fn default() -> (t: Self)
        ensures
            t == ProjectType::Unknown,
    {
        ProjectType::Unknown
    }
}

/// Which marker files exist in the project directory.
#[derive(Clone, Copy, Debug)]
pub struct ProjectMarkers {
    pub cargo_toml: bool,
    pub package_json: bool,
    pub requirements_txt: bool,
    pub pyproject_toml: bool,
    pub setup_py: bool,
    pub go_mod: bool,
    pub pom_xml: bool,
    pub build_gradle: bool,
    /// Some file whose name ends in `.csproj`.
    pub csproj: bool,
    /// Some file whose name ends in `.sln`.
    pub sln: bool,
}

/// Some file among the entries has a name ending in `ext`.
pub open spec fn has_file_with_extension(es: Seq<DirEntryInfo>, ext: Seq<char>) -> bool {
    exists|i: int| 0 <= i < es.len() && es[i].is_file && ends_with(#[trigger] es[i].name@, ext)
}

/// Decides `has_file_with_extension`, for the `*.csproj` and `*.sln` markers.
pub fn file_with_extension(entries: &Vec<DirEntryInfo>, ext: &str) -> (b: bool)
    ensures
        b == has_file_with_extension(entries@, ext@),
{
    let e = chars_of(ext);
    let mut i: usize = 0;
    while i < entries.len()
        invariant
            i <= entries.len(),
            e@ == ext@,
            forall|j: int|
                0 <= j < i ==> !(entries@[j].is_file && ends_with(#[trigger] entries@[j].name@, ext@)),
        decreases entries.len() - i,
    {
        if entries[i].is_file && has_suffix(&chars_of(entries[i].name.as_str()), &e) {
            return true;
        }
        i += 1;
    }
    false
}

/// The project type the markers point to, the first match in a fixed order.
pub open spec fn project_type_of(m: ProjectMarkers) -> ProjectType {
    if m.cargo_toml {
        ProjectType::Rust
    } else if m.package_json {
        ProjectType::NodeJS
    } else if m.requirements_txt || m.pyproject_toml || m.setup_py {
        ProjectType::Python
    } else if m.go_mod {
        ProjectType::Go
    } else if m.pom_xml || m.build_gradle {
        ProjectType::Java
    } else if m.csproj || m.sln {
        ProjectType::DotNet
    } else {
        ProjectType::Unknown
    }
}

/// A project is typed by its marker files in a fixed order of precedence:
/// `Cargo.toml` makes it Rust, else `package.json` Node.js, else any one of
/// `requirements.txt`, `pyproject.toml` or `setup.py` Python, else `go.mod` Go,
/// else `pom.xml` or `build.gradle` Java, else a `.csproj` or `.sln` file .NET;
/// with none of them it is unknown.
pub proof fn project_type_precedence(m: ProjectMarkers)
    ensures
        m.cargo_toml ==> project_type_of(m) == ProjectType::Rust,
        !m.cargo_toml && m.package_json ==> project_type_of(m) == ProjectType::NodeJS,
        !m.cargo_toml && !m.package_json && m.requirements_txt ==> project_type_of(m)
            == ProjectType::Python,
        !m.cargo_toml && !m.package_json && m.pyproject_toml ==> project_type_of(m)
            == ProjectType::Python,
        !m.cargo_toml && !m.package_json && m.setup_py ==> project_type_of(m)
            == ProjectType::Python,
        !m.cargo_toml && !m.package_json && !m.requirements_txt && !m.pyproject_toml
            && !m.setup_py && m.go_mod ==> project_type_of(m) == ProjectType::Go,
        !m.cargo_toml && !m.package_json && !m.requirements_txt && !m.pyproject_toml
            && !m.setup_py && !m.go_mod && (m.pom_xml || m.build_gradle) ==> project_type_of(m)
            == ProjectType::Java,
        !m.cargo_toml && !m.package_json && !m.requirements_txt && !m.pyproject_toml
            && !m.setup_py && !m.go_mod && !m.pom_xml && !m.build_gradle && (m.csproj || m.sln)
            ==> project_type_of(m) == ProjectType::DotNet,
        project_type_of(m) == ProjectType::Unknown <==> !m.cargo_toml && !m.package_json
            && !m.requirements_txt && !m.pyproject_toml && !m.setup_py && !m.go_mod && !m.pom_xml
            && !m.build_gradle && !m.csproj && !m.sln,
{
}

/// Detects the project type from its marker files.
pub fn detect_project_type(m: &ProjectMarkers) -> (t: ProjectType)
    ensures
        t == project_type_of(*m),
        m.cargo_toml ==> t == ProjectType::Rust,
        !m.cargo_toml && m.package_json ==> t == ProjectType::NodeJS,
        !m.cargo_toml && !m.package_json && m.requirements_txt ==> t == ProjectType::Python,
        !m.cargo_toml && !m.package_json && m.pyproject_toml ==> t == ProjectType::Python,
        !m.cargo_toml && !m.package_json && m.setup_py ==> t == ProjectType::Python,
        !m.cargo_toml && !m.package_json && !m.requirements_txt && !m.pyproject_toml
            && !m.setup_py && m.go_mod ==> t == ProjectType::Go,
        !m.cargo_toml && !m.package_json && !m.requirements_txt && !m.pyproject_toml
            && !m.setup_py && !m.go_mod && (m.pom_xml || m.build_gradle) ==> t == ProjectType::Java,
        !m.cargo_toml && !m.package_json && !m.requirements_txt && !m.pyproject_toml
            && !m.setup_py && !m.go_mod && !m.pom_xml && !m.build_gradle && (m.csproj || m.sln)
            ==> t == ProjectType::DotNet,
        t == ProjectType::Unknown <==> !m.cargo_toml && !m.package_json && !m.requirements_txt
            && !m.pyproject_toml && !m.setup_py && !m.go_mod && !m.pom_xml && !m.build_gradle
            && !m.csproj && !m.sln,
{
    if m.cargo_toml {
        ProjectType::Rust
    } else if m.package_json {
        ProjectType::NodeJS
    } else if m.requirements_txt || m.pyproject_toml || m.setup_py {
        ProjectType::Python
    } else if m.go_mod {
        ProjectType::Go
    } else if m.pom_xml || m.build_gradle {
        ProjectType::Java
    } else if m.csproj || m.sln {
        ProjectType::DotNet
    } else {
        ProjectType::Unknown
    }
}

/// Security settings found in the project.
#[derive(Clone, Copy, Debug, PartialEq, Eq, Structural)]
pub struct SecurityConfig {
    pub env_example_exists: bool,
    pub has_cors_config: bool,
    pub has_auth_config: bool,
    pub has_https_config: bool,
}

impl Default for SecurityConfig {
    fn default() -> (c: Self)
        ensures
            !c.env_example_exists && !c.has_cors_config && !c.has_auth_config
                && !c.has_https_config,
    {
        SecurityConfig {
            env_example_exists: false,
            has_cors_config: false,
            has_auth_config: false,
            has_https_config: false,
        }
    }
}

/// Which security-related files and directories exist in the project.
#[derive(Clone, Copy, Debug)]
pub struct SecurityMarkers {
    pub env_example: bool,
    pub cors_json: bool,
    pub cors_yaml: bool,
    pub cors_toml: bool,
    pub cors_config_js: bool,
    pub auth_config_js: bool,
    pub auth_config_ts: bool,
    pub auth_yaml: bool,
    pub ssl: bool,
    pub certs: bool,
    pub https: bool,
}

/// Detects the security settings from the files present.
pub fn detect_security_config(m: &SecurityMarkers) -> (c: SecurityConfig)
    ensures
        c.env_example_exists == m.env_example,
        c.has_cors_config == (m.cors_json || m.cors_yaml || m.cors_toml || m.cors_config_js),
        c.has_auth_config == (m.auth_config_js || m.auth_config_ts || m.auth_yaml),
        c.has_https_config == (m.ssl || m.certs || m.https),
{
    SecurityConfig {
        env_example_exists: m.env_example,
        has_cors_config: m.cors_json || m.cors_yaml || m.cors_toml || m.cors_config_js,
        has_auth_config: m.auth_config_js || m.auth_config_ts || m.auth_yaml,
        has_https_config: m.ssl || m.certs || m.https,
    }
}


/// The contents of the package files that could be read.
pub struct ProjectFiles {
    pub cargo_toml: Option<String>,
    pub package_json: Option<String>,
    pub requirements_txt: Option<String>,
    pub pyproject_toml: Option<String>,
    pub setup_py: Option<String>,
    pub go_mod: Option<String>,
}

/// The view of an optional optional string.
pub open spec fn opt_opt_view(o: Option<Option<String>>) -> Option<Option<Seq<char>>> {
    match o {
        Some(x) => Some(opt_view(x)),
        None => None,
    }
}

/// The view of an optional list of strings.
pub open spec fn opt_list_view(o: Option<Vec<String>>) -> Option<Seq<Seq<char>>> {
    match o {
        Some(v) => Some(string_views(v@)),
        None => None,
    }
}

/// The view of an optional list of optional strings.
pub open spec fn opt_opt_list_view(o: Option<Vec<Option<String>>>) -> Option<Seq<Option<Seq<char>>>> {
    match o {
        Some(v) => Some(v@.map_values(|x: Option<String>| opt_view(x))),
        None => None,
    }
}

/// For a TOML document: `None` when it does not parse or `table.key` is absent,
/// else whether that value is a string and which.
pub uninterp spec fn toml_field_text(
    content: Seq<char>,
    table: Seq<char>,
    key: Seq<char>,
) -> Option<Option<Seq<char>>>;

/// For a JSON document: `None` when it does not parse or `key` is absent at the
/// top level, else whether that value is a string and which.
pub uninterp spec fn json_field_text(content: Seq<char>, key: Seq<char>) -> Option<Option<Seq<char>>>;

/// For a TOML document: the keys of the table under `key`, in the order the
/// parsed table holds them, or `None` when it does not parse or there is no such table.
pub uninterp spec fn toml_table_key_list(content: Seq<char>, key: Seq<char>) -> Option<Seq<Seq<char>>>;

/// For a JSON document: the keys of the object under `key`, in the order the
/// parsed object holds them, or `None` when it does not parse or there is no such object.
pub uninterp spec fn json_object_key_list(content: Seq<char>, key: Seq<char>) -> Option<Seq<Seq<char>>>;

/// For a TOML document: the items of the array under `table.key`, each as the
/// string it is if it is one, or `None` when it does not parse or there is no such array.
pub uninterp spec fn toml_array_texts(
    content: Seq<char>,
    table: Seq<char>,
    key: Seq<char>,
) -> Option<Seq<Option<Seq<char>>>>;

/// Parses `content` with `toml::from_str::<toml::Value>` and reads
/// `value.get(table)?.get(key)?.as_str()`. The result is named, not stated.
#[verifier::external_body]
fn toml_field(content: &str, table: &str, key: &str) -> (r: Option<Option<String>>)
    ensures
        opt_opt_view(r) == toml_field_text(content@, table@, key@),
{
    let v: toml::Value = toml::from_str(content).ok()?;
    let field = v.get(table)?.get(key)?;
    Some(field.as_str().map(|s| s.to_string()))
}

/// Parses `content` with `serde_json::from_str::<serde_json::Value>` and reads
/// `value.get(key)?.as_str()`. The result is named, not stated.
#[verifier::external_body]
fn json_field(content: &str, key: &str) -> (r: Option<Option<String>>)
    ensures
        opt_opt_view(r) == json_field_text(content@, key@),
{
    let v: serde_json::Value = serde_json::from_str(content).ok()?;
    let field = v.get(key)?;
    Some(field.as_str().map(|s| s.to_string()))
}

/// Parses `content` with `toml::from_str::<toml::Value>` and lists the keys of
/// `value.get(key)?.as_table()?`. The result is named, not stated.
#[verifier::external_body]
fn toml_table_keys(content: &str, key: &str) -> (r: Option<Vec<String>>)
    ensures
        opt_list_view(r) == toml_table_key_list(content@, key@),
{
    let v: toml::Value = toml::from_str(content).ok()?;
    let table = v.get(key)?.as_table()?;
    Some(table.keys().cloned().collect())
}

/// Parses `content` with `serde_json::from_str::<serde_json::Value>` and lists the
/// keys of `value.get(key)?.as_object()?`. The result is named, not stated.
#[verifier::external_body]
fn json_object_keys(content: &str, key: &str) -> (r: Option<Vec<String>>)
    ensures
        opt_list_view(r) == json_object_key_list(content@, key@),
{
    let v: serde_json::Value = serde_json::from_str(content).ok()?;
    let object = v.get(key)?.as_object()?;
    Some(object.keys().cloned().collect())
}

/// Parses `content` with `toml::from_str::<toml::Value>` and maps the items of
/// `value.get(table)?.get(key)?.as_array()?` through `as_str`. The result is
/// named, not stated.
#[verifier::external_body]
fn toml_string_array(content: &str, table: &str, key: &str) -> (r: Option<Vec<Option<String>>>)
    ensures
        opt_opt_list_view(r) == toml_array_texts(content@, table@, key@),
{
    let v: toml::Value = toml::from_str(content).ok()?;
    let items = v.get(table)?.get(key)?.as_array()?;
    Some(items.iter().map(|d| d.as_str().map(|s| s.to_string())).collect())
}

/// The name in a `setup.py`: after the first `name=`, up to the next `,` (or `)`
/// when there is no `,`), trimmed and stripped of quotes.
pub open spec fn setup_py_name(c: Seq<char>) -> Option<Seq<char>> {
    match find(c, "name="@) {
        None => None,
        Some(pos) => {
            let rest = c.skip(pos + 5);
            let end = match find(rest, seq![',']) {
                Some(e) => Some(e),
                None => find(rest, seq![')']),
            };
            match end {
                Some(e) => Some(trim_char(trim_char(trim(rest.take(e)), '"'), '\'')),
                None => None,
            }
        },
    }
}

/// Computes `setup_py_name`.
pub fn setup_py_name_exec(c: &str) -> (r: Option<String>)
    ensures
        opt_view(r) == setup_py_name(c@),
{
    proof {
        reveal_strlit("name=");
    }
    let cs = chars_of(c);
    let pat = chars_of("name=");
    proof {
        lemma_find_from(cs@, pat@, 0);
    }
    match find_exec(&cs, &pat) {
        None => None,
        Some(pos) => {
            assert(pat@.len() == 5);
            assert(crate::text::occurs_at(cs@, pat@, pos as int));
            assert(pos + 5 <= cs.len());
            let rest = subvec(&cs, pos + 5, cs.len());
            assert(rest@ =~= cs@.skip(pos + 5));
            let mut comma: Vec<char> = Vec::new();
            comma.push(',');
            let mut paren: Vec<char> = Vec::new();
            paren.push(')');
            proof {
                lemma_find_from(rest@, comma@, 0);
                lemma_find_from(rest@, paren@, 0);
            }
            let end = match find_exec(&rest, &comma) {
                Some(e) => Some(e),
                None => find_exec(&rest, &paren),
            };
            match end {
                Some(e) => {
                    let head = subvec(&rest, 0, e);
                    assert(head@ =~= rest@.take(e as int));
                    let name = trim_char_exec(&trim_char_exec(&trim_exec(&head), '"'), '\'');
                    Some(string_of(&name))
                },
                None => None,
            }
        },
    }
}

/// The module path in a `go.mod`: the first line that starts with `module `,
/// with leading copies of `module ` removed.
pub open spec fn go_module_name(ls: Seq<Seq<char>>) -> Option<Seq<char>>
    decreases ls.len(),
{
    if ls.len() == 0 {
        None
    } else if starts_with(ls[0], "module "@) {
        Some(strip_all_prefix(ls[0], "module "@))
    } else {
        go_module_name(ls.drop_first())
    }
}

/// Computes `go_module_name` of the lines of `c`.
pub fn go_module_name_exec(c: &str) -> (r: Option<String>)
    ensures
        opt_view(r) == go_module_name(lines(c@)),
{
    let ls = lines_exec(&chars_of(c));
    let prefix = chars_of("module ");
    let mut i: usize = 0;
    assert(views(ls@).skip(0) =~= views(ls@));
    while i < ls.len()
        invariant
            i <= ls.len(),
            prefix@ == "module "@,
            views(ls@) == lines(c@),
            go_module_name(views(ls@)) == go_module_name(views(ls@).skip(i as int)),
        decreases ls.len() - i,
    {
        assert(views(ls@).skip(i as int).len() > 0);
        assert(views(ls@).skip(i as int)[0] == ls@[i as int]@);
        if has_prefix(&ls[i], &prefix) {
            let m = strip_all_prefix_exec(&ls[i], &prefix);
            return Some(string_of(&m));
        }
        assert(views(ls@).skip(i as int).drop_first() =~= views(ls@).skip(i + 1));
        i += 1;
    }
    None
}

/// The project name for a project of type `t`, from the package file contents and
/// the name of the scanned directory.
pub open spec fn project_name_of(
    t: ProjectType,
    files: ProjectFiles,
    dir_name: Option<Seq<char>>,
) -> Option<Seq<char>> {
    match t {
        ProjectType::Rust => match opt_view(files.cargo_toml) {
            Some(c) => match toml_field_text(c, "package"@, "name"@) {
                Some(x) => x,
                None => None,
            },
            None => None,
        },
        ProjectType::NodeJS => match opt_view(files.package_json) {
            Some(c) => match json_field_text(c, "name"@) {
                Some(x) => x,
                None => None,
            },
            None => None,
        },
        ProjectType::Python => {
            let from_pyproject = match opt_view(files.pyproject_toml) {
                Some(c) => toml_field_text(c, "project"@, "name"@),
                None => None,
            };
            match from_pyproject {
                Some(x) => x,
                None => match opt_view(files.setup_py) {
                    Some(c) => setup_py_name(c),
                    None => None,
                },
            }
        },
        ProjectType::Go => match opt_view(files.go_mod) {
            Some(c) => go_module_name(lines(c)),
            None => None,
        },
        _ => dir_name,
    }
}

/// Detects the project name.
pub fn detect_project_name(t: ProjectType, files: &ProjectFiles, dir_name: Option<&str>) -> (r:
    Option<String>)
    ensures
        opt_view(r) == project_name_of(t, *files, opt_str_view(dir_name)),
{
    match t {
        ProjectType::Rust => match &files.cargo_toml {
            Some(c) => match toml_field(c.as_str(), "package", "name") {
                Some(x) => x,
                None => None,
            },
            None => None,
        },
        ProjectType::NodeJS => match &files.package_json {
            Some(c) => match json_field(c.as_str(), "name") {
                Some(x) => x,
                None => None,
            },
            None => None,
        },
        ProjectType::Python => {
            let from_pyproject = match &files.pyproject_toml {
                Some(c) => toml_field(c.as_str(), "project", "name"),
                None => None,
            };
            match from_pyproject {
                Some(x) => x,
                None => match &files.setup_py {
                    Some(c) => setup_py_name_exec(c.as_str()),
                    None => None,
                },
            }
        },
        ProjectType::Go => match &files.go_mod {
            Some(c) => go_module_name_exec(c.as_str()),
            None => None,
        },
        _ => match dir_name {
            Some(d) => Some(d.to_owned()),
            None => None,
        },
    }
}


/// The technologies found in a project.
pub struct TechStack {
    pub language: Option<String>,
    pub web_framework: Option<String>,
    pub database: Option<String>,
    pub orm: Option<String>,
    pub dependencies: Vec<String>,
    pub dev_dependencies: Vec<String>,
}

/// The content of a `TechStack`.
pub struct TechStackView {
    pub language: Option<Seq<char>>,
    pub web_framework: Option<Seq<char>>,
    pub database: Option<Seq<char>>,
    pub orm: Option<Seq<char>>,
    pub dependencies: Seq<Seq<char>>,
    pub dev_dependencies: Seq<Seq<char>>,
}

impl View for TechStack {
    type V = TechStackView;

    open spec fn view(&self) -> TechStackView {
        TechStackView {
            language: opt_view(self.language),
            web_framework: opt_view(self.web_framework),
            database: opt_view(self.database),
            orm: opt_view(self.orm),
            dependencies: string_views(self.dependencies@),
            dev_dependencies: string_views(self.dev_dependencies@),
        }
    }
}

/// A tech stack that knows nothing yet.
pub open spec fn empty_stack(language: Option<Seq<char>>) -> TechStackView {
    TechStackView {
        language,
        web_framework: None,
        database: None,
        orm: None,
        dependencies: Seq::empty(),
        dev_dependencies: Seq::empty(),
    }
}

impl Default for TechStack {
    fn default() -> (t: Self)
        ensures
            t@ == empty_stack(None),
    {
        let t = TechStack {
            language: None,
            web_framework: None,
            database: None,
            orm: None,
            dependencies: Vec::new(),
            dev_dependencies: Vec::new(),
        };
        assert(t@.dependencies =~= Seq::<Seq<char>>::empty());
        assert(t@.dev_dependencies =~= Seq::<Seq<char>>::empty());
        t
    }
}

/// `k` contains one of the patterns.
pub open spec fn contains_any(k: Seq<char>, pats: Seq<Seq<char>>) -> bool {
    exists|i: int| 0 <= i < pats.len() && contains(k, #[trigger] pats[i])
}

/// Decides `contains_any`.
pub fn contains_any_exec(k: &Vec<char>, pats: &Vec<Vec<char>>) -> (b: bool)
    ensures
        b == contains_any(k@, views(pats@)),
{
    let mut i: usize = 0;
    while i < pats.len()
        invariant
            i <= pats.len(),
            forall|j: int| 0 <= j < i ==> !contains(k@, #[trigger] views(pats@)[j]),
        decreases pats.len() - i,
    {
        if contains_exec(k, &pats[i]) {
            assert(contains(k@, views(pats@)[i as int]));
            return true;
        }
        i += 1;
    }
    false
}

/// The patterns that classify dependency names of one ecosystem.
pub struct Patterns {
    pub web: Seq<Seq<char>>,
    pub orm: Seq<Seq<char>>,
    pub database: Seq<Seq<char>>,
}

/// Noting one dependency: a name that matches a class becomes that class's
/// choice, and the name joins the dependency list.
pub open spec fn note_dependency(ts: TechStackView, k: Seq<char>, p: Patterns) -> TechStackView {
    TechStackView {
        language: ts.language,
        web_framework: if contains_any(k, p.web) {
            Some(k)
        } else {
            ts.web_framework
        },
        database: if contains_any(k, p.database) {
            Some(k)
        } else {
            ts.database
        },
        orm: if contains_any(k, p.orm) {
            Some(k)
        } else {
            ts.orm
        },
        dependencies: ts.dependencies.push(k),
        dev_dependencies: ts.dev_dependencies,
    }
}

/// Noting the dependencies in order.
pub open spec fn note_dependencies(ts: TechStackView, ks: Seq<Seq<char>>, p: Patterns) -> TechStackView
    decreases ks.len(),
{
    if ks.len() == 0 {
        ts
    } else {
        note_dependency(note_dependencies(ts, ks.drop_last(), p), ks.last(), p)
    }
}

/// Each choice the stack names (web framework, database, ORM) is one of its dependencies.
pub open spec fn choices_among_dependencies(ts: TechStackView) -> bool {
    &&& (ts.web_framework matches Some(w) ==> ts.dependencies.contains(w))
    &&& (ts.database matches Some(d) ==> ts.dependencies.contains(d))
    &&& (ts.orm matches Some(o) ==> ts.dependencies.contains(o))
}

proof fn lemma_push_keeps_contains(s: Seq<Seq<char>>, k: Seq<char>, w: Seq<char>)
    requires
        s.contains(w),
    ensures
        s.push(k).contains(w),
{
    let i = choose|i: int| 0 <= i < s.len() && s[i] == w;
    assert(s.push(k)[i] == w);
}

/// Noting dependencies appends them, in order, to the dependency list, leaves
/// the language and the dev dependencies alone, and keeps every choice the
/// stack names among its dependencies.
pub proof fn noting_keeps_choices_among_dependencies(ts: TechStackView, ks: Seq<Seq<char>>, p: Patterns)
    requires
        choices_among_dependencies(ts),
    ensures
        note_dependencies(ts, ks, p).dependencies == ts.dependencies + ks,
        note_dependencies(ts, ks, p).language == ts.language,
        note_dependencies(ts, ks, p).dev_dependencies == ts.dev_dependencies,
        choices_among_dependencies(note_dependencies(ts, ks, p)),
    decreases ks.len(),
{
    if ks.len() == 0 {
        assert(ts.dependencies + ks =~= ts.dependencies);
    } else {
        noting_keeps_choices_among_dependencies(ts, ks.drop_last(), p);
        let prev = note_dependencies(ts, ks.drop_last(), p);
        let k = ks.last();
        assert(ts.dependencies + ks =~= (ts.dependencies + ks.drop_last()).push(k));
        let d = prev.dependencies.push(k);
        assert(d[d.len() - 1] == k);
        assert(d.contains(k));
        if let Some(w) = prev.web_framework {
            lemma_push_keeps_contains(prev.dependencies, k, w);
        }
        if let Some(w) = prev.database {
            lemma_push_keeps_contains(prev.dependencies, k, w);
        }
        if let Some(w) = prev.orm {
            lemma_push_keeps_contains(prev.dependencies, k, w);
        }
    }
}

/// Notes the dependencies `ks` in `ts`.
fn note_dependencies_exec(
    ts: &mut TechStack,
    ks: &Vec<String>,
    web: &Vec<Vec<char>>,
    orm: &Vec<Vec<char>>,
    database: &Vec<Vec<char>>,
)
    ensures
        final(ts)@ == note_dependencies(
            old(ts)@,
            string_views(ks@),
            Patterns { web: views(web@), orm: views(orm@), database: views(database@) },
        ),
{
    let ghost p = Patterns { web: views(web@), orm: views(orm@), database: views(database@) };
    let ghost start = ts@;
    let mut i: usize = 0;
    while i < ks.len()
        invariant
            i <= ks.len(),
            p == (Patterns { web: views(web@), orm: views(orm@), database: views(database@) }),
            ts@ == note_dependencies(start, string_views(ks@).take(i as int), p),
        decreases ks.len() - i,
    {
        assert(string_views(ks@).take(i + 1).drop_last() =~= string_views(ks@).take(i as int));
        let k = chars_of(ks[i].as_str());
        let ghost before = ts@;
        if contains_any_exec(&k, web) {
            ts.web_framework = Some(ks[i].clone());
        }
        if contains_any_exec(&k, orm) {
            ts.orm = Some(ks[i].clone());
        }
        if contains_any_exec(&k, database) {
            ts.database = Some(ks[i].clone());
        }
        ts.dependencies.push(ks[i].clone());
        assert(ts@.dependencies =~= before.dependencies.push(ks@[i as int]@));
        assert(ts@ == note_dependency(before, ks@[i as int]@, p));
        i += 1;
    }
    assert(string_views(ks@).take(ks.len() as int) =~= string_views(ks@));
}

/// Appends dev dependencies.
fn note_dev_dependencies(ts: &mut TechStack, ks: &Vec<String>)
    ensures
        final(ts)@ == (TechStackView {
            dev_dependencies: old(ts)@.dev_dependencies + string_views(ks@),
            ..old(ts)@
        }),
{
    let ghost start = ts@;
    let mut i: usize = 0;
    while i < ks.len()
        invariant
            i <= ks.len(),
            ts@ == (TechStackView {
                dev_dependencies: start.dev_dependencies + string_views(ks@).take(i as int),
                ..start
            }),
        decreases ks.len() - i,
    {
        ts.dev_dependencies.push(ks[i].clone());
        assert(start.dev_dependencies + string_views(ks@).take(i + 1) =~= (start.dev_dependencies
            + string_views(ks@).take(i as int)).push(ks@[i as int]@));
        assert(ts@.dev_dependencies =~= start.dev_dependencies + string_views(ks@).take(i + 1));
        i += 1;
    }
    assert(string_views(ks@).take(ks.len() as int) =~= string_views(ks@));
}


/// Adds the characters of `w` to a word list.
fn push_word(v: &mut Vec<Vec<char>>, w: &str)
    ensures
        views(final(v)@) == views(old(v)@).push(w@),
{
    let ghost before = views(v@);
    v.push(chars_of(w));
    assert(views(v@) =~= before.push(w@));
}

/// Dependency classes for Rust crates.
pub open spec fn rust_patterns() -> Patterns {
    Patterns {
        web: seq!["actix"@, "axum"@, "warp"@, "rocket"@],
        orm: seq!["diesel"@, "sqlx"@, "rusqlite"@],
        database: seq!["postgres"@, "mysql"@, "sqlite"@],
    }
}

/// Dependency classes for npm packages.
pub open spec fn node_patterns() -> Patterns {
    Patterns {
        web: seq!["express"@, "koa"@, "fastify"@, "nest"@],
        orm: seq!["prisma"@, "mongoose"@, "sequelize"@, "typeorm"@],
        database: seq!["postgres"@, "mysql"@, "mongodb"@, "sqlite"@],
    }
}

/// Dependency classes for `requirements.txt`.
pub open spec fn requirements_patterns() -> Patterns {
    Patterns {
        web: seq!["django"@, "flask"@, "fastapi"@, "aiohttp"@],
        orm: seq!["sqlalchemy"@, "django-orm"@, "peewee"@],
        database: Seq::empty(),
    }
}

/// Dependency classes for `pyproject.toml`.
pub open spec fn pyproject_patterns() -> Patterns {
    Patterns { web: seq!["django"@, "flask"@, "fastapi"@], orm: Seq::empty(), database: Seq::empty() }
}

/// Dependency classes for Go modules.
pub open spec fn go_patterns() -> Patterns {
    Patterns { web: seq!["gin"@, "echo"@, "chi"@, "fiber"@], orm: Seq::empty(), database: Seq::empty() }
}

/// The word lists of one ecosystem's patterns.
struct PatternLists {
    web: Vec<Vec<char>>,
    orm: Vec<Vec<char>>,
    database: Vec<Vec<char>>,
}

/// The patterns the lists hold.
spec fn lists_view(l: PatternLists) -> Patterns {
    Patterns { web: views(l.web@), orm: views(l.orm@), database: views(l.database@) }
}

/// The word lists for the patterns of project type `t`; `pyproject` picks the
/// `pyproject.toml` lists for Python.
fn pattern_lists(t: ProjectType, pyproject: bool) -> (l: PatternLists)
    ensures
        lists_view(l) == match t {
            ProjectType::Rust => rust_patterns(),
            ProjectType::NodeJS => node_patterns(),
            ProjectType::Python => if pyproject {
                pyproject_patterns()
            } else {
                requirements_patterns()
            },
            _ => go_patterns(),
        },
{
    let mut web: Vec<Vec<char>> = Vec::new();
    let mut orm: Vec<Vec<char>> = Vec::new();
    let mut database: Vec<Vec<char>> = Vec::new();
    assert(views(web@) =~= Seq::<Seq<char>>::empty());
    assert(views(orm@) =~= Seq::<Seq<char>>::empty());
    assert(views(database@) =~= Seq::<Seq<char>>::empty());
    match t {
        ProjectType::Rust => {
            push_word(&mut web, "actix");
            push_word(&mut web, "axum");
            push_word(&mut web, "warp");
            push_word(&mut web, "rocket");
            push_word(&mut orm, "diesel");
            push_word(&mut orm, "sqlx");
            push_word(&mut orm, "rusqlite");
            push_word(&mut database, "postgres");
            push_word(&mut database, "mysql");
            push_word(&mut database, "sqlite");
        },
        ProjectType::NodeJS => {
            push_word(&mut web, "express");
            push_word(&mut web, "koa");
            push_word(&mut web, "fastify");
            push_word(&mut web, "nest");
            push_word(&mut orm, "prisma");
            push_word(&mut orm, "mongoose");
            push_word(&mut orm, "sequelize");
            push_word(&mut orm, "typeorm");
            push_word(&mut database, "postgres");
            push_word(&mut database, "mysql");
            push_word(&mut database, "mongodb");
            push_word(&mut database, "sqlite");
        },
        ProjectType::Python => {
            push_word(&mut web, "django");
            push_word(&mut web, "flask");
            push_word(&mut web, "fastapi");
            if !pyproject {
                push_word(&mut web, "aiohttp");
                push_word(&mut orm, "sqlalchemy");
                push_word(&mut orm, "django-orm");
                push_word(&mut orm, "peewee");
            }
        },
        _ => {
            push_word(&mut web, "gin");
            push_word(&mut web, "echo");
            push_word(&mut web, "chi");
            push_word(&mut web, "fiber");
        },
    }
    let l = PatternLists { web, orm, database };
    assert(lists_view(l).web =~= match t {
        ProjectType::Rust => rust_patterns(),
        ProjectType::NodeJS => node_patterns(),
        ProjectType::Python => if pyproject {
            pyproject_patterns()
        } else {
            requirements_patterns()
        },
        _ => go_patterns(),
    }.web);
    assert(lists_view(l).orm =~= match t {
        ProjectType::Rust => rust_patterns(),
        ProjectType::NodeJS => node_patterns(),
        ProjectType::Python => if pyproject {
            pyproject_patterns()
        } else {
            requirements_patterns()
        },
        _ => go_patterns(),
    }.orm);
    assert(lists_view(l).database =~= match t {
        ProjectType::Rust => rust_patterns(),
        ProjectType::NodeJS => node_patterns(),
        ProjectType::Python => if pyproject {
            pyproject_patterns()
        } else {
            requirements_patterns()
        },
        _ => go_patterns(),
    }.database);
    l
}


/// The package name of a `requirements.txt` line: trimmed, cut at `==` then at `>=`.
pub open spec fn requirement_name(line: Seq<char>) -> Seq<char> {
    before_first(before_first(trim(line), "=="@), ">="@)
}

/// The package names in the lines of a `requirements.txt`, skipping blank and
/// comment lines.
pub open spec fn requirement_deps(ls: Seq<Seq<char>>) -> Seq<Seq<char>>
    decreases ls.len(),
{
    if ls.len() == 0 {
        Seq::empty()
    } else {
        let prev = requirement_deps(ls.drop_last());
        let d = requirement_name(ls.last());
        if d.len() > 0 && !starts_with(d, "#"@) {
            prev.push(d)
        } else {
            prev
        }
    }
}

/// The package name of a `pyproject.toml` dependency: cut at `[` then at `==`.
pub open spec fn pyproject_dep_name(d: Seq<char>) -> Seq<char> {
    before_first(before_first(d, "["@), "=="@)
}

/// The package names of the string items of a `pyproject.toml` dependency array.
pub open spec fn pyproject_deps(items: Seq<Option<Seq<char>>>) -> Seq<Seq<char>>
    decreases items.len(),
{
    if items.len() == 0 {
        Seq::empty()
    } else {
        let prev = pyproject_deps(items.drop_last());
        match items.last() {
            Some(d) => prev.push(pyproject_dep_name(d)),
            None => prev,
        }
    }
}

/// The module paths required in the lines of a `go.mod`: indented lines, first
/// word, skipping blank words and comments.
pub open spec fn go_deps(ls: Seq<Seq<char>>) -> Seq<Seq<char>>
    decreases ls.len(),
{
    if ls.len() == 0 {
        Seq::empty()
    } else {
        let prev = go_deps(ls.drop_last());
        let l = ls.last();
        if starts_with(l, "\t"@) || starts_with(l, "    "@) {
            let d = before_first(trim(l), " "@);
            if d.len() > 0 && !starts_with(d, "//"@) {
                prev.push(d)
            } else {
                prev
            }
        } else {
            prev
        }
    }
}

/// Which kind of dependency list to read from lines.
#[derive(Clone, Copy)]
enum LineSource {
    Requirements,
    GoMod,
}

/// Reads the dependency names from the lines of `c`.
fn line_deps(c: &str, source: LineSource) -> (r: Vec<String>)
    ensures
        string_views(r@) == match source {
            LineSource::Requirements => requirement_deps(lines(c@)),
            LineSource::GoMod => go_deps(lines(c@)),
        },
{
    let ls = lines_exec(&chars_of(c));
    let eq2 = chars_of("==");
    let ge = chars_of(">=");
    let hash = chars_of("#");
    let tab = chars_of("\t");
    let four = chars_of("    ");
    let space = chars_of(" ");
    let comment = chars_of("//");
    let mut r: Vec<String> = Vec::new();
    let mut i: usize = 0;
    assert(string_views(r@) =~= Seq::<Seq<char>>::empty());
    while i < ls.len()
        invariant
            i <= ls.len(),
            views(ls@) == lines(c@),
            eq2@ == "=="@,
            ge@ == ">="@,
            hash@ == "#"@,
            tab@ == "\t"@,
            four@ == "    "@,
            space@ == " "@,
            comment@ == "//"@,
            string_views(r@) == match source {
                LineSource::Requirements => requirement_deps(views(ls@).take(i as int)),
                LineSource::GoMod => go_deps(views(ls@).take(i as int)),
            },
        decreases ls.len() - i,
    {
        assert(views(ls@).take(i + 1).drop_last() =~= views(ls@).take(i as int));
        let line = &ls[i];
        let ghost before = string_views(r@);
        match source {
            LineSource::Requirements => {
                let d = before_first_exec(&before_first_exec(&trim_exec(line), &eq2), &ge);
                if d.len() > 0 && !has_prefix(&d, &hash) {
                    r.push(string_of(&d));
                    assert(string_views(r@) =~= before.push(d@));
                }
            },
            LineSource::GoMod => {
                if has_prefix(line, &tab) || has_prefix(line, &four) {
                    let d = before_first_exec(&trim_exec(line), &space);
                    if d.len() > 0 && !has_prefix(&d, &comment) {
                        r.push(string_of(&d));
                        assert(string_views(r@) =~= before.push(d@));
                    }
                }
            },
        }
        i += 1;
    }
    assert(views(ls@).take(ls.len() as int) =~= views(ls@));
    r
}

/// Reads the dependency names from the items of a `pyproject.toml` array.
fn pyproject_deps_exec(items: &Vec<Option<String>>) -> (r: Vec<String>)
    ensures
        string_views(r@) == pyproject_deps(items@.map_values(|x: Option<String>| opt_view(x))),
{
    let ghost iv = items@.map_values(|x: Option<String>| opt_view(x));
    let bracket = chars_of("[");
    let eq2 = chars_of("==");
    let mut r: Vec<String> = Vec::new();
    let mut i: usize = 0;
    assert(string_views(r@) =~= Seq::<Seq<char>>::empty());
    while i < items.len()
        invariant
            i <= items.len(),
            iv == items@.map_values(|x: Option<String>| opt_view(x)),
            bracket@ == "["@,
            eq2@ == "=="@,
            string_views(r@) == pyproject_deps(iv.take(i as int)),
        decreases items.len() - i,
    {
        assert(iv.take(i + 1).drop_last() =~= iv.take(i as int));
        assert(iv.take(i + 1).last() == opt_view(items@[i as int]));
        match &items[i] {
            Some(d) => {
                let ghost before = string_views(r@);
                let name = before_first_exec(&before_first_exec(&chars_of(d.as_str()), &bracket), &eq2);
                r.push(string_of(&name));
                assert(string_views(r@) =~= before.push(name@));
            },
            None => {},
        }
        i += 1;
    }
    assert(iv.take(items.len() as int) =~= iv);
    r
}

/// Noting an optional list of dependencies.
pub open spec fn note_opt(ts: TechStackView, ks: Option<Seq<Seq<char>>>, p: Patterns) -> TechStackView {
    match ks {
        Some(k) => note_dependencies(ts, k, p),
        None => ts,
    }
}

/// Appending an optional list of dev dependencies.
pub open spec fn note_dev_opt(ts: TechStackView, ks: Option<Seq<Seq<char>>>) -> TechStackView {
    match ks {
        Some(k) => TechStackView { dev_dependencies: ts.dev_dependencies + k, ..ts },
        None => ts,
    }
}

/// The tech stack of a project of type `t` with the given package file contents.
pub open spec fn tech_stack_of(t: ProjectType, files: ProjectFiles) -> TechStackView {
    match t {
        ProjectType::Rust => {
            let ts = empty_stack(Some("Rust"@));
            match opt_view(files.cargo_toml) {
                Some(c) => note_dev_opt(
                    note_opt(ts, toml_table_key_list(c, "dependencies"@), rust_patterns()),
                    toml_table_key_list(c, "dev-dependencies"@),
                ),
                None => ts,
            }
        },
        ProjectType::NodeJS => {
            let ts = empty_stack(Some("JavaScript/TypeScript"@));
            match opt_view(files.package_json) {
                Some(c) => note_dev_opt(
                    note_opt(ts, json_object_key_list(c, "dependencies"@), node_patterns()),
                    json_object_key_list(c, "devDependencies"@),
                ),
                None => ts,
            }
        },
        ProjectType::Python => {
            let ts0 = empty_stack(Some("Python"@));
            let ts1 = match opt_view(files.requirements_txt) {
                Some(c) => note_dependencies(ts0, requirement_deps(lines(c)), requirements_patterns()),
                None => ts0,
            };
            match opt_view(files.pyproject_toml) {
                Some(c) => match toml_array_texts(c, "project"@, "dependencies"@) {
                    Some(items) => note_dependencies(ts1, pyproject_deps(items), pyproject_patterns()),
                    None => ts1,
                },
                None => ts1,
            }
        },
        ProjectType::Go => {
            let ts = empty_stack(Some("Go"@));
            match opt_view(files.go_mod) {
                Some(c) => note_dependencies(ts, go_deps(lines(c)), go_patterns()),
                None => ts,
            }
        },
        _ => empty_stack(None),
    }
}

/// Whatever web framework, database or ORM the scanner reports for a project
/// is one of the dependencies it reports.
pub proof fn reported_choices_are_dependencies(t: ProjectType, files: ProjectFiles)
    ensures
        choices_among_dependencies(tech_stack_of(t, files)),
{
    match t {
        ProjectType::Rust => {
            if let Some(c) = opt_view(files.cargo_toml) {
                if let Some(ks) = toml_table_key_list(c, "dependencies"@) {
                    noting_keeps_choices_among_dependencies(empty_stack(Some("Rust"@)), ks, rust_patterns());
                }
            }
        },
        ProjectType::NodeJS => {
            if let Some(c) = opt_view(files.package_json) {
                if let Some(ks) = json_object_key_list(c, "dependencies"@) {
                    noting_keeps_choices_among_dependencies(
                        empty_stack(Some("JavaScript/TypeScript"@)),
                        ks,
                        node_patterns(),
                    );
                }
            }
        },
        ProjectType::Python => {
            let ts0 = empty_stack(Some("Python"@));
            let ts1 = match opt_view(files.requirements_txt) {
                Some(c) => note_dependencies(ts0, requirement_deps(lines(c)), requirements_patterns()),
                None => ts0,
            };
            if let Some(c) = opt_view(files.requirements_txt) {
                noting_keeps_choices_among_dependencies(ts0, requirement_deps(lines(c)), requirements_patterns());
            }
            if let Some(c) = opt_view(files.pyproject_toml) {
                if let Some(items) = toml_array_texts(c, "project"@, "dependencies"@) {
                    noting_keeps_choices_among_dependencies(ts1, pyproject_deps(items), pyproject_patterns());
                }
            }
        },
        ProjectType::Go => {
            if let Some(c) = opt_view(files.go_mod) {
                noting_keeps_choices_among_dependencies(empty_stack(Some("Go"@)), go_deps(lines(c)), go_patterns());
            }
        },
        _ => {},
    }
}

/// Extracts the tech stack of a project.
pub fn extract_tech_stack(t: ProjectType, files: &ProjectFiles) -> (ts: TechStack)
    ensures
        ts@ == tech_stack_of(t, *files),
{
    let mut ts = TechStack::default();
    match t {
        ProjectType::Rust => {
            ts.language = Some("Rust".to_owned());
            if let Some(c) = &files.cargo_toml {
                if let Some(keys) = toml_table_keys(c.as_str(), "dependencies") {
                    let l = pattern_lists(t, false);
                    note_dependencies_exec(&mut ts, &keys, &l.web, &l.orm, &l.database);
                }
                if let Some(keys) = toml_table_keys(c.as_str(), "dev-dependencies") {
                    note_dev_dependencies(&mut ts, &keys);
                }
            }
        },
        ProjectType::NodeJS => {
            ts.language = Some("JavaScript/TypeScript".to_owned());
            if let Some(c) = &files.package_json {
                if let Some(keys) = json_object_keys(c.as_str(), "dependencies") {
                    let l = pattern_lists(t, false);
                    note_dependencies_exec(&mut ts, &keys, &l.web, &l.orm, &l.database);
                }
                if let Some(keys) = json_object_keys(c.as_str(), "devDependencies") {
                    note_dev_dependencies(&mut ts, &keys);
                }
            }
        },
        ProjectType::Python => {
            ts.language = Some("Python".to_owned());
            if let Some(c) = &files.requirements_txt {
                let deps = line_deps(c.as_str(), LineSource::Requirements);
                let l = pattern_lists(t, false);
                note_dependencies_exec(&mut ts, &deps, &l.web, &l.orm, &l.database);
            }
            if let Some(c) = &files.pyproject_toml {
                if let Some(items) = toml_string_array(c.as_str(), "project", "dependencies") {
                    let deps = pyproject_deps_exec(&items);
                    let l = pattern_lists(t, true);
                    note_dependencies_exec(&mut ts, &deps, &l.web, &l.orm, &l.database);
                }
            }
        },
        ProjectType::Go => {
            ts.language = Some("Go".to_owned());
            if let Some(c) = &files.go_mod {
                let deps = line_deps(c.as_str(), LineSource::GoMod);
                let l = pattern_lists(t, false);
                note_dependencies_exec(&mut ts, &deps, &l.web, &l.orm, &l.database);
            }
        },
        _ => {},
    }
    ts
}


/// The layout of the project's top directory.
pub struct DirectoryStructure {
    pub root_files: Vec<String>,
    pub src_dirs: Vec<String>,
    pub config_files: Vec<String>,
    pub test_dirs: Vec<String>,
}

/// The content of a `DirectoryStructure`.
pub struct DirectoryView {
    pub root_files: Seq<Seq<char>>,
    pub src_dirs: Seq<Seq<char>>,
    pub config_files: Seq<Seq<char>>,
    pub test_dirs: Seq<Seq<char>>,
}

impl View for DirectoryStructure {
    type V = DirectoryView;

    open spec fn view(&self) -> DirectoryView {
        DirectoryView {
            root_files: string_views(self.root_files@),
            src_dirs: string_views(self.src_dirs@),
            config_files: string_views(self.config_files@),
            test_dirs: string_views(self.test_dirs@),
        }
    }
}

/// An empty layout.
pub open spec fn empty_layout() -> DirectoryView {
    DirectoryView {
        root_files: Seq::empty(),
        src_dirs: Seq::empty(),
        config_files: Seq::empty(),
        test_dirs: Seq::empty(),
    }
}

impl Default for DirectoryStructure {
    fn default() -> (d: Self)
        ensures
            d@ == empty_layout(),
    {
        let d = DirectoryStructure {
            root_files: Vec::new(),
            src_dirs: Vec::new(),
            config_files: Vec::new(),
            test_dirs: Vec::new(),
        };
        assert(d@.root_files =~= Seq::<Seq<char>>::empty());
        assert(d@.src_dirs =~= Seq::<Seq<char>>::empty());
        assert(d@.config_files =~= Seq::<Seq<char>>::empty());
        assert(d@.test_dirs =~= Seq::<Seq<char>>::empty());
        d
    }
}

/// One entry of the project's top directory.
pub struct DirEntryInfo {
    pub name: String,
    pub is_dir: bool,
    pub is_file: bool,
}

/// A source directory name.
pub open spec fn is_src_dir(n: Seq<char>) -> bool {
    n == "src"@ || n == "lib"@ || n == "app"@ || n == "source"@
}

/// A test directory name.
pub open spec fn is_test_dir(n: Seq<char>) -> bool {
    n == "test"@ || n == "tests"@ || n == "spec"@ || n == "__tests__"@
}

/// A directory that is skipped.
pub open spec fn is_ignored_dir(n: Seq<char>) -> bool {
    n == "node_modules"@ || n == "target"@ || n == ".git"@ || n == "dist"@ || n == "build"@
}

/// A configuration file name.
pub open spec fn is_config_file(n: Seq<char>) -> bool {
    ends_with(n, ".json"@) || ends_with(n, ".toml"@) || ends_with(n, ".yaml"@) || ends_with(
        n,
        ".yml"@,
    ) || n == ".env.example"@ || n == ".gitignore"@ || n == "Dockerfile"@
}

/// Placing one entry in the layout.
pub open spec fn place_entry(d: DirectoryView, n: Seq<char>, is_dir: bool, is_file: bool) -> DirectoryView {
    if is_dir {
        if is_src_dir(n) {
            DirectoryView { src_dirs: d.src_dirs.push(n), ..d }
        } else if is_test_dir(n) {
            DirectoryView { test_dirs: d.test_dirs.push(n), ..d }
        } else if !is_ignored_dir(n) {
            DirectoryView { config_files: d.config_files.push(n), ..d }
        } else {
            d
        }
    } else if is_file {
        if is_config_file(n) {
            DirectoryView { config_files: d.config_files.push(n), ..d }
        } else {
            DirectoryView { root_files: d.root_files.push(n), ..d }
        }
    } else {
        d
    }
}

/// The layout made of the entries, in order.
pub open spec fn layout_of(es: Seq<DirEntryInfo>) -> DirectoryView
    decreases es.len(),
{
    if es.len() == 0 {
        empty_layout()
    } else {
        let e = es.last();
        place_entry(layout_of(es.drop_last()), e.name@, e.is_dir, e.is_file)
    }
}

/// The number of names a layout holds.
pub open spec fn layout_size(d: DirectoryView) -> nat {
    d.root_files.len() + d.src_dirs.len() + d.config_files.len() + d.test_dirs.len()
}

/// Every entry of the top directory is filed under at most one heading; source
/// directories carry source names, test directories test names, and what is
/// filed as a plain root file is no configuration file.
pub proof fn entries_filed_once(es: Seq<DirEntryInfo>)
    ensures
        layout_size(layout_of(es)) <= es.len(),
        forall|k: int|
            0 <= k < layout_of(es).src_dirs.len() ==> is_src_dir(#[trigger] layout_of(es).src_dirs[k]),
        forall|k: int|
            0 <= k < layout_of(es).test_dirs.len() ==> is_test_dir(
                #[trigger] layout_of(es).test_dirs[k],
            ),
        forall|k: int|
            0 <= k < layout_of(es).root_files.len() ==> !is_config_file(
                #[trigger] layout_of(es).root_files[k],
            ),
    decreases es.len(),
{
    if es.len() > 0 {
        entries_filed_once(es.drop_last());
        let d = layout_of(es.drop_last());
        let e = es.last();
        let d2 = layout_of(es);
        assert(d2 == place_entry(d, e.name@, e.is_dir, e.is_file));
        assert forall|k: int| 0 <= k < d2.src_dirs.len() implies is_src_dir(#[trigger] d2.src_dirs[k]) by {
            if k < d.src_dirs.len() {
                assert(d2.src_dirs[k] == d.src_dirs[k]);
            }
        }
        assert forall|k: int| 0 <= k < d2.test_dirs.len() implies is_test_dir(#[trigger] d2.test_dirs[k]) by {
            if k < d.test_dirs.len() {
                assert(d2.test_dirs[k] == d.test_dirs[k]);
            }
        }
        assert forall|k: int|
            0 <= k < d2.root_files.len() implies !is_config_file(#[trigger] d2.root_files[k]) by {
            if k < d.root_files.len() {
                assert(d2.root_files[k] == d.root_files[k]);
            }
        }
    }
}

/// `s` equals the literal `lit`.
fn is_word(s: &String, lit: &str) -> (b: bool)
    ensures
        b == (s@ == lit@),
{
    *s == lit.to_owned()
}

/// Decides `is_config_file`.
fn is_config_file_exec(n: &String) -> (b: bool)
    ensures
        b == is_config_file(n@),
{
    let c = chars_of(n.as_str());
    has_suffix(&c, &chars_of(".json")) || has_suffix(&c, &chars_of(".toml")) || has_suffix(
        &c,
        &chars_of(".yaml"),
    ) || has_suffix(&c, &chars_of(".yml")) || is_word(n, ".env.example") || is_word(
        n,
        ".gitignore",
    ) || is_word(n, "Dockerfile")
}

/// Sorts the entries of the project's top directory into the layout.
pub fn classify_entries(entries: &Vec<DirEntryInfo>) -> (d: DirectoryStructure)
    ensures
        d@ == layout_of(entries@),
{
    let mut d = DirectoryStructure::default();
    let mut i: usize = 0;
    while i < entries.len()
        invariant
            i <= entries.len(),
            d@ == layout_of(entries@.take(i as int)),
        decreases entries.len() - i,
    {
        assert(entries@.take(i + 1).drop_last() =~= entries@.take(i as int));
        let e = &entries[i];
        let name = e.name.clone();
        let ghost before = d@;
        if e.is_dir {
            if is_word(&name, "src") || is_word(&name, "lib") || is_word(&name, "app") || is_word(
                &name,
                "source",
            ) {
                d.src_dirs.push(name);
                assert(d@.src_dirs =~= before.src_dirs.push(e.name@));
            } else if is_word(&name, "test") || is_word(&name, "tests") || is_word(&name, "spec")
                || is_word(&name, "__tests__") {
                d.test_dirs.push(name);
                assert(d@.test_dirs =~= before.test_dirs.push(e.name@));
            } else if !(is_word(&name, "node_modules") || is_word(&name, "target") || is_word(
                &name,
                ".git",
            ) || is_word(&name, "dist") || is_word(&name, "build")) {
                d.config_files.push(name);
                assert(d@.config_files =~= before.config_files.push(e.name@));
            }
        } else if e.is_file {
            if is_config_file_exec(&name) {
                d.config_files.push(name);
                assert(d@.config_files =~= before.config_files.push(e.name@));
            } else {
                d.root_files.push(name);
                assert(d@.root_files =~= before.root_files.push(e.name@));
            }
        }
        i += 1;
    }
    assert(entries@.take(entries.len() as int) =~= entries@);
    d
}

/// Everything a scan finds.
pub struct ScanResult {
    pub project_type: ProjectType,
    pub project_name: Option<String>,
    pub tech_stack: TechStack,
    pub directory_structure: DirectoryStructure,
    pub security: SecurityConfig,
    pub scanned_at: String,
}

/// The scan of a project from what was read in its directory.
pub fn analyze_project(
    markers: &ProjectMarkers,
    files: &ProjectFiles,
    security: &SecurityMarkers,
    entries: &Vec<DirEntryInfo>,
    dir_name: Option<&str>,
    scanned_at: String,
) -> (r: ScanResult)
    ensures
        r.project_type == project_type_of(*markers),
        opt_view(r.project_name) == project_name_of(
            project_type_of(*markers),
            *files,
            opt_str_view(dir_name),
        ),
        r.tech_stack@ == tech_stack_of(project_type_of(*markers), *files),
        r.directory_structure@ == layout_of(entries@),
        r.security == detect_security_spec(*security),
        r.scanned_at == scanned_at,
{
    let project_type = detect_project_type(markers);
    let project_name = detect_project_name(project_type, files, dir_name);
    let tech_stack = extract_tech_stack(project_type, files);
    let directory_structure = classify_entries(entries);
    let security = detect_security_config(security);
    ScanResult { project_type, project_name, tech_stack, directory_structure, security, scanned_at }
}

/// The security settings the markers show.
pub open spec fn detect_security_spec(m: SecurityMarkers) -> SecurityConfig {
    SecurityConfig {
        env_example_exists: m.env_example,
        has_cors_config: m.cors_json || m.cors_yaml || m.cors_toml || m.cors_config_js,
        has_auth_config: m.auth_config_js || m.auth_config_ts || m.auth_yaml,
        has_https_config: m.ssl || m.certs || m.https,
    }
}


/// Each item between `pre` and `post`, concatenated.
pub open spec fn item_lines(items: Seq<Seq<char>>, pre: Seq<char>, post: Seq<char>) -> Seq<char>
    decreases items.len(),
{
    if items.len() == 0 {
        Seq::empty()
    } else {
        item_lines(items.drop_last(), pre, post) + pre + items.last() + post
    }
}

/// A labelled line for a value that is there.
pub open spec fn opt_line(label: Seq<char>, v: Option<Seq<char>>) -> Seq<char> {
    match v {
        Some(x) => label + x + "\n"@,
        None => Seq::empty(),
    }
}

/// The architecture document made from a scan.
pub open spec fn architecture_markdown(
    ts: TechStackView,
    d: DirectoryView,
    scanned_at: Seq<char>,
) -> Seq<char> {
    "# Architecture\n\n"@ + "## Type\narchitecture\n\n"@ + "## Tech Stack\n"@ + opt_line(
        "- Language: "@,
        ts.language,
    ) + opt_line("- Web Framework: "@, ts.web_framework) + opt_line("- Database: "@, ts.database)
        + opt_line("- ORM: "@, ts.orm) + (if ts.dependencies.len() > 0 {
        "\n## Dependencies\n"@ + item_lines(ts.dependencies, "- "@, "\n"@)
    } else {
        Seq::empty()
    }) + "\n## Directory Structure\n```\n"@ + item_lines(d.src_dirs, ""@, "/\n"@) + (
    if d.config_files.len() > 0 {
        "\nConfig:\n"@ + item_lines(d.config_files, "  "@, "\n"@)
    } else {
        Seq::empty()
    }) + "```\n"@ + "\n## Scanned At\n"@ + scanned_at + "\n"@
}

/// Appends each item between `pre` and `post`.
fn append_items(md: &mut String, items: &Vec<String>, pre: &str, post: &str)
    ensures
        final(md)@ == old(md)@ + item_lines(string_views(items@), pre@, post@),
{
    let ghost start = md@;
    let mut i: usize = 0;
    assert(start + item_lines(Seq::<Seq<char>>::empty(), pre@, post@) =~= start);
    assert(string_views(items@).take(0) =~= Seq::<Seq<char>>::empty());
    while i < items.len()
        invariant
            i <= items.len(),
            md@ == start + item_lines(string_views(items@).take(i as int), pre@, post@),
        decreases items.len() - i,
    {
        let ghost x = item_lines(string_views(items@).take(i as int), pre@, post@);
        assert(string_views(items@).take(i + 1).drop_last() =~= string_views(items@).take(
            i as int,
        ));
        md.append(pre);
        md.append(items[i].as_str());
        md.append(post);
        assert(md@ =~= start + (x + pre@ + items@[i as int]@ + post@));
        i += 1;
    }
    assert(string_views(items@).take(items.len() as int) =~= string_views(items@));
}

/// Appends a labelled line when the value is there.
fn append_opt_line(md: &mut String, label: &str, v: &Option<String>)
    ensures
        final(md)@ == old(md)@ + opt_line(label@, opt_view(*v)),
{
    match v {
        Some(x) => {
            let ghost start = md@;
            md.append(label);
            md.append(x.as_str());
            md.append("\n");
            assert(md@ =~= start + (label@ + x@ + "\n"@));
        },
        None => {
            assert(md@ =~= md@ + Seq::<char>::empty());
        },
    }
}

/// The architecture document for a scan result.
pub fn scan_to_architecture_markdown(result: &ScanResult) -> (md: String)
    ensures
        md@ == architecture_markdown(
            result.tech_stack@,
            result.directory_structure@,
            result.scanned_at@,
        ),
{
    let ts = &result.tech_stack;
    let d = &result.directory_structure;
    let mut md = String::new();
    md.append("# Architecture\n\n");
    md.append("## Type\narchitecture\n\n");
    md.append("## Tech Stack\n");
    append_opt_line(&mut md, "- Language: ", &ts.language);
    append_opt_line(&mut md, "- Web Framework: ", &ts.web_framework);
    append_opt_line(&mut md, "- Database: ", &ts.database);
    append_opt_line(&mut md, "- ORM: ", &ts.orm);
    let ghost a = md@;
    if ts.dependencies.len() > 0 {
        md.append("\n## Dependencies\n");
        append_items(&mut md, &ts.dependencies, "- ", "\n");
        assert(md@ =~= a + ("\n## Dependencies\n"@ + item_lines(ts@.dependencies, "- "@, "\n"@)));
    } else {
        assert(md@ =~= a + Seq::<char>::empty());
    }
    md.append("\n## Directory Structure\n```\n");
    append_items(&mut md, &d.src_dirs, "", "/\n");
    let ghost b = md@;
    if d.config_files.len() > 0 {
        md.append("\nConfig:\n");
        append_items(&mut md, &d.config_files, "  ", "\n");
        assert(md@ =~= b + ("\nConfig:\n"@ + item_lines(d@.config_files, "  "@, "\n"@)));
    } else {
        assert(md@ =~= b + Seq::<char>::empty());
    }
    md.append("```\n");
    md.append("\n## Scanned At\n");
    md.append(result.scanned_at.as_str());
    md.append("\n");
    md
}

} // verus!
