use webcontext::entries::{
    after_last_exec, categories, check_report, is_valid_category, plan_category, plan_entry, root_branch_texts,
    record_version_text, version_commit_message, version_document_text, versions_file_text,
    EntryKind, RequiredBranches,
};
use webcontext::registry::PathMapping;

fn tech_stack_doc(name: &str, desc: &str, latest: &str, date: &str) -> String {
    format!(
        r#"# Tech Stack: {}

## Type
tech-stack

## Name
{}

## Description
{}

## Version
{}

## Created
{}

## Tech Stack Details

### Language
TBD

### Web Framework
TBD

### Database
TBD

### Dependencies
- None yet

## Last Updated
{}
"#,
        name, name, desc, latest, date, date
    )
}

#[test]
fn tech_stack_plan_without_category_branch() {
    let m = PathMapping::new();
    let p = plan_entry(
        EntryKind::TechStack,
        &m,
        "v1",
        "rust-actix",
        Some("Rust with Actix-web"),
        "abc12345",
        "2026-03-16 20:00:00",
    );
    assert_eq!(p.branch_name, "arch-abc12345");
    assert_eq!(p.parent_branch, "architecture");
    assert_eq!(p.path, "v1/architecture/rust-actix");
    assert_eq!(p.commit_message, "[TECH-STACK] Create rust-actix");
    assert_eq!(
        p.content,
        tech_stack_doc("rust-actix", "Rust with Actix-web", "v1", "2026-03-16 20:00:00")
    );
}

#[test]
fn entry_plan_uses_category_branch_and_default_description() {
    let mut m = PathMapping::new();
    m.add_entry(
        "v2/security",
        "security-q1w2e3r4",
        "category",
        Some("security"),
        "t".to_string(),
    );
    let p = plan_entry(EntryKind::Auth, &m, "v2", "jwt", None, "zzzz0000", "D");
    assert_eq!(p.branch_name, "security-zzzz0000");
    assert_eq!(p.parent_branch, "security-q1w2e3r4");
    assert_eq!(p.path, "v2/security/jwt");
    assert_eq!(p.commit_message, "[AUTH] Create jwt");
    let expected = format!(
        r#"# Authentication: {}

## Type
auth

## Name
{}

## Description
{}

## Version
{}

## Created
{}

## Authentication Method
TBD

## Token Configuration
- Token Expiry:
- Refresh Token:

## Last Updated
{}
"#,
        "jwt", "jwt", "Authentication configuration", "v2", "D", "D"
    );
    assert_eq!(p.content, expected);
}

#[test]
fn module_plan_titles_last_path_part() {
    let m = PathMapping::new();
    let p = plan_entry(EntryKind::Module, &m, "v1", "users/auth", None, "c0d3c0d3", "D");
    assert_eq!(p.path, "v1/architecture/users/auth");
    assert_eq!(p.commit_message, "[MODULE] Create users/auth");
    let expected = format!(
        r#"# Module: {}

## Type
module

## Path
{}

## Description
{}

## Version
{}

## Created
{}

## Module Structure

### Files
- None yet

### Dependencies
- None yet

## API Endpoints
- None yet

## Last Updated
{}
"#,
        "auth", "users/auth", "Module configuration", "v1", "D", "D"
    );
    assert_eq!(p.content, expected);
}

#[test]
fn validation_permission_cors_plans() {
    let m = PathMapping::new();
    let v = plan_entry(EntryKind::Validation, &m, "v1", "email-format", None, "aaaaaaaa", "D");
    assert_eq!(v.branch_name, "constraint-aaaaaaaa");
    assert_eq!(v.parent_branch, "constraint");
    assert_eq!(v.path, "v1/constraint/email-format");
    assert_eq!(v.commit_message, "[VALIDATION] Create email-format");
    assert_eq!(
        v.content,
        format!(
            r#"# Validation Rule: {}

## Type
validation

## Name
{}

## Description
{}

## Version
{}

## Created
{}

## Validation Rules

| Field | Rule | Error Message |
|-------|------|---------------|
| TBD | | |

## Last Updated
{}
"#,
            "email-format", "email-format", "Validation rule", "v1", "D", "D"
        )
    );
    let p = plan_entry(EntryKind::Permission, &m, "v1", "admin-only", Some("Admin"), "bbbbbbbb", "D");
    assert_eq!(p.commit_message, "[PERMISSION] Create admin-only");
    assert_eq!(
        p.content,
        format!(
            r#"# Permission: {}

## Type
permission

## Name
{}

## Description
{}

## Version
{}

## Created
{}

## Permission Matrix

| Resource | Admin | User | Guest |
|----------|-------|------|-------|
| TBD | | | |

## Roles
- None yet

## Last Updated
{}
"#,
            "admin-only", "admin-only", "Admin", "v1", "D", "D"
        )
    );
    let c = plan_entry(EntryKind::Cors, &m, "v1", "default", None, "cccccccc", "D");
    assert_eq!(c.branch_name, "security-cccccccc");
    assert_eq!(c.path, "v1/security/default");
    assert_eq!(c.commit_message, "[CORS] Create default");
    assert_eq!(
        c.content,
        format!(
            r#"# CORS Policy: {}

## Type
cors

## Name
{}

## Description
{}

## Version
{}

## Created
{}

## CORS Configuration
- Allowed Origins:
- Allowed Methods:
- Allowed Headers:
- Exposed Headers:
- Max Age:

## Last Updated
{}
"#,
            "default", "default", "CORS policy", "v1", "D", "D"
        )
    );
}

#[test]
fn category_validation_and_plan() {
    assert!(is_valid_category("architecture"));
    assert!(is_valid_category("constraint"));
    assert!(is_valid_category("security"));
    assert!(!is_valid_category("Security"));
    assert!(!is_valid_category("misc"));
    let p = plan_category("constraint", "v3", None, "k9k9k9k9", "D");
    assert_eq!(p.branch_name, "constraint-k9k9k9k9");
    assert_eq!(p.parent_branch, "constraint");
    assert_eq!(p.path, "v3/constraint");
    assert_eq!(p.commit_message, "[CATEGORY] Create constraint");
    assert_eq!(
        p.content,
        format!(
            "# {}\n\n## Type\ncategory\n\n## Path\n{}\n\n## Description\n{}\n\n## Version\n{}\n\n## Created\n{}\n\n## Last Updated\n{}\n",
            "constraint", "constraint", "New category", "v3", "D", "D"
        )
    );
}

#[test]
fn version_documents() {
    assert_eq!(
        version_document_text("v2", None, "D"),
        format!(
            "# {}\n\n## Description\n{}\n\n## Created\n{}\n\n## Categories\n- architecture\n- constraint\n- security\n\n## Last Updated\n{}\n",
            "v2", "New context version", "D", "D"
        )
    );
    let init = versions_file_text("D0");
    assert_eq!(
        init,
        "# Context Versions\n\n## Current Version\nNone\n\n## Version History\n\n## Last Updated\nD0\n"
    );
    let recorded = record_version_text(&init, "v1", Some("First version"));
    let expected = init
        .replace("## Current Version\nNone", "## Current Version\nv1")
        .replace("## Version History", "## Version History\n- v1: First version\n");
    assert_eq!(recorded, expected);
    let again = record_version_text(&recorded, "v2", None);
    let expected2 = recorded
        .replace("## Current Version\nNone", "## Current Version\nv2")
        .replace("## Version History", "## Version History\n- v2: New context version\n");
    assert_eq!(again, expected2);
    assert_eq!(version_commit_message("v2"), "[VERSION] Record v2 in master");
}

#[test]
fn after_last_part() {
    let c: Vec<char> = "a/b/c".chars().collect();
    assert_eq!(after_last_exec(&c, '/'), vec!['c']);
    let c: Vec<char> = "abc/".chars().collect();
    assert_eq!(after_last_exec(&c, '/'), Vec::<char>::new());
    let c: Vec<char> = "abc".chars().collect();
    assert_eq!(after_last_exec(&c, '/'), vec!['a', 'b', 'c']);
}

fn names(v: &[&str]) -> Vec<String> {
    v.iter().map(|s| s.to_string()).collect()
}

#[test]
fn check_report_for_complete_repository() {
    let b = RequiredBranches { master: true, architecture: true, constraint: true, security: true };
    assert!(b.complete());
    let r = check_report(&b, true, true, &names(&["master", "v1", "v2", "arch-x"]));
    assert_eq!(r.versions, names(&["v1", "v2"]));
    assert_eq!(
        r.passed,
        names(&["master", "architecture", "constraint", "security", "mapping.json", "VERSION.md", "version branches"])
    );
    assert!(r.issues.is_empty());
}

#[test]
fn check_report_for_empty_repository() {
    let b = RequiredBranches { master: true, architecture: false, constraint: true, security: false };
    assert!(!b.complete());
    let r = check_report(&b, false, false, &names(&["master", "constraint"]));
    assert!(r.versions.is_empty());
    assert_eq!(r.passed, names(&["master", "constraint"]));
    assert_eq!(
        r.issues,
        names(&[
            "Missing architecture branch",
            "Missing security branch",
            "Missing .wctx/mapping.json",
            "Missing VERSION.md",
            "No version branches (v1, v2, etc.)"
        ])
    );
    assert_eq!(r.passed.len() + r.issues.len(), 7);
}

#[test]
fn root_branch_documents() {
    assert_eq!(categories(), vec!["architecture", "constraint", "security"]);
    let (doc, msg) = root_branch_texts("architecture");
    assert_eq!(doc, "# Architecture Root\n\nThis is the root branch for all architecture contexts.\n");
    assert_eq!(msg, "[INIT] Create architecture root branch");
    let (doc, msg) = root_branch_texts("security");
    assert_eq!(doc, "# Security Root\n\nThis is the root branch for all security contexts.\n");
    assert_eq!(msg, "[INIT] Create security root branch");
    let (doc, _) = root_branch_texts("constraint");
    assert_eq!(doc, "# Constraint Root\n\nThis is the root branch for all constraint contexts.\n");
}
