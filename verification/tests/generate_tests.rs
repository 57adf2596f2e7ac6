use webcontext::generate::{
    build_context_output, generate_prompt, select_context_items, ContextCategory, ContextOutput,
};
use webcontext::registry::PathMapping;
use webcontext::strmap::StrMap;

fn mapping() -> PathMapping {
    let mut m = PathMapping::new();
    m.add_entry("v1", "v1", "version", Some("architecture"), "t".to_string());
    m.add_entry("v1/architecture/rust", "arch-1", "tech-stack", None, "t".to_string());
    m.add_entry("v2/security/jwt", "security-2", "auth", None, "t".to_string());
    m.add_entry("v1/constraint/email", "constraint-1", "validation", None, "t".to_string());
    m.add_entry("v1/misc", "misc-1", "other", None, "t".to_string());
    m.add_entry("v1/security/jwt", "security-1", "auth", None, "t".to_string());
    m
}

#[test]
fn select_items_of_version() {
    let items = select_context_items(&mapping(), "v1");
    let got: Vec<(&str, &str, &str, Option<ContextCategory>)> = items
        .iter()
        .map(|i| (i.short_path.as_str(), i.entry_type.as_str(), i.branch.as_str(), i.category))
        .collect();
    assert_eq!(
        got,
        vec![
            ("architecture/rust", "tech-stack", "arch-1", Some(ContextCategory::Architecture)),
            ("constraint/email", "validation", "constraint-1", Some(ContextCategory::Constraints)),
            ("misc", "other", "misc-1", None),
            ("security/jwt", "auth", "security-1", Some(ContextCategory::Security)),
        ]
    );
}

#[test]
fn build_and_prompt() {
    let items = select_context_items(&mapping(), "v1");
    let contents: Vec<String> = vec!["A".into(), "C".into(), "M".into(), "S".into()];
    let out = build_context_output("v1".to_string(), &items, &contents, "G".to_string());
    assert_eq!(out.version, "v1");
    assert_eq!(out.generated_at, "G");
    assert_eq!(
        out.architecture.as_ref().unwrap().get("tech-stack").map(|s| s.as_str()),
        Some("A")
    );
    assert_eq!(
        out.constraints.as_ref().unwrap().get("validation").map(|s| s.as_str()),
        Some("C")
    );
    assert_eq!(
        out.security.as_ref().unwrap().get("auth").map(|s| s.as_str()),
        Some("S")
    );
    assert_eq!(
        generate_prompt(&out),
        "# Web Application Context\n\n## Version: v1\n\nGenerated: G\n\n---\n\n# Architecture\n\n## tech-stack\n\nA\n\n---\n\n# Constraints\n\n## validation\n\nC\n\n---\n\n# Security\n\n## auth\n\nS\n\n"
    );
}

#[test]
fn prompt_without_parts() {
    let items = select_context_items(&mapping(), "v9");
    assert!(items.is_empty());
    let out = build_context_output("v9".to_string(), &items, &Vec::new(), "G".to_string());
    assert!(out.architecture.is_none() && out.constraints.is_none() && out.security.is_none());
    assert_eq!(
        generate_prompt(&out),
        "# Web Application Context\n\n## Version: v9\n\nGenerated: G\n\n"
    );
}

#[test]
fn prompt_skips_empty_part() {
    let out = ContextOutput {
        version: "v1".to_string(),
        architecture: Some(StrMap::new()),
        constraints: None,
        security: None,
        generated_at: "G".to_string(),
    };
    assert_eq!(
        generate_prompt(&out),
        "# Web Application Context\n\n## Version: v1\n\nGenerated: G\n\n"
    );
}

#[test]
fn repeated_version_prefix_is_stripped() {
    let mut m = PathMapping::new();
    m.add_entry("v1/v1/architecture/x", "b", "t", None, "t".to_string());
    let items = select_context_items(&m, "v1");
    assert_eq!(items.len(), 1);
    assert_eq!(items[0].short_path, "architecture/x");
}

#[test]
fn parts_keyed_by_entry_kind() {
    let mut m = PathMapping::new();
    m.add_entry("v1/architecture/rust-actix", "arch-1", "tech-stack", None, "t".to_string());
    m.add_entry("v1/security/jwt", "sec-1", "auth", None, "t".to_string());
    let items = select_context_items(&m, "v1");
    let contents: Vec<String> = vec!["A".into(), "S".into()];
    let out = build_context_output("v1".to_string(), &items, &contents, "G".to_string());
    let arch = out.architecture.as_ref().unwrap();
    assert_eq!(arch.len(), 1);
    assert_eq!(arch.get("tech-stack").map(|s| s.as_str()), Some("A"));
    assert!(out.constraints.is_none());
    let sec = out.security.as_ref().unwrap();
    assert_eq!(sec.len(), 1);
    assert_eq!(sec.get("auth").map(|s| s.as_str()), Some("S"));
}
