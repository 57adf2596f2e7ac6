use webcontext::registry::{
    code_from_draws, generate_random_code, resolve_entry, resolve_versioned, LookupError, MappingEntry, PathMapping,
};
use webcontext::strmap::StrMap;

#[test]
fn new_mapping_is_empty() {
    let m = PathMapping::new();
    assert_eq!(m.entries.len(), 0);
    assert_eq!(m.branches.len(), 0);
    assert!(m.get_by_path("v1").is_none());
}

#[test]
fn add_entry_then_get_by_path() {
    let mut m = PathMapping::new();
    m.add_entry(
        "v1/architecture/rust-actix",
        "arch-abc12345",
        "tech-stack",
        Some("architecture"),
        "2026-03-16 20:00:00".to_string(),
    );
    let e = m.get_by_path("v1/architecture/rust-actix").unwrap();
    assert_eq!(e.path, "v1/architecture/rust-actix");
    assert_eq!(e.branch, "arch-abc12345");
    assert_eq!(e.entry_type, "tech-stack");
    assert_eq!(e.parent.as_deref(), Some("architecture"));
    assert_eq!(e.created, "2026-03-16 20:00:00");
    assert_eq!(
        m.branches.get("arch-abc12345").map(|s| s.as_str()),
        Some("v1/architecture/rust-actix")
    );
    assert!(m.get_by_path("v1/architecture").is_none());
}

#[test]
fn add_replaces_entry_for_same_path() {
    let mut m = PathMapping::new();
    m.add_entry("v1", "v1", "version", Some("architecture"), "t1".to_string());
    m.add_entry("v2", "v2", "version", Some("architecture"), "t2".to_string());
    m.add_entry("v1", "v1b", "version", None, "t3".to_string());
    assert_eq!(m.entries.len(), 2);
    let e = m.get_by_path("v1").unwrap();
    assert_eq!(e.branch, "v1b");
    assert_eq!(e.parent, None);
    assert_eq!(e.created, "t3");
    // first-insertion order is kept
    assert_eq!(m.entries.pairs()[0].0, "v1");
    assert_eq!(m.entries.pairs()[1].0, "v2");
    assert_eq!(m.branches.len(), 3);
}

#[test]
fn add_stamps_creation_time() {
    let mut m = PathMapping::new();
    m.add("v1", "v1", "version", Some("architecture"));
    let e = m.get_by_path("v1").unwrap();
    assert_eq!(e.branch, "v1");
    assert_eq!(e.entry_type, "version");
    assert_eq!(e.created.len(), 19);
    assert_eq!(&e.created[4..5], "-");
    assert_eq!(&e.created[10..11], " ");
    let c: Vec<char> = e.created.chars().collect();
    for (i, ch) in c.iter().enumerate() {
        match i {
            4 | 7 => assert_eq!(*ch, '-'),
            10 => assert_eq!(*ch, ' '),
            13 | 16 => assert_eq!(*ch, ':'),
            _ => assert!(ch.is_ascii_digit(), "{:?}", e.created),
        }
    }
}

#[test]
fn mapping_entry_clone_keeps_fields() {
    let e = MappingEntry {
        path: "p".to_string(),
        branch: "b".to_string(),
        entry_type: "t".to_string(),
        parent: Some("x".to_string()),
        created: "c".to_string(),
    };
    let c = e.clone();
    assert_eq!(c.path, "p");
    assert_eq!(c.branch, "b");
    assert_eq!(c.entry_type, "t");
    assert_eq!(c.parent.as_deref(), Some("x"));
    assert_eq!(c.created, "c");
}

#[test]
fn random_code_has_eight_alphanumeric_chars() {
    for _ in 0..50 {
        let code = generate_random_code();
        assert_eq!(code.chars().count(), 8);
        assert!(code
            .chars()
            .all(|c| c.is_ascii_lowercase() || c.is_ascii_digit()));
    }
    let a = generate_random_code();
    let b = generate_random_code();
    let c = generate_random_code();
    assert!(!(a == b && b == c));
}

#[test]
fn resolve_versioned_finds_entry_under_latest() {
    let mut m = PathMapping::new();
    m.add_entry("v2/security/jwt", "security-x", "auth", Some("security"), "t".to_string());
    let e = resolve_versioned(&m, "security/jwt", Some("v2")).unwrap();
    assert_eq!(e.branch, "security-x");
}

#[test]
fn resolve_versioned_errors() {
    let mut m = PathMapping::new();
    m.add_entry("v2/security/jwt", "security-x", "auth", Some("security"), "t".to_string());
    assert_eq!(
        resolve_versioned(&m, "security/jwt", None).err(),
        Some(LookupError::NoVersion)
    );
    assert_eq!(
        resolve_versioned(&m, "security/jwt", Some("v1")).err(),
        Some(LookupError::NotFound)
    );
}

#[test]
fn strmap_insert_get_and_order() {
    let mut s: StrMap<u32> = StrMap::new();
    s.insert("b".to_string(), 1);
    s.insert("a".to_string(), 2);
    s.insert("b".to_string(), 3);
    assert_eq!(s.len(), 2);
    assert_eq!(s.get("b"), Some(&3));
    assert_eq!(s.get("a"), Some(&2));
    assert_eq!(s.get("c"), None);
    let keys: Vec<&str> = s.pairs().iter().map(|(k, _)| k.as_str()).collect();
    assert_eq!(keys, vec!["b", "a"]);
}

#[test]
fn recording_a_path_leaves_other_paths() {
    let mut m = PathMapping::new();
    m.add_entry("v1/security/auth/jwt", "auth-11111111", "auth", Some("security"), "t1".to_string());
    m.add_entry("v1/security/cors/default", "cors-22222222", "cors", None, "t2".to_string());
    let e = m.get_by_path("v1/security/auth/jwt").unwrap();
    assert_eq!(e.branch, "auth-11111111");
    assert_eq!(e.created, "t1");
    let f = m.get_by_path("v1/security/cors/default").unwrap();
    assert_eq!(f.branch, "cors-22222222");
    assert_eq!(m.branches.get("auth-11111111").map(|s| s.as_str()), Some("v1/security/auth/jwt"));
    assert_eq!(m.branches.get("cors-22222222").map(|s| s.as_str()), Some("v1/security/cors/default"));
}

#[test]
fn code_spelled_by_draws() {
    assert_eq!(code_from_draws(&vec![0, 1, 2, 25, 26, 27, 35, 0]), "abcz019a");
    assert_eq!(code_from_draws(&vec![35; 8]), "99999999");
}

#[test]
fn resolve_entry_prefers_exact_path() {
    let mut m = PathMapping::new();
    m.add_entry("architecture/x", "exact", "t", None, "c".to_string());
    m.add_entry("v2/architecture/x", "versioned", "t", None, "c".to_string());
    assert_eq!(resolve_entry(&m, "architecture/x", Some("v2")).unwrap().branch, "exact");
    assert_eq!(resolve_entry(&m, "architecture/x", None).unwrap().branch, "exact");
    m.add_entry("v2/security/y", "sec", "t", None, "c".to_string());
    assert_eq!(resolve_entry(&m, "security/y", Some("v2")).unwrap().branch, "sec");
    assert_eq!(resolve_entry(&m, "security/y", None).err(), Some(LookupError::NoVersion));
    assert_eq!(resolve_entry(&m, "nope", Some("v2")).err(), Some(LookupError::NotFound));
}
