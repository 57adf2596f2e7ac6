use webcontext::markdown::{
    context_entry, markdown_sections_exec, parse_markdown_to_json, parse_update_request, update_commit_message,
    update_markdown_field, UpdateFormatError,
};
use webcontext::registry::MappingEntry;

const DOC: &str = "# Tech Stack: rust-actix\n\n## Type\ntech-stack\n\n## Name\nrust-actix\n\n## Description\nRust with Actix-web\n\n## Tech Stack Details\n\n### Language\nTBD\n\n## Last Updated\nD\n";

#[test]
fn sections_of_an_entry_document() {
    let m = markdown_sections_exec(DOC);
    assert_eq!(m.get("title").map(|s| s.as_str()), Some("Tech Stack: rust-actix"));
    assert_eq!(m.get("type").map(|s| s.as_str()), Some("tech-stack"));
    assert_eq!(m.get("name").map(|s| s.as_str()), Some("rust-actix"));
    assert_eq!(m.get("description").map(|s| s.as_str()), Some("Rust with Actix-web"));
    assert_eq!(
        m.get("tech_stack_details").map(|s| s.as_str()),
        Some("### Language\nTBD")
    );
    assert_eq!(m.get("last_updated").map(|s| s.as_str()), Some("D"));
    assert_eq!(m.len(), 6);
}

#[test]
fn markdown_to_json_sorted_object() {
    let md = "# T\n## Last Updated\nD\n```\ncode\n```\n## Empty\n\n## Two Words\n  a  \nb\n";
    let json = parse_markdown_to_json(md);
    assert_eq!(
        json,
        "{\"last_updated\":\"D\\ncode\",\"title\":\"T\",\"two_words\":\"a  \\nb\"}"
    );
}

#[test]
fn markdown_to_json_empty_document() {
    assert_eq!(parse_markdown_to_json(""), "{}");
}

#[test]
fn update_replaces_value_line() {
    let out = update_markdown_field(DOC, "Description", "Updated description");
    let expected = DOC.replace("Rust with Actix-web", "Updated description");
    // the trailing newline of the document is not kept by line-wise rewriting
    assert_eq!(out, expected.trim_end_matches('\n'));
}

#[test]
fn update_matches_heading_case_insensitively() {
    let out = update_markdown_field("## Name\nold\n## Next\nx", "name", "new");
    assert_eq!(out, "## Name\nnew\n## Next\nx");
}

#[test]
fn update_inserts_before_next_heading() {
    let out = update_markdown_field("## Roles\n- None yet\n## Last Updated\nD", "Roles", "admin");
    assert_eq!(out, "## Roles\n- None yet\nadmin\n\n## Last Updated\nD");
}

#[test]
fn update_value_at_end_of_document() {
    let out = update_markdown_field("# T\n## Notes\n", "Notes", "n1");
    assert_eq!(out, "# T\n## Notes\nn1");
    assert_eq!(update_markdown_field("# T\n## Notes", "Notes", "v"), "# T\n## Notes\nv");
}

#[test]
fn update_appends_missing_field() {
    let out = update_markdown_field("# T\n\n## Type\nx", "Owner", "team-a");
    assert_eq!(out, "# T\n\n## Type\nx\n\n## Owner\nteam-a");
}

#[test]
fn update_request_split() {
    let (k, v) = parse_update_request("description: Updated description").unwrap();
    assert_eq!(k, "description");
    assert_eq!(v, "Updated description");
    let (k, v) = parse_update_request(" url : http://x:80 ").unwrap();
    assert_eq!(k, "url");
    assert_eq!(v, "http://x:80");
    assert_eq!(
        parse_update_request("no colon here").err(),
        Some(UpdateFormatError::MissingColon)
    );
}

#[test]
fn context_entry_for_show() {
    let e = MappingEntry {
        path: "v1/architecture/x".to_string(),
        branch: "arch-1".to_string(),
        entry_type: "tech-stack".to_string(),
        parent: None,
        created: "c".to_string(),
    };
    let c = context_entry(e, "# X\n## Type\ntech-stack\n");
    assert_eq!(c.path, "v1/architecture/x");
    assert_eq!(c.entry_type, "tech-stack");
    assert_eq!(c.branch, "arch-1");
    assert_eq!(c.content, "{\"title\":\"X\",\"type\":\"tech-stack\"}");
}

#[test]
fn update_then_show_gives_new_value() {
    let out = update_markdown_field(DOC, "Description", "Updated description");
    let m = markdown_sections_exec(&out);
    assert_eq!(m.get("description").map(|s| s.as_str()), Some("Updated description"));
    assert_eq!(m.get("name").map(|s| s.as_str()), Some("rust-actix"));
}

#[test]
fn update_request_written_and_split_back() {
    let key = "  owner ";
    let value = " team: core ";
    let request = format!("{}:{}", key, value);
    let (k, v) = parse_update_request(&request).unwrap();
    assert_eq!(k, "owner");
    assert_eq!(v, "team: core");
}

#[test]
fn setting_a_field_twice_changes_nothing() {
    let docs = [
        DOC,
        "# T\n## Notes",
        "# T\n\n## Type\nx",
        "## Roles\n- None yet\n## Last Updated\nD",
        "## Name\nold\n## Next\nx",
    ];
    for d in docs {
        for (k, v) in [("Description", "New text"), ("Notes", "n1"), ("Roles", "admin"), ("name", "new")] {
            let once = update_markdown_field(d, k, v);
            let twice = update_markdown_field(&once, k, v);
            assert_eq!(twice, once, "document {:?}, key {:?}", d, k);
        }
    }
}

#[test]
fn json_strings_escaped_and_keys_in_code_point_order() {
    assert_eq!(
        parse_markdown_to_json("# a\"b\\c\u{1}\u{8}\t"),
        "{\"title\":\"a\\\"b\\\\c\\u0001\\b\\t\"}"
    );
    assert_eq!(
        parse_markdown_to_json("## é\n2\n## Z\n1\n## z\n3"),
        "{\"z\":\"3\",\"é\":\"2\"}"
    );
}

#[test]
fn update_commit_message_text() {
    assert_eq!(update_commit_message("description", "New"), "[UPDATE] description: New");
}
