use webcontext::repo_paths::{branches_with_prefix, entry_path, wanted_file};
use webcontext::markdown::section_key_exec;
use webcontext::text::{join_exec, lines_exec, replace_all_exec, strip_all_prefix_exec, trim_exec};

fn cs(s: &str) -> Vec<char> {
    s.chars().collect()
}

fn st(v: &[char]) -> String {
    v.iter().collect()
}

#[test]
fn lines_like_str_lines() {
    for s in ["", "a", "a\n", "a\r\nb", "a\n\nb\n", "\r", "x\ry\n", "\n"] {
        let got: Vec<String> = lines_exec(&cs(s)).iter().map(|l| st(l)).collect();
        let want: Vec<String> = s.lines().map(|l| l.to_string()).collect();
        assert_eq!(got, want, "input {:?}", s);
    }
}

#[test]
fn trim_like_str_trim() {
    for s in ["", "  a b ", "\u{3000}x\u{a0}", "\t\n", "y"] {
        assert_eq!(st(&trim_exec(&cs(s))), s.trim());
    }
}

#[test]
fn replace_like_str_replace() {
    for (s, f, t) in [("aaa", "aa", "b"), ("x y z", " ", "_"), ("abc", "d", "e"), ("", "a", "b")] {
        assert_eq!(st(&replace_all_exec(&cs(s), &cs(f), &cs(t))), s.replace(f, t));
    }
}

#[test]
fn strip_prefix_like_trim_start_matches() {
    for (s, p) in [("v1/v1/x", "v1/"), ("abc", "x"), ("aaa", "a"), ("", "a")] {
        assert_eq!(st(&strip_all_prefix_exec(&cs(s), &cs(p))), s.trim_start_matches(p));
    }
}

#[test]
fn join_and_lowercase() {
    let parts = vec![cs("a"), cs(""), cs("b")];
    assert_eq!(st(&join_exec(&parts, &cs("\n"))), "a\n\nb");
    assert_eq!(st(&join_exec(&Vec::new(), &cs(","))), "");
    assert_eq!(section_key_exec(&cs("  Last Updated ")), "last_updated");
    assert_eq!(section_key_exec(&cs("ÄB Ökonomie")), "äb_ökonomie");
}

#[test]
fn repository_paths() {
    assert_eq!(entry_path("", "INFO.md"), "INFO.md");
    assert_eq!(entry_path("docs", "a.md"), "docs/a.md");
    assert!(wanted_file("docs/a.md", Some(".md")));
    assert!(!wanted_file("docs/a.txt", Some(".md")));
    assert!(wanted_file("x", None));
    let names: Vec<String> = ["arch-1", "v1", "arch-2"].iter().map(|s| s.to_string()).collect();
    assert_eq!(branches_with_prefix(&names, "arch-"), vec!["arch-1", "arch-2"]);
}
