use webcontext::scanner::{
    analyze_project, classify_entries, detect_project_name, detect_project_type, file_with_extension,
    detect_security_config, extract_tech_stack, scan_to_architecture_markdown, DirEntryInfo,
    ProjectFiles, ProjectMarkers, ProjectType, SecurityConfig, SecurityMarkers, TechStack,
};

fn no_markers() -> ProjectMarkers {
    ProjectMarkers {
        cargo_toml: false,
        package_json: false,
        requirements_txt: false,
        pyproject_toml: false,
        setup_py: false,
        go_mod: false,
        pom_xml: false,
        build_gradle: false,
        csproj: false,
        sln: false,
    }
}

fn no_files() -> ProjectFiles {
    ProjectFiles {
        cargo_toml: None,
        package_json: None,
        requirements_txt: None,
        pyproject_toml: None,
        setup_py: None,
        go_mod: None,
    }
}

#[test]
fn project_type_order() {
    let mut m = no_markers();
    assert_eq!(detect_project_type(&m), ProjectType::Unknown);
    m.sln = true;
    assert_eq!(detect_project_type(&m), ProjectType::DotNet);
    m.build_gradle = true;
    assert_eq!(detect_project_type(&m), ProjectType::Java);
    m.go_mod = true;
    assert_eq!(detect_project_type(&m), ProjectType::Go);
    m.setup_py = true;
    assert_eq!(detect_project_type(&m), ProjectType::Python);
    m.package_json = true;
    assert_eq!(detect_project_type(&m), ProjectType::NodeJS);
    m.cargo_toml = true;
    assert_eq!(detect_project_type(&m), ProjectType::Rust);
    assert_eq!(ProjectType::default(), ProjectType::Unknown);
}

const CARGO: &str = "[package]\nname = \"demo-app\"\nversion = \"0.1.0\"\n\n[dependencies]\nserde = \"1\"\nactix-web = \"4\"\nsqlx = { version = \"0.7\", features = [\"postgres\"] }\ntokio-postgres = \"0.7\"\n\n[dev-dependencies]\ntempfile = \"3\"\n";

#[test]
fn rust_project() {
    let mut files = no_files();
    files.cargo_toml = Some(CARGO.to_string());
    assert_eq!(
        detect_project_name(ProjectType::Rust, &files, Some("dir")),
        Some("demo-app".to_string())
    );
    let ts = extract_tech_stack(ProjectType::Rust, &files);
    assert_eq!(ts.language.as_deref(), Some("Rust"));
    // keys come sorted from the parsed table
    assert_eq!(ts.dependencies, vec!["actix-web", "serde", "sqlx", "tokio-postgres"]);
    assert_eq!(ts.web_framework.as_deref(), Some("actix-web"));
    assert_eq!(ts.orm.as_deref(), Some("sqlx"));
    assert_eq!(ts.database.as_deref(), Some("tokio-postgres"));
    assert_eq!(ts.dev_dependencies, vec!["tempfile"]);
}

#[test]
fn rust_project_unreadable_cargo_toml() {
    let mut files = no_files();
    files.cargo_toml = Some("[package\nname=".to_string());
    assert_eq!(detect_project_name(ProjectType::Rust, &files, None), None);
    let ts = extract_tech_stack(ProjectType::Rust, &files);
    assert_eq!(ts.language.as_deref(), Some("Rust"));
    assert!(ts.dependencies.is_empty() && ts.dev_dependencies.is_empty());
    files.cargo_toml = Some("[package]\nname = 3\n".to_string());
    assert_eq!(detect_project_name(ProjectType::Rust, &files, None), None);
}

#[test]
fn node_project() {
    let mut files = no_files();
    files.package_json = Some(
        "{\"name\":\"web\",\"dependencies\":{\"mongoose\":\"1\",\"express\":\"4\",\"pg\":\"8\",\"mongodb\":\"6\"},\"devDependencies\":{\"jest\":\"29\"}}"
            .to_string(),
    );
    assert_eq!(
        detect_project_name(ProjectType::NodeJS, &files, None),
        Some("web".to_string())
    );
    let ts = extract_tech_stack(ProjectType::NodeJS, &files);
    assert_eq!(ts.language.as_deref(), Some("JavaScript/TypeScript"));
    assert_eq!(ts.dependencies, vec!["express", "mongodb", "mongoose", "pg"]);
    assert_eq!(ts.web_framework.as_deref(), Some("express"));
    assert_eq!(ts.orm.as_deref(), Some("mongoose"));
    assert_eq!(ts.database.as_deref(), Some("mongodb"));
    assert_eq!(ts.dev_dependencies, vec!["jest"]);
}

#[test]
fn python_project() {
    let mut files = no_files();
    files.requirements_txt = Some(
        "# web\nDjango==4.2\nflask>=2.0\n\nSQLAlchemy==2\npeewee\n  requests >= 2 \n".to_string(),
    );
    files.pyproject_toml = Some(
        "[project]\nname = \"py-app\"\ndependencies = [\"fastapi[all]==0.1\", 3, \"uvicorn\"]\n"
            .to_string(),
    );
    assert_eq!(
        detect_project_name(ProjectType::Python, &files, None),
        Some("py-app".to_string())
    );
    let ts = extract_tech_stack(ProjectType::Python, &files);
    assert_eq!(ts.language.as_deref(), Some("Python"));
    assert_eq!(
        ts.dependencies,
        vec!["Django", "flask", "SQLAlchemy", "peewee", "requests ", "fastapi", "uvicorn"]
    );
    assert_eq!(ts.web_framework.as_deref(), Some("fastapi"));
    assert_eq!(ts.orm.as_deref(), Some("peewee"));
    assert_eq!(ts.database, None);
}

#[test]
fn python_name_from_setup_py() {
    let mut files = no_files();
    files.setup_py = Some("from setuptools import setup\nsetup(\n    name= \"my-pkg\" ,\n    version='1')\n".to_string());
    assert_eq!(
        detect_project_name(ProjectType::Python, &files, None),
        Some("my-pkg".to_string())
    );
    files.setup_py = Some("setup(name='x')".to_string());
    assert_eq!(detect_project_name(ProjectType::Python, &files, None), Some("x".to_string()));
    files.setup_py = Some("setup(name=x".to_string());
    assert_eq!(detect_project_name(ProjectType::Python, &files, None), None);
    // a non-string project name ends the search
    files.pyproject_toml = Some("[project]\nname = 1\n".to_string());
    assert_eq!(detect_project_name(ProjectType::Python, &files, None), None);
}

#[test]
fn go_project() {
    let mut files = no_files();
    files.go_mod = Some("module github.com/acme/svc\n\ngo 1.21\n\nrequire (\n\tgithub.com/gin-gonic/gin v1.9.1\n    golang.org/x/text v0.3.0\n\t// indirect comment\n)\n".to_string());
    assert_eq!(
        detect_project_name(ProjectType::Go, &files, None),
        Some("github.com/acme/svc".to_string())
    );
    let ts = extract_tech_stack(ProjectType::Go, &files);
    assert_eq!(ts.language.as_deref(), Some("Go"));
    assert_eq!(ts.dependencies, vec!["github.com/gin-gonic/gin", "golang.org/x/text"]);
    assert_eq!(ts.web_framework.as_deref(), Some("github.com/gin-gonic/gin"));
}

#[test]
fn other_projects_use_directory_name() {
    let files = no_files();
    assert_eq!(
        detect_project_name(ProjectType::Java, &files, Some("shop")),
        Some("shop".to_string())
    );
    assert_eq!(detect_project_name(ProjectType::Unknown, &files, None), None);
    let ts = extract_tech_stack(ProjectType::Java, &files);
    assert!(ts.language.is_none() && ts.dependencies.is_empty());
    let d = TechStack::default();
    assert!(d.language.is_none() && d.web_framework.is_none());
}

fn entry(name: &str, is_dir: bool, is_file: bool) -> DirEntryInfo {
    DirEntryInfo { name: name.to_string(), is_dir, is_file }
}

#[test]
fn directory_layout() {
    let es = vec![
        entry("src", true, false),
        entry("tests", true, false),
        entry("node_modules", true, false),
        entry("docs", true, false),
        entry("Cargo.toml", false, true),
        entry("README.md", false, true),
        entry(".env.example", false, true),
        entry("Dockerfile", false, true),
        entry("link", false, false),
        entry("lib", true, false),
    ];
    let d = classify_entries(&es);
    assert_eq!(d.src_dirs, vec!["src", "lib"]);
    assert_eq!(d.test_dirs, vec!["tests"]);
    assert_eq!(d.config_files, vec!["docs", "Cargo.toml", ".env.example", "Dockerfile"]);
    assert_eq!(d.root_files, vec!["README.md"]);
}

#[test]
fn security_markers() {
    let m = SecurityMarkers {
        env_example: true,
        cors_json: false,
        cors_yaml: false,
        cors_toml: false,
        cors_config_js: true,
        auth_config_js: false,
        auth_config_ts: false,
        auth_yaml: false,
        ssl: false,
        certs: true,
        https: false,
    };
    let s = detect_security_config(&m);
    assert_eq!(
        s,
        SecurityConfig {
            env_example_exists: true,
            has_cors_config: true,
            has_auth_config: false,
            has_https_config: true
        }
    );
    let d = SecurityConfig::default();
    assert!(!d.env_example_exists && !d.has_cors_config && !d.has_auth_config && !d.has_https_config);
}

#[test]
fn architecture_markdown_of_scan() {
    let mut markers = no_markers();
    markers.cargo_toml = true;
    let mut files = no_files();
    files.cargo_toml = Some(CARGO.to_string());
    let sm = SecurityMarkers {
        env_example: false,
        cors_json: false,
        cors_yaml: false,
        cors_toml: false,
        cors_config_js: false,
        auth_config_js: false,
        auth_config_ts: false,
        auth_yaml: false,
        ssl: false,
        certs: false,
        https: false,
    };
    let es = vec![entry("src", true, false), entry("Cargo.toml", false, true)];
    let r = analyze_project(&markers, &files, &sm, &es, Some("demo"), "S".to_string());
    assert_eq!(r.project_type, ProjectType::Rust);
    assert_eq!(r.project_name.as_deref(), Some("demo-app"));
    assert_eq!(r.scanned_at, "S");
    let md = scan_to_architecture_markdown(&r);
    assert_eq!(
        md,
        "# Architecture\n\n## Type\narchitecture\n\n## Tech Stack\n- Language: Rust\n- Web Framework: actix-web\n- Database: tokio-postgres\n- ORM: sqlx\n\n## Dependencies\n- actix-web\n- serde\n- sqlx\n- tokio-postgres\n\n## Directory Structure\n```\nsrc/\n\nConfig:\n  Cargo.toml\n```\n\n## Scanned At\nS\n"
    );
}

#[test]
fn architecture_markdown_minimal() {
    let markers = no_markers();
    let files = no_files();
    let sm = SecurityMarkers {
        env_example: false,
        cors_json: false,
        cors_yaml: false,
        cors_toml: false,
        cors_config_js: false,
        auth_config_js: false,
        auth_config_ts: false,
        auth_yaml: false,
        ssl: false,
        certs: false,
        https: false,
    };
    let r = analyze_project(&markers, &files, &sm, &Vec::new(), None, "S".to_string());
    assert_eq!(r.project_type, ProjectType::Unknown);
    assert_eq!(
        scan_to_architecture_markdown(&r),
        "# Architecture\n\n## Type\narchitecture\n\n## Tech Stack\n\n## Directory Structure\n```\n```\n\n## Scanned At\nS\n"
    );
}

#[test]
fn reported_choices_are_listed_dependencies() {
    let mut files = no_files();
    files.cargo_toml = Some(CARGO.to_string());
    files.go_mod = Some("module example.com/svc\n\ngo 1.21\n\nrequire (\n\tgithub.com/gin-gonic/gin v1.9.1\n\tgorm.io/gorm v1.25.0\n\tgithub.com/lib/pq v1.10.9\n)\n".to_string());
    for t in [ProjectType::Rust, ProjectType::Go] {
        let ts = extract_tech_stack(t, &files);
        for choice in [&ts.web_framework, &ts.database, &ts.orm] {
            if let Some(c) = choice {
                assert!(ts.dependencies.contains(c), "{} not among {:?}", c, ts.dependencies);
            }
        }
    }
}

#[test]
fn every_entry_filed_at_most_once() {
    let es = vec![
        entry("app", true, false),
        entry("spec", true, false),
        entry("target", true, false),
        entry("config.yml", false, true),
        entry("main.rs", false, true),
    ];
    let d = classify_entries(&es);
    let total = d.src_dirs.len() + d.test_dirs.len() + d.config_files.len() + d.root_files.len();
    assert_eq!(total, 4);
    assert_eq!(d.src_dirs, vec!["app"]);
    assert_eq!(d.test_dirs, vec!["spec"]);
    assert_eq!(d.config_files, vec!["config.yml"]);
    assert_eq!(d.root_files, vec!["main.rs"]);
}

#[test]
fn dotnet_found_by_extension() {
    let es = vec![entry("App.csproj", false, true), entry("README.md", false, true)];
    assert!(file_with_extension(&es, ".csproj"));
    assert!(!file_with_extension(&es, ".sln"));
    let dir_named_sln = vec![entry("x.sln", true, false)];
    assert!(!file_with_extension(&dir_named_sln, ".sln"));
    let mut m = no_markers();
    m.csproj = file_with_extension(&es, ".csproj");
    m.sln = file_with_extension(&es, ".sln");
    assert_eq!(detect_project_type(&m), ProjectType::DotNet);
}
