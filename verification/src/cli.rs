//! The command line of the tool, as plain values.

use vstd::prelude::*;
use vstd::string::*;

verus! {

/// The parsed command line.
pub struct Cli {
    pub command: Commands,
    /// Path to the Git repository.
    pub repo: String,
    /// Enable verbose output.
    pub verbose: bool,
}

/// The commands.
pub enum Commands {
    /// Initialize the Web context repository structure.
    Init,
    /// Registry commands for managing context structure.
    Registry(RegistryCommands),
    /// Show context details by path (JSON format).
    Show(ShowArgs),
    /// Update context information.
    Update(UpdateArgs),
    /// Scan a project and auto-generate context.
    Scan(ScanArgs),
    /// Generate prompt context (JSON format).
    Generate(GenerateArgs),
    /// Configure settings.
    Config {
        repo: Option<String>,
        name: Option<String>,
        email: Option<String>,
        lang: Option<String>,
        show: bool,
        reset: bool,
    },
    /// Mount an existing context repository.
    Mount { path: String },
    /// Check if an existing repository meets the requirements.
    Check { path: Option<String> },
}

/// The registry commands.
pub enum RegistryCommands {
    New { description: Option<String> },
    Category { name: String, description: Option<String> },
    TechStack { name: String, description: Option<String> },
    Module { path: String, description: Option<String> },
    Validation { name: String, description: Option<String> },
    Permission { name: String, description: Option<String> },
    Auth { name: String, description: Option<String> },
    Cors { name: String, description: Option<String> },
}

/// Arguments of `show`.
pub struct ShowArgs {
    /// Context path (e.g., v1/architecture/tech-stack).
    pub path: String,
}

/// Arguments of `update`.
pub struct UpdateArgs {
    /// Context path.
    pub path: String,
    /// Update in key:content format.
    pub update: String,
}

/// Arguments of `scan`.
pub struct ScanArgs {
    /// Path to scan (default: current directory).
    pub path: Option<String>,
    /// Output to a context entry.
    pub output: Option<String>,
}

/// Arguments of `generate`.
pub struct GenerateArgs {
    /// Version to generate context for (default: latest).
    pub version: Option<String>,
    /// Output format: json or prompt.
    pub format: String,
}

/// The repository the tool works in: the `--repo` value when the flag was
/// given on the command line, else the current directory.
pub fn effective_repo_path(repo: &str, flag_given: bool) -> (p: String)
    ensures
        p@ == if flag_given {
            repo@
        } else {
            "."@
        },
{
    if flag_given {
        repo.to_owned()
    } else {
        ".".to_owned()
    }
}

/// A path argument, or the current directory when none was given.
pub fn path_or_current(path: Option<String>) -> (p: String)
    ensures
        p@ == match path {
            Some(x) => x@,
            None => "."@,
        },
{
    match path {
        Some(x) => x,
        None => ".".to_owned(),
    }
}

} // verus!
