//! Rule-based classification of a recorded command line.
use vstd::prelude::*;
use vstd::string::*;
use crate::text::{chars_of, contains_chars, starts_with_chars, contains_seq, starts_with_seq};

verus! {

/// What `str::to_lowercase` returns for a string: it depends on the
/// characters alone.
pub uninterp spec fn lower_of(s: Seq<char>) -> Seq<char>;

/// Relies on `str::to_lowercase`: Unicode lower-case mapping of every
/// character, a function of the input alone.
#[verifier::external_body]
fn lowercase(s: &str) -> (r: String)
    ensures
        r@ == lower_of(s@),
{
    s.to_lowercase()
}

/// Category, tags and context, as views.
pub type Labels = (Seq<char>, Seq<char>, Seq<char>);

/// Which rule a lower-cased command falls under; the first that matches
/// wins, and 5 stands for none.
pub open spec fn rule_of(l: Seq<char>) -> int {
    if contains_seq(l, "git"@) {
        0
    } else if starts_with_seq(l, "cd "@) || contains_seq(l, "ls"@) || contains_seq(l, "dir"@) {
        1
    } else if contains_seq(l, "cargo"@) || contains_seq(l, "rust"@) {
        2
    } else if contains_seq(l, "docker"@) || contains_seq(l, "container"@) {
        3
    } else if contains_seq(l, "npm"@) || contains_seq(l, "node"@) || contains_seq(l, "yarn"@) {
        4
    } else {
        5
    }
}

/// The labels that each rule attaches.
pub open spec fn labels_of_rule(rule: int) -> Option<Labels> {
    if rule == 0 {
        Some(("Version Control"@, "git,development"@, "Managing git repository"@))
    } else if rule == 1 {
        Some(("File Navigation"@, "filesystem,navigation"@, "Navigating the file system"@))
    } else if rule == 2 {
        Some(("Rust Development"@, "rust,cargo,development"@, "Working with Rust projects"@))
    } else if rule == 3 {
        Some(("Containerization"@, "docker,containers,deployment"@, "Working with Docker containers"@))
    } else if rule == 4 {
        Some(("JavaScript Development"@, "javascript,nodejs,npm"@, "Working with Node.js/JavaScript"@))
    } else {
        None
    }
}

/// The labels of an already lower-cased command.
pub open spec fn classify_spec(l: Seq<char>) -> Option<Labels> {
    labels_of_rule(rule_of(l))
}

pub open spec fn labels_view(r: Option<(String, String, String)>) -> Option<Labels> {
    match r {
        Some(t) => Some((t.0@, t.1@, t.2@)),
        None => None,
    }
}

fn labels(category: &str, tags: &str, context: &str) -> (r: Option<(String, String, String)>)
    ensures
        labels_view(r) == Some((category@, tags@, context@)),
{
    Some((String::from_str(category), String::from_str(tags), String::from_str(context)))
}

/// Classifies a command that is already lower-cased.
pub fn categorize_lowered(lowered: &str) -> (r: Option<(String, String, String)>)
    ensures
        labels_view(r) == classify_spec(lowered@),
{
    let l = chars_of(lowered);
    if contains_chars(&l, &chars_of("git")) {
        labels("Version Control", "git,development", "Managing git repository")
    } else if starts_with_chars(&l, &chars_of("cd ")) || contains_chars(&l, &chars_of("ls"))
        || contains_chars(&l, &chars_of("dir")) {
        labels("File Navigation", "filesystem,navigation", "Navigating the file system")
    } else if contains_chars(&l, &chars_of("cargo")) || contains_chars(&l, &chars_of("rust")) {
        labels("Rust Development", "rust,cargo,development", "Working with Rust projects")
    } else if contains_chars(&l, &chars_of("docker")) || contains_chars(
        &l,
        &chars_of("container"),
    ) {
        labels("Containerization", "docker,containers,deployment", "Working with Docker containers")
    } else if contains_chars(&l, &chars_of("npm")) || contains_chars(&l, &chars_of("node"))
        || contains_chars(&l, &chars_of("yarn")) {
        labels("JavaScript Development", "javascript,nodejs,npm", "Working with Node.js/JavaScript")
    } else {
        None
    }
}

/// Classifies a command line, case-insensitively: returns its category, tags
/// and context, or `None` when no rule applies.
pub fn categorize_command(command: &str) -> (r: Option<(String, String, String)>)
    ensures
        labels_view(r) == classify_spec(lower_of(command@)),
{
    let lowered = lowercase(command);
    categorize_lowered(lowered.as_str())
}

} // verus!
