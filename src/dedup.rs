//! Suppression of lines that are not worth recording: blank lines, shell
//! no-ops, comments, the recorder's own invocations, and an immediate repeat
//! of the last accepted line.
use vstd::prelude::*;
use vstd::string::*;
use crate::text::{trim, trim_spec, chars_of, contains_chars, starts_with_chars, contains_seq, starts_with_seq};

verus! {

/// A trimmed line that is never recorded: empty, a shell no-op, a comment,
/// or one that mentions the recorder's own shell hook.
pub open spec fn denied(t: Seq<char>) -> bool {
    t.len() == 0 || t == "exit"@ || t == "logout"@ || t == "clear"@ || starts_with_seq(t, "#"@)
        || contains_seq(t, "shell_integration"@)
}

/// Whether `line` is accepted after `last` was the last accepted line.
pub open spec fn accept_spec(last: Option<Seq<char>>, line: Seq<char>) -> bool {
    let t = trim_spec(line);
    !denied(t) && last != Some(t)
}

/// The last accepted line once `line` has been offered.
pub open spec fn next_last(last: Option<Seq<char>>, line: Seq<char>) -> Option<Seq<char>> {
    if accept_spec(last, line) {
        Some(trim_spec(line))
    } else {
        last
    }
}

/// Holds the last accepted line, trimmed.
pub struct Deduplicator {
    last: Option<String>,
}

impl View for Deduplicator {
    type V = Option<Seq<char>>;

    closed spec fn view(&self) -> Option<Seq<char>> {
        match self.last {
            Some(s) => Some(s@),
            None => None,
        }
    }
}

fn is_denied(t: &str) -> (r: bool)
    ensures
        r == denied(t@),
{
    let ts = String::from_str(t);
    if t.unicode_len() == 0 {
        return true;
    }
    if ts == String::from_str("exit") || ts == String::from_str("logout") || ts == String::from_str("clear") {
        return true;
    }
    let c = chars_of(t);
    starts_with_chars(&c, &chars_of("#")) || contains_chars(&c, &chars_of("shell_integration"))
}

/// Whether `command` repeats the last accepted line.
pub fn is_duplicate_command(last: Option<&str>, command: &str) -> (r: bool)
    ensures
        r == (last matches Some(l) && l@ == command@),
{
    match last {
        Some(l) => String::from_str(l) == String::from_str(command),
        None => false,
    }
}

impl Deduplicator {
    /// A deduplicator that has accepted nothing yet.
    pub fn new() -> (r: Deduplicator)
        ensures
            r@.is_none(),
    {
        Deduplicator { last: None }
    }

    /// A deduplicator that resumes after `last` was accepted.
    pub fn resume(last: Option<String>) -> (r: Deduplicator)
        ensures
            r@ == crate::db::opt_view(last),
    {
        Deduplicator { last }
    }

    /// The last accepted line, trimmed.
    pub fn last(&self) -> (r: Option<String>)
        ensures
            crate::db::opt_view(r) == self@,
    {
        crate::db::copy_text(&self.last)
    }

    /// Accepts `line` unless, once trimmed, it is denied or equals the last
    /// accepted line; an accepted line becomes the last one.
    pub fn accept(&mut self, line: &str) -> (r: bool)
        ensures
            r == accept_spec(old(self)@, line@),
            final(self)@ == next_last(old(self)@, line@),
    {
        let t = trim(line);
        if is_denied(t) {
            return false;
        }
        let repeat = match &self.last {
            Some(l) => is_duplicate_command(Some(l.as_str()), t),
            None => is_duplicate_command(None, t),
        };
        if repeat {
            return false;
        }
        self.last = Some(String::from_str(t));
        true
    }
}

} // verus!
