//! The configuration of one run, and the checks that it has to pass.

use vstd::prelude::*;
use vstd::string::StringExecFns;
use std::path::PathBuf;
use regex::Regex;
use crate::commit::{Identity, IdentityView};
use crate::error::{prefixed, GitRebrandError};
use crate::text::views;

verus! {

/// `std::path::PathBuf`, carried through as it is.
#[verifier::external_type_specification]
#[verifier::external_body]
pub struct ExPathBuf(PathBuf);

/// `regex::Error`: why a pattern could not be compiled.
#[verifier::external_type_specification]
#[verifier::external_body]
pub struct ExRegexError(regex::Error);

/// `PathBuf::new` makes an empty path; nothing is claimed of it.
pub assume_specification[ PathBuf::new ]() -> (path: PathBuf);

/// The clone of a path; nothing is claimed of it.
pub assume_specification[ <PathBuf as Clone>::clone ](path: &PathBuf) -> (copy: PathBuf);

/// The shape that the email of the new author must have.
pub const EMAIL_PATTERN: &'static str = r"^[a-zA-Z0-9._%+-]+@[a-zA-Z0-9.-]+\.[a-zA-Z]{2,}$";

/// What is needed to rebrand a repository: the identity that replaces the
/// matched authors, the patterns that select them, where the repository
/// lies, and whether the tip is saved under a backup branch first.
#[derive(Debug, Clone)]
pub struct Config {
    pub new_author_name: String,
    pub new_author_email: String,
    /// Tried in this order; the first that matches an author wins.
    pub patterns: Vec<String>,
    pub repo_path: PathBuf,
    pub create_backup: bool,
}

/// Whether a backup branch is created when the configuration does not say.
pub fn default_backup() -> (enabled: bool)
    ensures
        enabled,
{
    true
}

/// Whether `regex::Regex::new` accepts a pattern.
pub uninterp spec fn regex_compiles(pattern: Seq<char>) -> bool;

/// Whether the regular expression compiled from `pattern` finds a match in
/// `text`, as `regex::Regex::is_match` reports it.
pub uninterp spec fn regex_finds(pattern: Seq<char>, text: Seq<char>) -> bool;

/// Compiles `pattern` with `regex::Regex::new` and asks `Regex::is_match`
/// whether it matches in `text`.  Both depend on their arguments alone, so
/// the contract names the two results; a pattern that does not compile gives
/// the error of the regex crate.
#[verifier::external_body]
fn regex_is_match(pattern: &str, text: &str) -> (found: Result<bool, regex::Error>)
    ensures
        found is Ok <==> regex_compiles(pattern@),
        found matches Ok(hit) ==> hit == regex_finds(pattern@, text@),
{
    match Regex::new(pattern) {
        Ok(re) => Ok(re.is_match(text)),
        Err(e) => Err(e),
    }
}

/// An email has the required shape.
pub open spec fn is_valid_email(email: Seq<char>) -> bool {
    regex_compiles(EMAIL_PATTERN@) && regex_finds(EMAIL_PATTERN@, email)
}

/// The verdict on an email, given what the match of the email pattern
/// reported: `Some(true)` for a match, `Some(false)` for none, `None` where
/// the pattern could not be compiled.
pub fn email_verdict(email: &str, matched: Option<bool>) -> (verdict: Result<(), GitRebrandError>)
    ensures
        match verdict {
            Ok(_) => matched == Some(true),
            Err(e) => e is InvalidConfig && match matched {
                Some(hit) => !hit && e.reason() == "Invalid email format: "@ + email@,
                None => e.reason() == "Failed to compile email regex"@,
            },
        },
{
    match matched {
        Some(true) => Ok(()),
        Some(false) => {
            let shown = String::from_str(email);
            Err(GitRebrandError::InvalidConfig(prefixed("Invalid email format: ", &shown)))
        },
        None => Err(
            GitRebrandError::InvalidConfig(String::from_str("Failed to compile email regex")),
        ),
    }
}

/// Checks that the pattern for emails can be compiled at all, so that a
/// caller who asks for an email until one is valid knows beforehand that
/// some email can be.
pub fn check_email_pattern() -> (verdict: Result<(), GitRebrandError>)
    ensures
        verdict is Ok <==> regex_compiles(EMAIL_PATTERN@),
        verdict matches Err(e) ==> e is InvalidConfig && e.reason()
            == "Failed to compile email regex"@,
{
    match regex_is_match(EMAIL_PATTERN, "") {
        Ok(_) => Ok(()),
        Err(_) => Err(
            GitRebrandError::InvalidConfig(String::from_str("Failed to compile email regex")),
        ),
    }
}

/// Checks that an email has the required shape.
pub fn validate_email(email: &str) -> (verdict: Result<(), GitRebrandError>)
    ensures
        verdict is Ok <==> is_valid_email(email@),
        verdict matches Err(e) ==> e is InvalidConfig,
{
    let matched = match regex_is_match(EMAIL_PATTERN, email) {
        Ok(hit) => Some(hit),
        Err(_) => None,
    };
    email_verdict(email, matched)
}

/// A text with the whitespace at both ends removed, as the standard
/// library's `str::trim` returns it.
pub uninterp spec fn trimmed_of(s: Seq<char>) -> Seq<char>;

/// Calls `str::trim` and copies the slice that it returns.
#[verifier::external_body]
fn trim(s: &str) -> (trimmed: String)
    ensures
        trimmed@ == trimmed_of(s@),
{
    s.trim().to_string()
}

/// The texts of a list that are not empty, in their order.
pub open spec fn nonempty_of(lines: Seq<Seq<char>>) -> Seq<Seq<char>>
    decreases lines.len(),
{
    if lines.len() == 0 {
        Seq::empty()
    } else if lines.last().len() == 0 {
        nonempty_of(lines.drop_last())
    } else {
        nonempty_of(lines.drop_last()).push(lines.last())
    }
}

/// The lines of a list, each trimmed.
pub open spec fn trimmed_lines(lines: Seq<Seq<char>>) -> Seq<Seq<char>> {
    Seq::new(lines.len(), |i: int| trimmed_of(lines[i]))
}

/// Makes the list of patterns from lines that are already trimmed: empty
/// lines are dropped, and a list without any pattern is refused.
pub fn patterns_from_trimmed(trimmed: &Vec<String>) -> (outcome: Result<
    Vec<String>,
    GitRebrandError,
>)
    ensures
        match outcome {
            Ok(patterns) => patterns.len() > 0 && views(patterns@) == nonempty_of(
                views(trimmed@),
            ),
            Err(e) => e is InvalidPattern && e.reason() == "At least one pattern must be provided"@
                && nonempty_of(views(trimmed@)).len() == 0,
        },
{
    let mut patterns: Vec<String> = Vec::new();
    let ghost all = views(trimmed@);
    let mut i: usize = 0;
    while i < trimmed.len()
        invariant
            0 <= i <= trimmed.len(),
            all == views(trimmed@),
            views(patterns@) == nonempty_of(all.take(i as int)),
        decreases trimmed.len() - i,
    {
        proof {
            assert(all.take(i + 1).drop_last() =~= all.take(i as int));
            assert(all.take(i + 1).last() == trimmed[i as int]@);
        }
        let ghost before = views(patterns@);
        if !trimmed[i].as_str().is_empty() {
            patterns.push(trimmed[i].clone());
            assert(views(patterns@) =~= before.push(trimmed[i as int]@));
        }
        i = i + 1;
    }
    assert(all.take(trimmed.len() as int) =~= all);
    if patterns.len() == 0 {
        Err(
            GitRebrandError::InvalidPattern(
                String::from_str("At least one pattern must be provided"),
            ),
        )
    } else {
        Ok(patterns)
    }
}

/// Makes the list of patterns from the lines that a user typed: each line
/// is trimmed, empty lines are dropped, and a list without any pattern is
/// refused.
pub fn collect_patterns(lines: &Vec<String>) -> (outcome: Result<Vec<String>, GitRebrandError>)
    ensures
        match outcome {
            Ok(patterns) => patterns.len() > 0 && views(patterns@) == nonempty_of(
                trimmed_lines(views(lines@)),
            ),
            Err(e) => e is InvalidPattern && e.reason() == "At least one pattern must be provided"@
                && nonempty_of(trimmed_lines(views(lines@))).len() == 0,
        },
{
    let mut trimmed: Vec<String> = Vec::new();
    let mut i: usize = 0;
    while i < lines.len()
        invariant
            0 <= i <= lines.len(),
            trimmed.len() == i,
            forall|j: int| 0 <= j < i ==> (#[trigger] trimmed@[j])@ == trimmed_of(lines@[j]@),
        decreases lines.len() - i,
    {
        trimmed.push(trim(lines[i].as_str()));
        i = i + 1;
    }
    assert(views(trimmed@) =~= trimmed_lines(views(lines@)));
    patterns_from_trimmed(&trimmed)
}

impl Config {
    /// What every configuration is meant to meet: at least one pattern, and
    /// an email of the required shape.
    pub open spec fn is_well_formed(&self) -> bool {
        self.patterns.len() > 0 && is_valid_email(self.new_author_email@)
    }

    /// The identity that replaces the matched authors.
    pub open spec fn new_identity(&self) -> IdentityView {
        IdentityView { name: self.new_author_name@, email: self.new_author_email@ }
    }

    /// The identity that replaces the matched authors.
    pub fn identity(&self) -> (identity: Identity)
        ensures
            identity@ == self.new_identity(),
    {
        Identity { name: self.new_author_name.clone(), email: self.new_author_email.clone() }
    }

    /// Checks what every configuration has to meet, whatever it was read
    /// from: an email of the required shape and at least one pattern.  The
    /// email is looked at first; either failure is an `InvalidConfig`.
    pub fn validate(&self) -> (verdict: Result<(), GitRebrandError>)
        ensures
            verdict is Ok <==> self.is_well_formed(),
            verdict matches Err(e) ==> e is InvalidConfig && (is_valid_email(
                self.new_author_email@,
            ) ==> e.reason() == "At least one pattern must be provided"@),
    {
        match validate_email(self.new_author_email.as_str()) {
            Ok(_) => {},
            Err(e) => {
                return Err(e);
            },
        }
        if self.patterns.len() == 0 {
            return Err(
                GitRebrandError::InvalidConfig(
                    String::from_str("At least one pattern must be provided"),
                ),
            );
        }
        Ok(())
    }

    /// Assembles the configuration from what a user typed: the name and the
    /// email of the new author, and the lines that hold the patterns.  The
    /// email must have the required shape and at least one line must hold a
    /// pattern.  The path is left empty and the backup is switched on.
    pub fn from_answers(
        new_author_name: String,
        new_author_email: String,
        lines: &Vec<String>,
    ) -> (outcome: Result<Config, GitRebrandError>)
        ensures
            match outcome {
                Ok(config) => {
                    &&& config.is_well_formed()
                    &&& config.new_author_name == new_author_name
                    &&& config.new_author_email == new_author_email
                    &&& config.patterns.len() > 0
                    &&& views(config.patterns@) == nonempty_of(trimmed_lines(views(lines@)))
                    &&& config.create_backup
                },
                Err(e) => if is_valid_email(new_author_email@) {
                    e is InvalidPattern && nonempty_of(trimmed_lines(views(lines@))).len() == 0
                } else {
                    e is InvalidConfig
                },
            },
    {
        match validate_email(new_author_email.as_str()) {
            Ok(_) => {},
            Err(e) => {
                return Err(e);
            },
        }
        match collect_patterns(lines) {
            Ok(patterns) => Ok(
                Config {
                    new_author_name,
                    new_author_email,
                    patterns,
                    repo_path: PathBuf::new(),
                    create_backup: default_backup(),
                },
            ),
            Err(e) => Err(e),
        }
    }
}

} // verus!
