//! The pattern matcher: which pattern, if any, an author falls under.

use vstd::prelude::*;
use crate::text::{contains_str, has_at_sign, is_substring, lowercase_of, to_lowercase, views};

verus! {

/// The part of an author that a pattern is tried on.  A pattern is not put
/// in a class when the configuration is made, but each time it is tried.
#[derive(Debug, Clone, Copy, PartialEq, Eq, Structural)]
pub enum PatternKind {
    /// The pattern holds `@`: it is tried on the email.
    Email,
    /// Any other pattern: it is tried on the name.
    Name,
}

/// The class of a pattern.
pub open spec fn kind_of(pattern: Seq<char>) -> PatternKind {
    if pattern.contains('@') {
        PatternKind::Email
    } else {
        PatternKind::Name
    }
}

/// The match of one pattern on texts that are already in lower case: the
/// pattern stands somewhere in the email, or in the name, as its class asks.
pub open spec fn lowered_match(
    name_lower: Seq<char>,
    email_lower: Seq<char>,
    pattern_lower: Seq<char>,
) -> bool {
    match kind_of(pattern_lower) {
        PatternKind::Email => is_substring(pattern_lower, email_lower),
        PatternKind::Name => is_substring(pattern_lower, name_lower),
    }
}

/// The match of one pattern on an author: all three texts are put in lower
/// case first, so that case plays no part.
pub open spec fn pattern_matches(name: Seq<char>, email: Seq<char>, pattern: Seq<char>) -> bool {
    lowered_match(lowercase_of(name), lowercase_of(email), lowercase_of(pattern))
}

/// `i` is the place of the first pattern of the list that matches.
pub open spec fn is_first_match(
    name: Seq<char>,
    email: Seq<char>,
    patterns: Seq<Seq<char>>,
    i: int,
) -> bool {
    &&& 0 <= i < patterns.len()
    &&& pattern_matches(name, email, patterns[i])
    &&& forall|j: int| 0 <= j < i ==> !pattern_matches(name, email, #[trigger] patterns[j])
}

/// The pattern that an author falls under: the first of the list that
/// matches, in the form in which the list holds it.
pub open spec fn matched_pattern(
    name: Seq<char>,
    email: Seq<char>,
    patterns: Seq<Seq<char>>,
) -> Option<Seq<char>>
    decreases patterns.len(),
{
    if patterns.len() == 0 {
        None
    } else if pattern_matches(name, email, patterns[0]) {
        Some(patterns[0])
    } else {
        matched_pattern(name, email, patterns.drop_first())
    }
}

/// The first pattern in list order wins: where `i` is the first place that
/// matches, the matched pattern is the one at `i`, whatever follows it.
pub proof fn lemma_first_match_wins(
    name: Seq<char>,
    email: Seq<char>,
    patterns: Seq<Seq<char>>,
    i: int,
)
    requires
        is_first_match(name, email, patterns, i),
    ensures
        matched_pattern(name, email, patterns) == Some(patterns[i]),
    decreases patterns.len(),
{
    if i > 0 {
        let rest = patterns.drop_first();
        assert forall|j: int| 0 <= j < i - 1 implies !pattern_matches(
            name,
            email,
            #[trigger] rest[j],
        ) by {
            assert(rest[j] == patterns[j + 1]);
        }
        assert(rest[i - 1] == patterns[i]);
        lemma_first_match_wins(name, email, rest, i - 1);
    }
}

/// No pattern is reported exactly when no pattern of the list matches.
pub proof fn lemma_no_match(name: Seq<char>, email: Seq<char>, patterns: Seq<Seq<char>>)
    ensures
        matched_pattern(name, email, patterns) is None <==> forall|i: int|
            0 <= i < patterns.len() ==> !pattern_matches(name, email, #[trigger] patterns[i]),
    decreases patterns.len(),
{
    if patterns.len() > 0 {
        let rest = patterns.drop_first();
        lemma_no_match(name, email, rest);
        if pattern_matches(name, email, patterns[0]) {
        } else {
            if matched_pattern(name, email, rest) is None {
                assert forall|i: int| 0 <= i < patterns.len() implies !pattern_matches(
                    name,
                    email,
                    #[trigger] patterns[i],
                ) by {
                    if i > 0 {
                        assert(rest[i - 1] == patterns[i]);
                    }
                }
            } else {
                let k = choose|k: int|
                    0 <= k < rest.len() && pattern_matches(name, email, #[trigger] rest[k]);
                assert(rest[k] == patterns[k + 1]);
            }
        }
    }
}

/// Case plays no part in matching: authors and patterns that agree once
/// put in lower case match alike.
pub proof fn lemma_match_ignores_case(
    name_a: Seq<char>,
    email_a: Seq<char>,
    pattern_a: Seq<char>,
    name_b: Seq<char>,
    email_b: Seq<char>,
    pattern_b: Seq<char>,
)
    requires
        lowercase_of(name_a) == lowercase_of(name_b),
        lowercase_of(email_a) == lowercase_of(email_b),
        lowercase_of(pattern_a) == lowercase_of(pattern_b),
    ensures
        pattern_matches(name_a, email_a, pattern_a) == pattern_matches(name_b, email_b, pattern_b),
{
}

/// Puts a pattern in its class.
pub fn classify(pattern: &str) -> (kind: PatternKind)
    ensures
        kind == kind_of(pattern@),
{
    if has_at_sign(pattern) {
        PatternKind::Email
    } else {
        PatternKind::Name
    }
}

/// Tests one pattern against an author, all three already in lower case.
pub fn matches_lowered(name_lower: &str, email_lower: &str, pattern_lower: &str) -> (hit: bool)
    ensures
        hit == lowered_match(name_lower@, email_lower@, pattern_lower@),
{
    match classify(pattern_lower) {
        PatternKind::Email => contains_str(email_lower, pattern_lower),
        PatternKind::Name => contains_str(name_lower, pattern_lower),
    }
}

/// Finds the pattern that an author falls under.  Name, email and patterns
/// are compared in lower case; the patterns are tried in the order of the
/// list and the first that matches is returned as the list holds it.
pub fn matches_pattern(author: &str, email: &str, patterns: &Vec<String>) -> (found: Option<String>)
    ensures
        match found {
            Some(p) => Some(p@) == matched_pattern(author@, email@, views(patterns@))
                && exists|i: int|
                    is_first_match(author@, email@, views(patterns@), i) && p@ == patterns[i]@,
            None => matched_pattern(author@, email@, views(patterns@)) is None
                && forall|i: int|
                    0 <= i < patterns.len() ==> !pattern_matches(
                        author@,
                        email@,
                        #[trigger] patterns[i]@,
                    ),
        },
{
    let author_lower = to_lowercase(author);
    let email_lower = to_lowercase(email);
    let ghost all = views(patterns@);
    let mut i: usize = 0;
    while i < patterns.len()
        invariant
            0 <= i <= patterns.len(),
            all == views(patterns@),
            author_lower@ == lowercase_of(author@),
            email_lower@ == lowercase_of(email@),
            forall|j: int| 0 <= j < i ==> !pattern_matches(author@, email@, #[trigger] all[j]),
        decreases patterns.len() - i,
    {
        let pattern_lower = to_lowercase(patterns[i].as_str());
        if matches_lowered(author_lower.as_str(), email_lower.as_str(), pattern_lower.as_str()) {
            proof {
                assert(all[i as int] == patterns[i as int]@);
                assert(is_first_match(author@, email@, all, i as int));
                lemma_first_match_wins(author@, email@, all, i as int);
            }
            return Some(patterns[i].clone());
        }
        assert(all[i as int] == patterns[i as int]@);
        i = i + 1;
    }
    proof {
        lemma_no_match(author@, email@, all);
        assert forall|k: int| 0 <= k < patterns.len() implies !pattern_matches(
            author@,
            email@,
            #[trigger] patterns[k]@,
        ) by {
            assert(all[k] == patterns[k]@);
        }
    }
    None
}

} // verus!
