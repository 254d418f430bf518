//! Composable text matchers: leaves (literal, any character, letter, digit,
//! number, character range, whitespace) and combinators (sequence,
//! repetition, optional, repeat-until, ordered choice) that build one matcher
//! for anchored matching, capture and search.
//!
//! Text is a slice of characters and every length or position counts
//! characters. A match is anchored at the start of the text it is given.
//! Captured pieces are reported as spans `(start, end)` of that text.
pub mod rule;
pub mod engine;
pub mod alpha;
pub mod any_char;
pub mod literal;
pub mod number;
pub mod range;
pub mod space;
pub mod repeats;
pub mod select;
pub mod laws;

pub use rule::{Rule, Span};
pub use alpha::Alpha;
pub use any_char::AnyChar;
pub use literal::Literal;
pub use number::{Digit, Number};
pub use range::Range;
pub use space::Space;
pub use repeats::{Optional, Repeat, Repeat1, RepeatUntil};
pub use select::Select;

use vstd::prelude::*;
use crate::engine::{outcome_at, view_outcome};
use crate::rule::{first_match, match_len, matches_at, no_match, outcome};

verus! {

/// The spec value of a match length.
pub open spec fn view_len(r: Option<usize>) -> Option<nat> {
    match r {
        Some(n) => Some(n as nat),
        None => None,
    }
}

/// A matcher: anchored matching, capture and search, all defined by the
/// `Rule` that the matcher stands for.
pub trait Matcher {
    /// The rule that this matcher stands for.
    spec fn rule(&self) -> Rule;

    fn as_rule(&self) -> (r: &Rule)
        ensures
            *r == self.rule(),
    ;

    fn into_rule(self) -> (r: Rule)
        where Self: std::marker::Sized
        ensures
            r == self.rule(),
    ;

    /// The number of characters that the matcher consumes at the start of
    /// `target`, or `None` where it does not match there.
    fn match_with(&self, target: &[char]) -> (r: Option<usize>)
        ensures
            view_len(r) == match_len(self.rule(), target@, 0),
    {
        match outcome_at(self.as_rule(), target, 0) {
            Some((n, _)) => Some(n),
            None => None,
        }
    }

    /// Like `match_with`, with the spans captured by the leaves of the
    /// matcher, left to right.
    fn capture(&self, target: &[char]) -> (r: Option<(usize, Vec<Span>)>)
        ensures
            view_outcome(r) == outcome(self.rule(), target@, 0),
    {
        outcome_at(self.as_rule(), target, 0)
    }

    /// The first position of `target`, before its end, where the matcher
    /// matches; `None` where there is none.
    fn find(&self, target: &[char]) -> (r: Option<usize>)
        ensures
            match r {
                Some(i) => first_match(self.rule(), target@, i as int),
                None => no_match(self.rule(), target@),
            },
    {
        let rule = self.as_rule();
        let mut i: usize = 0;
        while i < target.len()
            invariant
                i <= target@.len(),
                *rule == self.rule(),
                forall|j: int| 0 <= j < i ==> !#[trigger] matches_at(self.rule(), target@, j),
            decreases target@.len() - i,
        {
            if outcome_at(rule, target, i).is_some() {
                return Some(i);
            }
            i = i + 1;
        }
        None
    }
}

impl Matcher for Rule {
    open spec fn rule(&self) -> Rule {
        *self
    }

    fn as_rule(&self) -> (r: &Rule) {
        self
    }

    fn into_rule(self) -> (r: Rule) {
        self
    }
}

/// A sequence of matchers, matched one after the other.
pub struct Rex {
    rule: Rule,
}

impl Rex {
    /// The sequence of `rule`, in order.
    pub fn new(rule: Vec<Rule>) -> (r: Self)
        ensures
            r.rule() == Rule::Sequence(rule),
    {
        Rex { rule: Rule::Sequence(rule) }
    }
}

impl Matcher for Rex {
    closed spec fn rule(&self) -> Rule {
        self.rule
    }

    fn as_rule(&self) -> (r: &Rule) {
        &self.rule
    }

    fn into_rule(self) -> (r: Rule) {
        self.rule
    }
}

} // verus!
