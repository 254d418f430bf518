//! Digit matchers: `Number` for a run of digits, `Digit` for one digit.
use vstd::prelude::*;
use crate::rule::Rule;
use crate::Matcher;

verus! {

/// Matches the longest non-empty run of ASCII digits.
pub struct Number {
    rule: Rule,
}

/// Matches one ASCII digit.
pub struct Digit {
    rule: Rule,
}

impl Number {
    pub fn new() -> (r: Self)
        ensures
            r.rule() == Rule::Number,
    {
        Number { rule: Rule::Number }
    }
}

impl Matcher for Number {
    closed spec fn rule(&self) -> Rule {
        self.rule
    }

    fn as_rule(&self) -> (r: &Rule) {
        &self.rule
    }

    fn into_rule(self) -> (r: Rule) {
        self.rule
    }
}

impl Digit {
    pub fn new() -> (r: Self)
        ensures
            r.rule() == Rule::Digit,
    {
        Digit { rule: Rule::Digit }
    }
}

impl Matcher for Digit {
    closed spec fn rule(&self) -> Rule {
        self.rule
    }

    fn as_rule(&self) -> (r: &Rule) {
        &self.rule
    }

    fn into_rule(self) -> (r: Rule) {
        self.rule
    }
}

} // verus!
