//! Matches one whitespace character.
use vstd::prelude::*;
use crate::rule::Rule;
use crate::Matcher;

verus! {

/// Matches one whitespace character.
pub struct Space {
    rule: Rule,
}

impl Space {
    pub fn new() -> (r: Self)
        ensures
            r.rule() == Rule::Space,
    {
        Space { rule: Rule::Space }
    }
}

impl Matcher for Space {
    closed spec fn rule(&self) -> Rule {
        self.rule
    }

    fn as_rule(&self) -> (r: &Rule) {
        &self.rule
    }

    fn into_rule(self) -> (r: Rule) {
        self.rule
    }
}

} // verus!
