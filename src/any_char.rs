//! Matches any one character.
use vstd::prelude::*;
use crate::rule::Rule;
use crate::Matcher;

verus! {

/// Matches any one character.
pub struct AnyChar {
    rule: Rule,
}

impl AnyChar {
    pub fn new() -> (r: Self)
        ensures
            r.rule() == Rule::AnyChar,
    {
        AnyChar { rule: Rule::AnyChar }
    }
}

impl Matcher for AnyChar {
    closed spec fn rule(&self) -> Rule {
        self.rule
    }

    fn as_rule(&self) -> (r: &Rule) {
        &self.rule
    }

    fn into_rule(self) -> (r: Rule) {
        self.rule
    }
}

} // verus!
