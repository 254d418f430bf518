//! Matches one ASCII letter.
use vstd::prelude::*;
use crate::rule::Rule;
use crate::Matcher;

verus! {

/// Matches one ASCII letter.
pub struct Alpha {
    rule: Rule,
}

impl Alpha {
    pub fn new() -> (r: Self)
        ensures
            r.rule() == Rule::Alpha,
    {
        Alpha { rule: Rule::Alpha }
    }
}

impl Matcher for Alpha {
    closed spec fn rule(&self) -> Rule {
        self.rule
    }

    fn as_rule(&self) -> (r: &Rule) {
        &self.rule
    }

    fn into_rule(self) -> (r: Rule) {
        self.rule
    }
}

} // verus!
