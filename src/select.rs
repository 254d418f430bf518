//! Ordered choice, like `|`: the first alternative that matches wins.
use vstd::prelude::*;
use crate::rule::Rule;
use crate::Matcher;

verus! {

/// Tries each alternative in order and takes the first match. With no
/// alternatives it matches nothing.
pub struct Select {
    rule: Rule,
}

impl Select {
    pub fn new(rules: Vec<Rule>) -> (r: Self)
        ensures
            r.rule() == Rule::Select(rules),
    {
        Select { rule: Rule::Select(rules) }
    }
}

impl Matcher for Select {
    closed spec fn rule(&self) -> Rule {
        self.rule
    }

    fn as_rule(&self) -> (r: &Rule) {
        &self.rule
    }

    fn into_rule(self) -> (r: Rule) {
        self.rule
    }
}

} // verus!
