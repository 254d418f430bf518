//! A character range, like `a-z`.
use vstd::prelude::*;
use crate::rule::Rule;
use crate::Matcher;

verus! {

/// Matches one character `c` with `start <= c <= end`. Where `start > end`
/// it matches nothing.
pub struct Range {
    rule: Rule,
}

impl Range {
    pub fn new(start: char, end: char) -> (r: Self)
        ensures
            r.rule() == Rule::Range(start, end),
    {
        Range { rule: Rule::Range(start, end) }
    }
}

impl Matcher for Range {
    closed spec fn rule(&self) -> Rule {
        self.rule
    }

    fn as_rule(&self) -> (r: &Rule) {
        &self.rule
    }

    fn into_rule(self) -> (r: Rule) {
        self.rule
    }
}

} // verus!
