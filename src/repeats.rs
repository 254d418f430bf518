//! Repetition: `Repeat` (`*`), `Repeat1` (`+`), `Optional` (`?`) and
//! `RepeatUntil`.
use vstd::prelude::*;
use crate::rule::Rule;
use crate::Matcher;

verus! {

/// Zero or more greedy applications of a matcher. It stops at the first
/// application that fails or consumes nothing, and never fails itself.
pub struct Repeat {
    rule: Rule,
}

impl Repeat {
    pub fn new<T: Matcher>(repeat: T) -> (r: Self)
        ensures
            r.rule() == Rule::Repeat(Box::new(repeat.rule())),
    {
        Repeat { rule: Rule::Repeat(Box::new(repeat.into_rule())) }
    }
}

impl Matcher for Repeat {
    closed spec fn rule(&self) -> Rule {
        self.rule
    }

    fn as_rule(&self) -> (r: &Rule) {
        &self.rule
    }

    fn into_rule(self) -> (r: Rule) {
        self.rule
    }
}

/// One or more greedy applications of a matcher: like `Repeat`, but it
/// fails where nothing was consumed.
pub struct Repeat1 {
    rule: Rule,
}

impl Repeat1 {
    pub fn new<T: Matcher>(repeat: T) -> (r: Self)
        ensures
            r.rule() == Rule::Repeat1(Box::new(repeat.rule())),
    {
        Repeat1 { rule: Rule::Repeat1(Box::new(repeat.into_rule())) }
    }
}

impl Matcher for Repeat1 {
    closed spec fn rule(&self) -> Rule {
        self.rule
    }

    fn as_rule(&self) -> (r: &Rule) {
        &self.rule
    }

    fn into_rule(self) -> (r: Rule) {
        self.rule
    }
}

/// Zero or one application of a matcher. It never fails.
pub struct Optional {
    rule: Rule,
}

impl Optional {
    pub fn new<T: Matcher>(optional: T) -> (r: Self)
        ensures
            r.rule() == Rule::Optional(Box::new(optional.rule())),
    {
        Optional { rule: Rule::Optional(Box::new(optional.into_rule())) }
    }
}

impl Matcher for Optional {
    closed spec fn rule(&self) -> Rule {
        self.rule
    }

    fn as_rule(&self) -> (r: &Rule) {
        &self.rule
    }

    fn into_rule(self) -> (r: Rule) {
        self.rule
    }
}

/// Applications of `repeat` until `until` matches. Before each application
/// `until` is tried first, and where it matches its match ends the whole.
/// Where neither matches, or `repeat` consumes nothing, it fails.
pub struct RepeatUntil {
    rule: Rule,
}

impl RepeatUntil {
    pub fn new<T: Matcher, U: Matcher>(repeat: T, until: U) -> (r: Self)
        ensures
            r.rule() == Rule::RepeatUntil(Box::new(repeat.rule()), Box::new(until.rule())),
    {
        RepeatUntil {
            rule: Rule::RepeatUntil(Box::new(repeat.into_rule()), Box::new(until.into_rule())),
        }
    }
}

impl Matcher for RepeatUntil {
    closed spec fn rule(&self) -> Rule {
        self.rule
    }

    fn as_rule(&self) -> (r: &Rule) {
        &self.rule
    }

    fn into_rule(self) -> (r: Rule) {
        self.rule
    }
}

} // verus!
