//! A literal text.
use vstd::prelude::*;
use vstd::string::StrSliceExecFns;
use crate::rule::Rule;
use crate::Matcher;

verus! {

/// Matches exactly the characters of a given text.
pub struct Literal {
    rule: Rule,
}

impl Literal {
    pub fn new(literal: &str) -> (r: Self)
        ensures
            r.rule() is Literal,
            r.rule()->Literal_0@ == literal@,
    {
        let n = literal.unicode_len();
        let mut chars: Vec<char> = Vec::new();
        let mut i: usize = 0;
        while i < n
            invariant
                i <= n,
                n == literal@.len(),
                chars@ == literal@.subrange(0, i as int),
            decreases n - i,
        {
            chars.push(literal.get_char(i));
            i = i + 1;
            assert(chars@ =~= literal@.subrange(0, i as int));
        }
        assert(chars@ =~= literal@);
        Literal { rule: Rule::Literal(chars) }
    }
}

impl Matcher for Literal {
    closed spec fn rule(&self) -> Rule {
        self.rule
    }

    fn as_rule(&self) -> (r: &Rule) {
        &self.rule
    }

    fn into_rule(self) -> (r: Rule) {
        self.rule
    }
}

} // verus!
