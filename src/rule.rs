//! The matcher tree and its meaning.
//!
//! A `Rule` is matched at a position `pos` of a text `t`, looking only at
//! `t[pos..]`. Its `outcome` is either `None` (no match) or the number of
//! characters consumed together with the captured spans, each a pair
//! `(start, end)` of positions in `t`.
use vstd::prelude::*;

verus! {

/// A matcher: a leaf that inspects the first characters of the text, or a
/// combinator over sub-matchers.
pub enum Rule {
    /// The exact character sequence.
    Literal(Vec<char>),
    /// Any single character.
    AnyChar,
    /// One ASCII letter.
    Alpha,
    /// One ASCII digit.
    Digit,
    /// The longest non-empty run of ASCII digits.
    Number,
    /// One character between the two bounds, both included.
    Range(char, char),
    /// One whitespace character.
    Space,
    /// The sub-matchers one after the other, with no backtracking.
    Sequence(Vec<Rule>),
    /// Zero or more greedy applications of the sub-matcher.
    Repeat(Box<Rule>),
    /// One or more greedy applications of the sub-matcher.
    Repeat1(Box<Rule>),
    /// Zero or one application of the sub-matcher.
    Optional(Box<Rule>),
    /// Applications of the first sub-matcher until the second one matches.
    RepeatUntil(Box<Rule>, Box<Rule>),
    /// The first sub-matcher, in order, that matches.
    Select(Vec<Rule>),
}

/// A captured span: `(start, end)` positions in the matched text.
pub type Span = (usize, usize);

/// Result of a match: consumed length and captured spans, or no match.
pub type Outcome = Option<(nat, Seq<Span>)>;

pub open spec fn is_alpha(c: char) -> bool {
    ('a' <= c && c <= 'z') || ('A' <= c && c <= 'Z')
}

pub open spec fn is_digit(c: char) -> bool {
    '0' <= c && c <= '9'
}

/// The characters with the Unicode `White_Space` property.
pub open spec fn is_space(c: char) -> bool {
    ('\u{9}' <= c && c <= '\u{d}') || c == ' ' || c == '\u{85}' || c == '\u{a0}'
        || c == '\u{1680}' || ('\u{2000}' <= c && c <= '\u{200a}') || c == '\u{2028}'
        || c == '\u{2029}' || c == '\u{202f}' || c == '\u{205f}' || c == '\u{3000}'
}

/// Length of the run of ASCII digits that starts at `pos`.
pub open spec fn digit_run(t: Seq<char>, pos: int) -> nat
    decreases t.len() - pos,
{
    if 0 <= pos < t.len() && is_digit(t[pos]) {
        1 + digit_run(t, pos + 1)
    } else {
        0
    }
}

/// A leaf's success: `n` characters consumed, captured as one span.
pub open spec fn leaf(pos: int, n: nat) -> Outcome {
    Some((n, seq![(pos as usize, (pos + n) as usize)]))
}

/// A leaf that consumes one character when `ok` holds of it.
pub open spec fn one_char(t: Seq<char>, pos: int, ok: bool) -> Outcome {
    if pos < t.len() && ok {
        leaf(pos, 1)
    } else {
        None
    }
}

pub open spec fn literal_outcome(lit: Seq<char>, t: Seq<char>, pos: int) -> Outcome {
    if pos + lit.len() <= t.len() && t.subrange(pos, pos + lit.len()) == lit {
        leaf(pos, lit.len())
    } else {
        None
    }
}

/// `o` after a first step that consumed `n` characters and captured `caps`.
pub open spec fn prepend(n: nat, caps: Seq<Span>, o: Outcome) -> Outcome {
    match o {
        Some((k, rest)) => Some((n + k, caps + rest)),
        None => None,
    }
}

/// What `r` does at position `pos` of `t`.
pub open spec fn outcome(r: Rule, t: Seq<char>, pos: int) -> Outcome
    decreases r, t.len() - pos + 1, 0int,
{
    if !(0 <= pos <= t.len()) {
        None
    } else {
        match r {
            Rule::Literal(lit) => literal_outcome(lit@, t, pos),
            Rule::AnyChar => one_char(t, pos, true),
            Rule::Alpha => one_char(t, pos, pos < t.len() && is_alpha(t[pos])),
            Rule::Digit => one_char(t, pos, pos < t.len() && is_digit(t[pos])),
            Rule::Number => if digit_run(t, pos) > 0 {
                leaf(pos, digit_run(t, pos))
            } else {
                None
            },
            Rule::Range(lo, hi) => one_char(t, pos, pos < t.len() && lo <= t[pos] && t[pos] <= hi),
            Rule::Space => one_char(t, pos, pos < t.len() && is_space(t[pos])),
            Rule::Sequence(rules) => sequence_outcome(rules@, 0, t, pos),
            Rule::Repeat(_) => Some(repeat_outcome(r, t, pos)),
            Rule::Repeat1(_) => {
                let (n, caps) = repeat_outcome(r, t, pos);
                if n > 0 {
                    Some((n, caps))
                } else {
                    None
                }
            },
            Rule::Optional(m) => match outcome(*m, t, pos) {
                Some(o) => Some(o),
                None => Some((0, seq![])),
            },
            Rule::RepeatUntil(_, _) => until_outcome(r, t, pos),
            Rule::Select(rules) => select_outcome(rules@, 0, t, pos),
        }
    }
}

/// `rules[i..]` one after the other from `pos`.
pub open spec fn sequence_outcome(rules: Seq<Rule>, i: int, t: Seq<char>, pos: int) -> Outcome
    decreases rules, rules.len() - i, 0int,
{
    if 0 <= i < rules.len() {
        match outcome(rules[i], t, pos) {
            Some((n, caps)) => prepend(n, caps, sequence_outcome(rules, i + 1, t, pos + n)),
            None => None,
        }
    } else {
        Some((0, seq![]))
    }
}

/// The first of `rules[i..]` that matches at `pos`.
pub open spec fn select_outcome(rules: Seq<Rule>, i: int, t: Seq<char>, pos: int) -> Outcome
    decreases rules, rules.len() - i, 0int,
{
    if 0 <= i < rules.len() {
        match outcome(rules[i], t, pos) {
            Some(o) => Some(o),
            None => select_outcome(rules, i + 1, t, pos),
        }
    } else {
        None
    }
}

/// The greedy loop of `Repeat` and `Repeat1`: apply the sub-matcher while it
/// consumes at least one character.
pub open spec fn repeat_outcome(r: Rule, t: Seq<char>, pos: int) -> (nat, Seq<Span>)
    decreases r, t.len() - pos, 1int,
{
    match r {
        Rule::Repeat(m) | Rule::Repeat1(m) => match outcome(*m, t, pos) {
            Some((n, caps)) => if n > 0 && pos + n <= t.len() {
                let (k, rest) = repeat_outcome(r, t, pos + n);
                (n + k, caps + rest)
            } else {
                (0, seq![])
            },
            None => (0, seq![]),
        },
        _ => (0, seq![]),
    }
}

/// How many applications of the sub-matcher the greedy loop of `Repeat` and
/// `Repeat1` keeps, each of which consumed at least one character.
pub open spec fn repeat_steps(r: Rule, t: Seq<char>, pos: int) -> nat
    decreases r, t.len() - pos, 1int,
{
    match r {
        Rule::Repeat(m) | Rule::Repeat1(m) => match outcome(*m, t, pos) {
            Some((n, _)) => if n > 0 && pos + n <= t.len() {
                1 + repeat_steps(r, t, pos + n)
            } else {
                0
            },
            None => 0,
        },
        _ => 0,
    }
}

/// The loop of `RepeatUntil`: the terminator is tried first at each step;
/// otherwise the repeated matcher must consume at least one character.
pub open spec fn until_outcome(r: Rule, t: Seq<char>, pos: int) -> Outcome
    decreases r, t.len() - pos, 1int,
{
    match r {
        Rule::RepeatUntil(m, u) => match outcome(*u, t, pos) {
            Some(o) => Some(o),
            None => match outcome(*m, t, pos) {
                Some((n, caps)) => if n > 0 && pos + n <= t.len() {
                    match until_outcome(r, t, pos + n) {
                        Some((k, rest)) => Some((n + k, caps + rest)),
                        None => None,
                    }
                } else {
                    None
                },
                None => None,
            },
        },
        _ => None,
    }
}

/// The length consumed in an outcome, or `None`.
pub open spec fn consumed(o: Outcome) -> Option<nat> {
    match o {
        Some((n, _)) => Some(n),
        None => None,
    }
}

/// The length consumed by `r` at `pos`, or `None`.
pub open spec fn match_len(r: Rule, t: Seq<char>, pos: int) -> Option<nat> {
    consumed(outcome(r, t, pos))
}

/// Whether `r` matches at `pos`.
pub open spec fn matches_at(r: Rule, t: Seq<char>, pos: int) -> bool {
    outcome(r, t, pos) is Some
}

/// `i` is the first position before the end of `t` where `r` matches.
pub open spec fn first_match(r: Rule, t: Seq<char>, i: int) -> bool {
    &&& 0 <= i < t.len()
    &&& matches_at(r, t, i)
    &&& forall|j: int| 0 <= j < i ==> !#[trigger] matches_at(r, t, j)
}

/// `r` matches at no position before the end of `t`.
pub open spec fn no_match(r: Rule, t: Seq<char>) -> bool {
    forall|j: int| 0 <= j < t.len() ==> !#[trigger] matches_at(r, t, j)
}

pub proof fn lemma_prepend_twice(a: nat, ca: Seq<Span>, b: nat, cb: Seq<Span>, o: Outcome)
    ensures
        prepend(a, ca, prepend(b, cb, o)) == prepend(a + b, ca + cb, o),
{
    if let Some((k, rest)) = o {
        assert(ca + (cb + rest) =~= (ca + cb) + rest);
    }
}

pub proof fn lemma_prepend_empty(a: nat, ca: Seq<Span>)
    ensures
        prepend(a, ca, Some((0, seq![]))) == Some((a, ca)),
{
    assert(ca + seq![] =~= ca);
}

} // verus!
