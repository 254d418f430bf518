//! Laws that relate the matchers to one another.
use vstd::prelude::*;
use crate::rule::{
    consumed, digit_run, is_digit, match_len, outcome, prepend, repeat_outcome, repeat_steps,
    select_outcome, sequence_outcome, until_outcome, Rule,
};

verus! {

/// Anchored matching and capture agree: both succeed or both fail, and on
/// success they consume the same number of characters.
pub proof fn lemma_match_capture_agree(r: Rule, t: Seq<char>, pos: int)
    ensures
        match outcome(r, t, pos) {
            Some((n, _)) => match_len(r, t, pos) == Some(n),
            None => match_len(r, t, pos) is None,
        },
{
}

proof fn lemma_repeat_steps_bounded(r: Rule, t: Seq<char>, pos: int)
    requires
        0 <= pos <= t.len(),
    ensures
        repeat_steps(r, t, pos) <= t.len() - pos,
    decreases t.len() - pos,
{
    match r {
        Rule::Repeat(m) | Rule::Repeat1(m) => match outcome(*m, t, pos) {
            Some((n, _)) => if n > 0 && pos + n <= t.len() {
                lemma_repeat_steps_bounded(r, t, pos + n);
            },
            None => {},
        },
        _ => {},
    }
}

/// `Repeat` never fails, and its loop keeps at most as many applications of
/// the sub-matcher as there are characters left.
pub proof fn lemma_repeat_total(m: Rule, t: Seq<char>, pos: int)
    requires
        0 <= pos <= t.len(),
    ensures
        outcome(Rule::Repeat(Box::new(m)), t, pos) is Some,
        repeat_steps(Rule::Repeat(Box::new(m)), t, pos) <= t.len() - pos,
{
    lemma_repeat_steps_bounded(Rule::Repeat(Box::new(m)), t, pos);
}

proof fn lemma_repeat1_loop(m: Rule, t: Seq<char>, pos: int)
    ensures
        repeat_outcome(Rule::Repeat1(Box::new(m)), t, pos) == repeat_outcome(
            Rule::Repeat(Box::new(m)),
            t,
            pos,
        ),
    decreases t.len() - pos,
{
    match outcome(m, t, pos) {
        Some((n, _)) => if n > 0 && pos + n <= t.len() {
            lemma_repeat1_loop(m, t, pos + n);
        },
        None => {},
    }
}

/// `Repeat1` is one application of the sub-matcher that consumes at least
/// one character, followed by `Repeat` of it; it fails exactly where that
/// first application fails or consumes nothing.
pub proof fn lemma_repeat1_unrolled(m: Rule, t: Seq<char>, pos: int)
    requires
        0 <= pos <= t.len(),
    ensures
        outcome(Rule::Repeat1(Box::new(m)), t, pos) == (match outcome(m, t, pos) {
            Some((n, caps)) => if n > 0 {
                prepend(n, caps, outcome(Rule::Repeat(Box::new(m)), t, pos + n))
            } else {
                None
            },
            None => None,
        }),
        outcome(Rule::Repeat1(Box::new(m)), t, pos) is Some ==> outcome(
            Rule::Repeat1(Box::new(m)),
            t,
            pos,
        ) == outcome(Rule::Repeat(Box::new(m)), t, pos),
{
    lemma_repeat1_loop(m, t, pos);
}

/// `Optional` gives the sub-matcher's result where it matches, and otherwise
/// succeeds with nothing consumed and nothing captured.
pub proof fn lemma_optional(m: Rule, t: Seq<char>, pos: int)
    requires
        0 <= pos <= t.len(),
    ensures
        outcome(Rule::Optional(Box::new(m)), t, pos) == (if outcome(m, t, pos) is Some {
            outcome(m, t, pos)
        } else {
            Some((0nat, Seq::empty()))
        }),
        outcome(Rule::Optional(Box::new(m)), t, pos) is Some,
{
}

/// A choice between two alternatives takes the first one wherever it
/// matches, however much the second would consume, and the second one
/// otherwise.
pub proof fn lemma_select_first_wins(alts: Vec<Rule>, t: Seq<char>, pos: int)
    requires
        0 <= pos <= t.len(),
        alts@.len() == 2,
    ensures
        outcome(Rule::Select(alts), t, pos) == (if outcome(alts@[0], t, pos) is Some {
            outcome(alts@[0], t, pos)
        } else {
            outcome(alts@[1], t, pos)
        }),
{
    assert(select_outcome(alts@, 2, t, pos) is None);
    assert(select_outcome(alts@, 1, t, pos) == outcome(alts@[1], t, pos));
    assert(outcome(Rule::Select(alts), t, pos) == select_outcome(alts@, 0, t, pos));
}

/// A sequence of two matchers does not backtrack: where the second cannot
/// match after what the first consumed, the sequence fails.
pub proof fn lemma_sequence_no_backtracking(rules: Vec<Rule>, t: Seq<char>, pos: int, n: nat)
    requires
        0 <= pos <= t.len(),
        rules@.len() == 2,
        match_len(rules@[0], t, pos) == Some(n),
        outcome(rules@[1], t, pos + n) is None,
    ensures
        outcome(Rule::Sequence(rules), t, pos) is None,
{
    assert(sequence_outcome(rules@, 1, t, pos + n) is None);
    assert(sequence_outcome(rules@, 0, t, pos) is None);
    assert(outcome(Rule::Sequence(rules), t, pos) == sequence_outcome(rules@, 0, t, pos));
}

proof fn lemma_digit_run_local(t: Seq<char>, k: int, pos: int)
    requires
        0 <= k <= pos,
        k <= t.len(),
    ensures
        digit_run(t, pos) == digit_run(t.skip(k), pos - k),
    decreases t.len() - pos,
{
    if 0 <= pos < t.len() && is_digit(t[pos]) {
        lemma_digit_run_local(t, k, pos + 1);
    }
}

proof fn lemma_outcome_local(r: Rule, t: Seq<char>, k: int, pos: int)
    requires
        0 <= k <= pos,
        k <= t.len(),
    ensures
        match_len(r, t, pos) == match_len(r, t.skip(k), pos - k),
    decreases r, t.len() - pos + 1, 0int,
{
    let s = t.skip(k);
    if pos <= t.len() {
        match r {
            Rule::Literal(lit) => {
                if pos + lit@.len() <= t.len() {
                    assert(t.subrange(pos, pos + lit@.len()) =~= s.subrange(
                        pos - k,
                        pos - k + lit@.len(),
                    ));
                }
            },
            Rule::Number => lemma_digit_run_local(t, k, pos),
            Rule::Sequence(rules) => lemma_sequence_local(rules@, 0, t, k, pos),
            Rule::Repeat(_) => lemma_repeat_local(r, t, k, pos),
            Rule::Repeat1(_) => lemma_repeat_local(r, t, k, pos),
            Rule::Optional(m) => lemma_outcome_local(*m, t, k, pos),
            Rule::RepeatUntil(_, _) => lemma_until_local(r, t, k, pos),
            Rule::Select(rules) => lemma_select_local(rules@, 0, t, k, pos),
            _ => {},
        }
    }
}

proof fn lemma_sequence_local(rules: Seq<Rule>, i: int, t: Seq<char>, k: int, pos: int)
    requires
        0 <= k <= pos,
        k <= t.len(),
    ensures
        consumed(sequence_outcome(rules, i, t, pos)) == consumed(
            sequence_outcome(rules, i, t.skip(k), pos - k),
        ),
    decreases rules, rules.len() - i, 0int,
{
    if 0 <= i < rules.len() {
        lemma_outcome_local(rules[i], t, k, pos);
        if let Some((n, _)) = outcome(rules[i], t, pos) {
            lemma_sequence_local(rules, i + 1, t, k, pos + n);
        }
    }
}

proof fn lemma_select_local(rules: Seq<Rule>, i: int, t: Seq<char>, k: int, pos: int)
    requires
        0 <= k <= pos,
        k <= t.len(),
    ensures
        consumed(select_outcome(rules, i, t, pos)) == consumed(
            select_outcome(rules, i, t.skip(k), pos - k),
        ),
    decreases rules, rules.len() - i, 0int,
{
    if 0 <= i < rules.len() {
        lemma_outcome_local(rules[i], t, k, pos);
        lemma_select_local(rules, i + 1, t, k, pos);
    }
}

proof fn lemma_repeat_local(r: Rule, t: Seq<char>, k: int, pos: int)
    requires
        0 <= k <= pos <= t.len(),
    ensures
        repeat_outcome(r, t, pos).0 == repeat_outcome(r, t.skip(k), pos - k).0,
    decreases r, t.len() - pos, 1int,
{
    match r {
        Rule::Repeat(m) | Rule::Repeat1(m) => {
            lemma_outcome_local(*m, t, k, pos);
            if let Some((n, _)) = outcome(*m, t, pos) {
                if n > 0 && pos + n <= t.len() {
                    lemma_repeat_local(r, t, k, pos + n);
                }
            }
        },
        _ => {},
    }
}

proof fn lemma_until_local(r: Rule, t: Seq<char>, k: int, pos: int)
    requires
        0 <= k <= pos <= t.len(),
    ensures
        consumed(until_outcome(r, t, pos)) == consumed(until_outcome(r, t.skip(k), pos - k)),
    decreases r, t.len() - pos, 1int,
{
    match r {
        Rule::RepeatUntil(m, u) => {
            lemma_outcome_local(*u, t, k, pos);
            lemma_outcome_local(*m, t, k, pos);
            if let Some((n, _)) = outcome(*m, t, pos) {
                if n > 0 && pos + n <= t.len() {
                    lemma_until_local(r, t, k, pos + n);
                }
            }
        },
        _ => {},
    }
}

/// A match at position `i` of a text consumes what an anchored match on the
/// rest of the text from `i` consumes; so the position that `find` returns
/// is the first one whose suffix `match_with` accepts.
pub proof fn lemma_match_on_suffix(r: Rule, t: Seq<char>, i: int)
    requires
        0 <= i <= t.len(),
    ensures
        match_len(r, t, i) == match_len(r, t.skip(i), 0),
{
    lemma_outcome_local(r, t, i, i);
}

} // verus!
