//! The executable matcher: one routine that computes the consumed length and
//! the captured spans of a rule at a position of a text.
use vstd::prelude::*;
use crate::rule::{
    digit_run, is_alpha, is_digit, is_space, leaf, lemma_prepend_empty, lemma_prepend_twice,
    literal_outcome, outcome, prepend, repeat_outcome, select_outcome, sequence_outcome,
    until_outcome, Outcome, Rule, Span,
};

verus! {

/// The spec value of an executable match result.
pub open spec fn view_outcome(res: Option<(usize, Vec<Span>)>) -> Outcome {
    match res {
        Some((n, caps)) => Some((n as nat, caps@)),
        None => None,
    }
}

/// A successful result ends at or before `len`.
pub open spec fn ends_within(res: Option<(usize, Vec<Span>)>, pos: int, len: int) -> bool {
    match res {
        Some((n, _)) => pos + n <= len,
        None => true,
    }
}

pub fn is_alpha_char(c: char) -> (r: bool)
    ensures
        r == is_alpha(c),
{
    ('a' <= c && c <= 'z') || ('A' <= c && c <= 'Z')
}

pub fn is_digit_char(c: char) -> (r: bool)
    ensures
        r == is_digit(c),
{
    '0' <= c && c <= '9'
}

pub fn is_space_char(c: char) -> (r: bool)
    ensures
        r == is_space(c),
{
    ('\u{9}' <= c && c <= '\u{d}') || c == ' ' || c == '\u{85}' || c == '\u{a0}' || c == '\u{1680}'
        || ('\u{2000}' <= c && c <= '\u{200a}') || c == '\u{2028}' || c == '\u{2029}' || c
        == '\u{202f}' || c == '\u{205f}' || c == '\u{3000}'
}

fn leaf_at(pos: usize, n: usize) -> (res: Option<(usize, Vec<Span>)>)
    requires
        pos + n <= usize::MAX,
    ensures
        view_outcome(res) == leaf(pos as int, n as nat),
        ends_within(res, pos as int, pos + n),
{
    let mut caps: Vec<Span> = Vec::new();
    caps.push((pos, pos + n));
    assert(caps@ =~= seq![(pos as int as usize, (pos + n) as usize)]);
    Some((n, caps))
}

fn literal_at(lit: &Vec<char>, text: &[char], pos: usize) -> (res: Option<(usize, Vec<Span>)>)
    requires
        pos <= text@.len(),
    ensures
        view_outcome(res) == literal_outcome(lit@, text@, pos as int),
        ends_within(res, pos as int, text@.len() as int),
{
    if lit.len() > text.len() - pos {
        return None;
    }
    let mut i: usize = 0;
    while i < lit.len()
        invariant
            i <= lit@.len(),
            pos + lit@.len() <= text@.len(),
            text@.len() == text.len(),
            forall|j: int| 0 <= j < i ==> text@[pos + j] == lit@[j],
        decreases lit@.len() - i,
    {
        if text[pos + i] != lit[i] {
            assert(text@.subrange(pos as int, pos + lit@.len())[i as int] != lit@[i as int]);
            return None;
        }
        i += 1;
    }
    assert(text@.subrange(pos as int, pos + lit@.len()) =~= lit@);
    leaf_at(pos, lit.len())
}

fn number_at(text: &[char], pos: usize) -> (res: Option<(usize, Vec<Span>)>)
    requires
        pos <= text@.len(),
    ensures
        view_outcome(res) == (if digit_run(text@, pos as int) > 0 {
            leaf(pos as int, digit_run(text@, pos as int))
        } else {
            None
        }),
        ends_within(res, pos as int, text@.len() as int),
{
    let mut end = pos;
    while end < text.len() && is_digit_char(text[end])
        invariant
            pos <= end <= text@.len(),
            digit_run(text@, pos as int) == (end - pos) + digit_run(text@, end as int),
        decreases text@.len() - end,
    {
        end += 1;
    }
    if end > pos {
        leaf_at(pos, end - pos)
    } else {
        None
    }
}

/// Matches `r` at position `pos` of `text`.
pub fn outcome_at(r: &Rule, text: &[char], pos: usize) -> (res: Option<(usize, Vec<Span>)>)
    requires
        pos <= text@.len(),
    ensures
        view_outcome(res) == outcome(*r, text@, pos as int),
        ends_within(res, pos as int, text@.len() as int),
    decreases *r, 1int,
{
    match r {
        Rule::Literal(lit) => literal_at(lit, text, pos),
        Rule::AnyChar => if pos < text.len() {
            leaf_at(pos, 1)
        } else {
            None
        },
        Rule::Alpha => if pos < text.len() && is_alpha_char(text[pos]) {
            leaf_at(pos, 1)
        } else {
            None
        },
        Rule::Digit => if pos < text.len() && is_digit_char(text[pos]) {
            leaf_at(pos, 1)
        } else {
            None
        },
        Rule::Number => number_at(text, pos),
        Rule::Range(lo, hi) => if pos < text.len() && *lo <= text[pos] && text[pos] <= *hi {
            leaf_at(pos, 1)
        } else {
            None
        },
        Rule::Space => if pos < text.len() && is_space_char(text[pos]) {
            leaf_at(pos, 1)
        } else {
            None
        },
        Rule::Sequence(rules) => sequence_at(r, rules, text, pos),
        Rule::Repeat(m) => {
            let (n, caps) = repeat_at(r, m, text, pos);
            Some((n, caps))
        },
        Rule::Repeat1(m) => {
            let (n, caps) = repeat_at(r, m, text, pos);
            if n > 0 {
                Some((n, caps))
            } else {
                None
            }
        },
        Rule::Optional(m) => match outcome_at(m, text, pos) {
            Some(o) => Some(o),
            None => Some((0, Vec::new())),
        },
        Rule::RepeatUntil(m, u) => until_at(r, m, u, text, pos),
        Rule::Select(rules) => select_at(r, rules, text, pos),
    }
}

fn sequence_at(r: &Rule, rules: &Vec<Rule>, text: &[char], pos: usize) -> (res: Option<
    (usize, Vec<Span>),
>)
    requires
        pos <= text@.len(),
        *r == Rule::Sequence(*rules),
    ensures
        view_outcome(res) == sequence_outcome(rules@, 0, text@, pos as int),
        ends_within(res, pos as int, text@.len() as int),
    decreases *r, 0int,
{
    let ghost t = text@;
    let mut caps: Vec<Span> = Vec::new();
    let mut idx = pos;
    let mut i: usize = 0;
    while i < rules.len()
        invariant
            pos <= idx <= t.len(),
            i <= rules@.len(),
            t == text@,
            t.len() == text.len(),
            *r == Rule::Sequence(*rules),
            sequence_outcome(rules@, 0, t, pos as int) == prepend(
                (idx - pos) as nat,
                caps@,
                sequence_outcome(rules@, i as int, t, idx as int),
            ),
        decreases rules@.len() - i,
    {
        proof {
            assert(decreases_to!(*r => r->Sequence_0));
            assert(decreases_to!(*rules => rules@));
            assert(decreases_to!(rules@ => rules@[i as int]));
        }
        match outcome_at(&rules[i], text, idx) {
            Some((n, c)) => {
                proof {
                    lemma_prepend_twice((idx - pos) as nat, caps@, n as nat, c@, sequence_outcome(rules@, i + 1, t, idx + n));
                }
                let mut c = c;
                caps.append(&mut c);
                idx = idx + n;
                i = i + 1;
            },
            None => {
                return None;
            },
        }
    }
    proof {
        lemma_prepend_empty((idx - pos) as nat, caps@);
    }
    Some((idx - pos, caps))
}

fn select_at(r: &Rule, rules: &Vec<Rule>, text: &[char], pos: usize) -> (res: Option<
    (usize, Vec<Span>),
>)
    requires
        pos <= text@.len(),
        *r == Rule::Select(*rules),
    ensures
        view_outcome(res) == select_outcome(rules@, 0, text@, pos as int),
        ends_within(res, pos as int, text@.len() as int),
    decreases *r, 0int,
{
    let mut i: usize = 0;
    while i < rules.len()
        invariant
            pos <= text@.len(),
            i <= rules@.len(),
            *r == Rule::Select(*rules),
            select_outcome(rules@, 0, text@, pos as int) == select_outcome(rules@, i as int, text@, pos as int),
        decreases rules@.len() - i,
    {
        proof {
            assert(decreases_to!(*r => r->Select_0));
            assert(decreases_to!(*rules => rules@));
            assert(decreases_to!(rules@ => rules@[i as int]));
        }
        let o = outcome_at(&rules[i], text, pos);
        if o.is_some() {
            return o;
        }
        i = i + 1;
    }
    None
}

fn repeat_at(r: &Rule, m: &Rule, text: &[char], pos: usize) -> (res: (usize, Vec<Span>))
    requires
        pos <= text@.len(),
        *r == Rule::Repeat(Box::new(*m)) || *r == Rule::Repeat1(Box::new(*m)),
    ensures
        (res.0 as nat, res.1@) == repeat_outcome(*r, text@, pos as int),
        pos + res.0 <= text@.len(),
    decreases *r, 0int,
{
    let ghost t = text@;
    let mut caps: Vec<Span> = Vec::new();
    let mut idx = pos;
    loop
        invariant
            pos <= idx <= t.len(),
            t == text@,
            t.len() == text.len(),
            *r == Rule::Repeat(Box::new(*m)) || *r == Rule::Repeat1(Box::new(*m)),
            repeat_outcome(*r, t, pos as int) == (
                ((idx - pos) + repeat_outcome(*r, t, idx as int).0) as nat,
                caps@ + repeat_outcome(*r, t, idx as int).1,
            ),
        ensures
            pos <= idx <= t.len(),
            repeat_outcome(*r, t, idx as int) == (0nat, Seq::<Span>::empty()),
            repeat_outcome(*r, t, pos as int) == ((idx - pos) as nat, caps@ + Seq::<Span>::empty()),
        decreases t.len() - idx,
    {
        match outcome_at(m, text, idx) {
            Some((n, c)) => {
                if n == 0 {
                    break;
                }
                let ghost rest = repeat_outcome(*r, t, idx + n);
                assert(caps@ + (c@ + rest.1) =~= (caps@ + c@) + rest.1);
                let mut c = c;
                caps.append(&mut c);
                idx = idx + n;
            },
            None => {
                break;
            },
        }
    }
    assert(caps@ + seq![] =~= caps@);
    (idx - pos, caps)
}

fn until_at(r: &Rule, m: &Rule, u: &Rule, text: &[char], pos: usize) -> (res: Option<
    (usize, Vec<Span>),
>)
    requires
        pos <= text@.len(),
        *r == Rule::RepeatUntil(Box::new(*m), Box::new(*u)),
    ensures
        view_outcome(res) == until_outcome(*r, text@, pos as int),
        ends_within(res, pos as int, text@.len() as int),
    decreases *r, 0int,
{
    let ghost t = text@;
    let mut caps: Vec<Span> = Vec::new();
    let mut idx = pos;
    loop
        invariant
            pos <= idx <= t.len(),
            t == text@,
            t.len() == text.len(),
            *r == Rule::RepeatUntil(Box::new(*m), Box::new(*u)),
            until_outcome(*r, t, pos as int) == prepend(
                (idx - pos) as nat,
                caps@,
                until_outcome(*r, t, idx as int),
            ),
        decreases t.len() - idx,
    {
        if let Some((n, c)) = outcome_at(u, text, idx) {
            proof {
                lemma_prepend_twice((idx - pos) as nat, caps@, n as nat, c@, Some((0, seq![])));
                lemma_prepend_empty(n as nat, c@);
            }
            let mut c = c;
            caps.append(&mut c);
            return Some((idx - pos + n, caps));
        }
        match outcome_at(m, text, idx) {
            Some((n, c)) => {
                if n == 0 {
                    return None;
                }
                proof {
                    lemma_prepend_twice((idx - pos) as nat, caps@, n as nat, c@, until_outcome(*r, t, idx + n));
                }
                let mut c = c;
                caps.append(&mut c);
                idx = idx + n;
            },
            None => {
                return None;
            },
        }
    }
}

} // verus!
