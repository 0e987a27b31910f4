//! Reference semantics of the generated matchers.
//!
//! A generated raw matcher is a pure function of an input text and a start
//! offset. `eval` states that function mathematically, one case per
//! combinator. Matching can recurse through rule references without bound
//! (and a repetition can loop on a zero-width match), so `eval` carries a
//! fuel that is spent on rule calls and repetition steps; `Step::Stuck`
//! means the fuel ran out, a rule reference did not resolve, or the
//! expression has no generated meaning at all (an unimplemented
//! combinator, or a choice with no alternatives). Offsets are character
//! indices into the input.
use vstd::prelude::*;

use crate::ast::CharSetCase;
use crate::ast::Expr;
use crate::ast::Grammar;
use crate::ast::Rule;
use crate::ast::TaggedExpr;

verus! {

/// The value a matcher hands back on success. Host-language action code is
/// opaque to the compiler, so the value of an action records what that code
/// is given: the exact matched substring and the values bound by name, in
/// order.
pub enum ValueV {
    Unit,
    Absent,
    Present(Box<ValueV>),
    List(Seq<ValueV>),
    Act { matched: Seq<char>, bound: Seq<ValueV> },
}

/// Outcome of one matching attempt: success with the offset one past the
/// match and the matched value, failure at the offset where matching
/// stopped, or no verdict (`Stuck`).
pub enum Step {
    Stuck,
    Fail(int),
    Match(int, ValueV),
}

/// The first rule carrying the given name, as rule references resolve
/// (duplicate names are an unchecked authoring error).
pub open spec fn lookup_rule(rules: Seq<Rule>, name: Seq<char>) -> Option<Rule>
    decreases rules.len(),
{
    if rules.len() == 0 {
        None
    } else if rules[0].name@ == name {
        Some(rules[0])
    } else {
        lookup_rule(rules.skip(1), name)
    }
}

/// Whether `c` lies in one of the inclusive ranges.
pub open spec fn in_ranges(c: char, cases: Seq<CharSetCase>) -> bool {
    exists|i: int| 0 <= i < cases.len() && (#[trigger] cases[i]).start <= c <= cases[i].end
}

/// The matcher semantics of one expression at offset `pos` of `input`.
pub open spec fn eval(g: Grammar, e: Expr, input: Seq<char>, pos: int, fuel: nat) -> Step
    decreases fuel, e, 0nat,
{
    match e {
        Expr::AnyCharExpr => if pos < input.len() {
            Step::Match(pos + 1, ValueV::Unit)
        } else {
            Step::Fail(pos)
        },
        Expr::LiteralExpr(s) => if pos + s@.len() <= input.len() && input.subrange(
            pos,
            pos + s@.len(),
        ) == s@ {
            Step::Match(pos + s@.len(), ValueV::Unit)
        } else {
            Step::Fail(pos)
        },
        Expr::CharSetExpr(invert, cases) => if pos < input.len() {
            if in_ranges(input[pos], cases@) != invert {
                Step::Match(pos + 1, ValueV::Unit)
            } else {
                Step::Fail(pos)
            }
        } else {
            Step::Fail(pos)
        },
        Expr::RuleExpr(name) => match lookup_rule(g.rules@, name@) {
            Some(r) => if fuel == 0 {
                Step::Stuck
            } else {
                eval(g, r.expr, input, pos, (fuel - 1) as nat)
            },
            None => Step::Stuck,
        },
        Expr::SequenceExpr(es) => if es@.len() == 0 {
            Step::Match(pos, ValueV::Unit)
        } else {
            eval_seq(g, es@, input, pos, fuel)
        },
        Expr::ChoiceExpr(es) => if es@.len() == 0 {
            Step::Stuck
        } else {
            eval_alts(g, es@, input, pos, fuel)
        },
        Expr::OptionalExpr(b) => match eval(g, *b, input, pos, fuel) {
            Step::Match(p, v) => Step::Match(p, ValueV::Present(Box::new(v))),
            Step::Fail(_) => Step::Match(pos, ValueV::Absent),
            Step::Stuck => Step::Stuck,
        },
        Expr::ZeroOrMore(b) => eval_star(g, *b, input, pos, fuel),
        Expr::OneOrMore(b) => match eval(g, *b, input, pos, fuel) {
            Step::Match(p, v) => match eval_star(g, *b, input, p, fuel) {
                Step::Match(end, ValueV::List(vs)) => Step::Match(
                    end,
                    ValueV::List(seq![v] + vs),
                ),
                _ => Step::Stuck,
            },
            Step::Fail(p) => Step::Fail(p),
            Step::Stuck => Step::Stuck,
        },
        Expr::PosAssertExpr(b) => match eval(g, *b, input, pos, fuel) {
            Step::Match(_, _) => Step::Match(pos, ValueV::Unit),
            Step::Fail(_) => Step::Fail(pos),
            Step::Stuck => Step::Stuck,
        },
        Expr::NegAssertExpr(b) => match eval(g, *b, input, pos, fuel) {
            Step::Match(_, _) => Step::Fail(pos),
            Step::Fail(_) => Step::Match(pos, ValueV::Unit),
            Step::Stuck => Step::Stuck,
        },
        Expr::DelimitedExpr(_, _) => Step::Stuck,
        Expr::StringifyExpr(_) => Step::Stuck,
        Expr::ActionExpr(tes, _) => eval_action(g, tes@, input, pos, pos, Seq::empty(), fuel),
    }
}

/// A non-empty sequence: each element must match where the previous one
/// stopped; the value is the last element's value.
pub open spec fn eval_seq(g: Grammar, es: Seq<Expr>, input: Seq<char>, pos: int, fuel: nat) -> Step
    recommends
        es.len() >= 1,
    decreases fuel, es, 0nat,
{
    if es.len() == 0 {
        Step::Stuck
    } else if es.len() == 1 {
        eval(g, es[0], input, pos, fuel)
    } else {
        match eval(g, es[0], input, pos, fuel) {
            Step::Match(p, _) => eval_seq(g, es.skip(1), input, p, fuel),
            Step::Fail(p) => Step::Fail(p),
            Step::Stuck => Step::Stuck,
        }
    }
}

/// A non-empty ordered choice: alternatives are tried left to right from
/// the same start offset; the first success wins, and on overall failure
/// the reported offset is the last alternative's.
pub open spec fn eval_alts(g: Grammar, es: Seq<Expr>, input: Seq<char>, pos: int, fuel: nat) -> Step
    recommends
        es.len() >= 1,
    decreases fuel, es, 0nat,
{
    if es.len() == 0 {
        Step::Stuck
    } else if es.len() == 1 {
        eval(g, es[0], input, pos, fuel)
    } else {
        match eval(g, es[0], input, pos, fuel) {
            Step::Match(p, v) => Step::Match(p, v),
            Step::Fail(_) => eval_alts(g, es.skip(1), input, pos, fuel),
            Step::Stuck => Step::Stuck,
        }
    }
}

/// Repetition: attempt `e` from the current offset until it fails, then
/// succeed with the accumulated values. Never fails; each completed step
/// costs one fuel, so a diverging repetition ends `Stuck`.
pub open spec fn eval_star(g: Grammar, e: Expr, input: Seq<char>, pos: int, fuel: nat) -> Step
    decreases fuel, e, 1nat,
{
    match eval(g, e, input, pos, fuel) {
        Step::Fail(_) => Step::Match(pos, ValueV::List(Seq::empty())),
        Step::Stuck => Step::Stuck,
        Step::Match(p, v) => if fuel == 0 {
            Step::Stuck
        } else {
            match eval_star(g, e, input, p, (fuel - 1) as nat) {
                Step::Match(end, ValueV::List(vs)) => Step::Match(
                    end,
                    ValueV::List(seq![v] + vs),
                ),
                _ => Step::Stuck,
            }
        },
    }
}

/// The body of an action: the tagged expressions match in sequence exactly
/// as `eval_seq`; the values of the name-carrying ones accumulate in
/// `bound`, and on success the action's value records them together with
/// the substring from `start` to the final offset.
pub open spec fn eval_action(
    g: Grammar,
    tes: Seq<TaggedExpr>,
    input: Seq<char>,
    pos: int,
    start: int,
    bound: Seq<ValueV>,
    fuel: nat,
) -> Step
    decreases fuel, tes, 0nat,
{
    if tes.len() == 0 {
        Step::Match(pos, ValueV::Act { matched: input.subrange(start, pos), bound })
    } else {
        match eval(g, tes[0].expr, input, pos, fuel) {
            Step::Match(p, v) => eval_action(
                g,
                tes.skip(1),
                input,
                p,
                start,
                if tes[0].name is Some {
                    bound.push(v)
                } else {
                    bound
                },
                fuel,
            ),
            Step::Fail(p) => Step::Fail(p),
            Step::Stuck => Step::Stuck,
        }
    }
}

/// The raw matcher of the named rule: its expression evaluated as the
/// generated `parse_<name>` procedure would.
pub open spec fn eval_rule(g: Grammar, name: Seq<char>, input: Seq<char>, pos: int, fuel: nat) -> Step {
    match lookup_rule(g.rules@, name) {
        Some(r) => eval(g, r.expr, input, pos, fuel),
        None => Step::Stuck,
    }
}

/// Outcome of a rule's public whole-input entry point: the raw matcher's
/// value if it consumed the entire input, a trailing-characters error if it
/// succeeded short of the end, or the failure offset it reported.
pub enum EntryStep {
    Stuck,
    Value(ValueV),
    Trailing,
    ErrorAt(int),
}

pub open spec fn eval_entry(g: Grammar, name: Seq<char>, input: Seq<char>, fuel: nat) -> EntryStep {
    match eval_rule(g, name, input, 0, fuel) {
        Step::Match(end, v) => if end == input.len() {
            EntryStep::Value(v)
        } else {
            EntryStep::Trailing
        },
        Step::Fail(p) => EntryStep::ErrorAt(p),
        Step::Stuck => EntryStep::Stuck,
    }
}

} // verus!
