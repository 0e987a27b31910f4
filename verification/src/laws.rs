//! The combinator laws: what each combinator's matcher guarantees, stated
//! and proved over the reference semantics.
use vstd::prelude::*;

use crate::ast::CharSetCase;
use crate::ast::Expr;
use crate::ast::Grammar;
use crate::ast::TaggedExpr;
use crate::matcher::lemma_eval_bounds;
use crate::matcher::lemma_star_shape;
use crate::semantics::EntryStep;
use crate::semantics::Step;
use crate::semantics::ValueV;
use crate::semantics::eval;
use crate::semantics::eval_alts;
use crate::semantics::eval_entry;
use crate::semantics::eval_rule;
use crate::semantics::eval_seq;
use crate::semantics::eval_action;
use crate::semantics::eval_star;
use crate::semantics::lookup_rule;
use crate::semantics::in_ranges;

verus! {

/// A literal succeeds at `pos` exactly when the slice of its length
/// starting there equals it, advancing past it; otherwise it fails at
/// `pos`.
pub proof fn lemma_literal_exact(g: Grammar, s: String, input: Seq<char>, pos: int, fuel: nat)
    ensures
        pos + s@.len() <= input.len() && input.subrange(pos, pos + s@.len()) == s@ ==> eval(
            g,
            Expr::LiteralExpr(s),
            input,
            pos,
            fuel,
        ) == Step::Match(pos + s@.len(), ValueV::Unit),
        !(pos + s@.len() <= input.len() && input.subrange(pos, pos + s@.len()) == s@) ==> eval(
            g,
            Expr::LiteralExpr(s),
            input,
            pos,
            fuel,
        ) == Step::Fail(pos),
{
}

/// A character set consumes exactly one character when the decoded
/// character's membership equals the invert flag's complement, and
/// otherwise fails at `pos` without consuming anything.
pub proof fn lemma_charset_membership(
    g: Grammar,
    invert: bool,
    cases: Vec<CharSetCase>,
    input: Seq<char>,
    pos: int,
    fuel: nat,
)
    requires
        pos >= 0,
    ensures
        eval(g, Expr::CharSetExpr(invert, cases), input, pos, fuel) == (if pos < input.len()
            && in_ranges(input[pos], cases@) != invert {
            Step::Match(pos + 1, ValueV::Unit)
        } else {
            Step::Fail(pos)
        }),
{
}

/// With the invert flag set, the membership test is the exact complement:
/// at an in-range position, the inverted set succeeds exactly where the
/// plain set fails.
pub proof fn lemma_charset_complement(
    g: Grammar,
    cases: Vec<CharSetCase>,
    input: Seq<char>,
    pos: int,
    fuel: nat,
)
    requires
        0 <= pos < input.len(),
    ensures
        eval(g, Expr::CharSetExpr(true, cases), input, pos, fuel) is Match <==> eval(
            g,
            Expr::CharSetExpr(false, cases),
            input,
            pos,
            fuel,
        ) is Fail,
{
}

/// Ordered choice: when the first alternative succeeds, the whole choice
/// returns exactly its outcome — later alternatives are never attempted.
pub proof fn lemma_choice_first_wins(
    g: Grammar,
    es: Vec<Expr>,
    input: Seq<char>,
    pos: int,
    fuel: nat,
)
    requires
        es@.len() >= 1,
        eval(g, es@[0], input, pos, fuel) is Match,
    ensures
        eval(g, Expr::ChoiceExpr(es), input, pos, fuel) == eval(g, es@[0], input, pos, fuel),
{
    assert(eval(g, Expr::ChoiceExpr(es), input, pos, fuel) == eval_alts(
        g,
        es@,
        input,
        pos,
        fuel,
    ));
    if es@.len() > 1 {
        assert(eval_alts(g, es@, input, pos, fuel) == eval(g, es@[0], input, pos, fuel));
    }
}

/// On overall failure of a choice, the reported offset is whatever the
/// last attempted alternative reported.
pub proof fn lemma_choice_last_failure(
    g: Grammar,
    es: Seq<Expr>,
    input: Seq<char>,
    pos: int,
    fuel: nat,
)
    requires
        es.len() >= 1,
        eval_alts(g, es, input, pos, fuel) is Fail,
    ensures
        eval_alts(g, es, input, pos, fuel) == eval(g, es.last(), input, pos, fuel),
    decreases es.len(),
{
    if es.len() > 1 {
        match eval(g, es[0], input, pos, fuel) {
            Step::Fail(_) => {
                lemma_choice_last_failure(g, es.skip(1), input, pos, fuel);
                assert(es.skip(1).last() == es.last());
            },
            _ => {},
        }
    }
}

/// The number of consecutive successful attempts of `e` starting at `pos`,
/// one fuel per step.
pub open spec fn star_count(g: Grammar, e: Expr, input: Seq<char>, pos: int, fuel: nat) -> nat
    decreases fuel,
{
    match eval(g, e, input, pos, fuel) {
        Step::Match(p, _) => if fuel == 0 {
            0
        } else {
            1 + star_count(g, e, input, p, (fuel - 1) as nat)
        },
        _ => 0,
    }
}

/// Repetition never fails, and when it completes, its accumulated sequence
/// has exactly one element per successful attempt before the first
/// failure.
pub proof fn lemma_zero_or_more_total(g: Grammar, b: Box<Expr>, input: Seq<char>, pos: int, fuel: nat)
    ensures
        !(eval(g, Expr::ZeroOrMore(b), input, pos, fuel) is Fail),
        eval(g, Expr::ZeroOrMore(b), input, pos, fuel) matches Step::Match(_, v) ==> v matches
            ValueV::List(vs) && vs.len() == star_count(g, *b, input, pos, fuel),
{
    lemma_star_shape(g, *b, input, pos, fuel);
    lemma_star_count(g, *b, input, pos, fuel);
}

/// The accumulated sequence of `eval_star` counts its successful steps.
pub proof fn lemma_star_count(g: Grammar, e: Expr, input: Seq<char>, pos: int, fuel: nat)
    ensures
        eval_star(g, e, input, pos, fuel) matches Step::Match(_, v) ==> v matches ValueV::List(vs)
            && vs.len() == star_count(g, e, input, pos, fuel),
    decreases fuel,
{
    lemma_star_shape(g, e, input, pos, fuel);
    match eval(g, e, input, pos, fuel) {
        Step::Match(p, _) => {
            if fuel > 0 {
                lemma_star_count(g, e, input, p, (fuel - 1) as nat);
                lemma_star_shape(g, e, input, p, (fuel - 1) as nat);
            }
        },
        _ => {},
    }
}

/// One-or-more fails exactly when its first attempt fails, at that
/// attempt's offset; on success its sequence is the first value followed
/// by the zero-or-more continuation, so it has at least one element.
pub proof fn lemma_one_or_more(g: Grammar, b: Box<Expr>, input: Seq<char>, pos: int, fuel: nat)
    ensures
        eval(g, Expr::OneOrMore(b), input, pos, fuel) is Fail <==> eval(g, *b, input, pos, fuel)
            is Fail,
        eval(g, *b, input, pos, fuel) is Fail ==> eval(g, Expr::OneOrMore(b), input, pos, fuel)
            == eval(g, *b, input, pos, fuel),
        eval(g, *b, input, pos, fuel) matches Step::Match(p, v) ==> (match eval(
            g,
            Expr::ZeroOrMore(b),
            input,
            p,
            fuel,
        ) {
            Step::Match(end, ValueV::List(vs)) => eval(g, Expr::OneOrMore(b), input, pos, fuel)
                == Step::Match(end, ValueV::List(seq![v] + vs)) && (seq![v] + vs).len() >= 1,
            _ => eval(g, Expr::OneOrMore(b), input, pos, fuel) is Stuck,
        }),
{
    lemma_star_shape(g, *b, input, pos, fuel);
    match eval(g, *b, input, pos, fuel) {
        Step::Match(p, v) => {
            lemma_star_shape(g, *b, input, p, fuel);
        },
        _ => {},
    }
}

/// An optional expression never fails: it wraps a success as present at
/// the inner match's offset, and turns a failure into an absent success at
/// the original offset, consuming nothing.
pub proof fn lemma_optional(g: Grammar, b: Box<Expr>, input: Seq<char>, pos: int, fuel: nat)
    ensures
        !(eval(g, Expr::OptionalExpr(b), input, pos, fuel) is Fail),
        eval(g, *b, input, pos, fuel) matches Step::Match(p, v) ==> eval(
            g,
            Expr::OptionalExpr(b),
            input,
            pos,
            fuel,
        ) == Step::Match(p, ValueV::Present(Box::new(v))),
        eval(g, *b, input, pos, fuel) is Fail ==> eval(g, Expr::OptionalExpr(b), input, pos, fuel)
            == Step::Match(pos, ValueV::Absent),
{
}

/// Lookahead assertions never consume input: whatever the tested
/// expression does, the outcome sits at the original offset. The positive
/// form succeeds exactly when the expression matches, the negative form
/// exactly when it fails.
pub proof fn lemma_lookahead(g: Grammar, b: Box<Expr>, input: Seq<char>, pos: int, fuel: nat)
    ensures
        eval(g, *b, input, pos, fuel) is Match ==> eval(g, Expr::PosAssertExpr(b), input, pos, fuel)
            == Step::Match(pos, ValueV::Unit) && eval(g, Expr::NegAssertExpr(b), input, pos, fuel)
            == Step::Fail(pos),
        eval(g, *b, input, pos, fuel) is Fail ==> eval(g, Expr::PosAssertExpr(b), input, pos, fuel)
            == Step::Fail(pos) && eval(g, Expr::NegAssertExpr(b), input, pos, fuel) == Step::Match(
            pos,
            ValueV::Unit,
        ),
{
}

/// When every element of a sequence succeeds, the sequence's value is the
/// last element's value: there is an offset at which the last element
/// matched with exactly the sequence's overall outcome.
pub proof fn lemma_sequence_value(g: Grammar, es: Seq<Expr>, input: Seq<char>, pos: int, fuel: nat)
    requires
        es.len() >= 1,
        eval_seq(g, es, input, pos, fuel) is Match,
    ensures
        exists|p: int|
            eval(g, es.last(), input, p, fuel) == eval_seq(g, es, input, pos, fuel),
    decreases es.len(),
{
    if es.len() == 1 {
        assert(eval(g, es.last(), input, pos, fuel) == eval_seq(g, es, input, pos, fuel));
    } else {
        match eval(g, es[0], input, pos, fuel) {
            Step::Match(p, _) => {
                lemma_sequence_value(g, es.skip(1), input, p, fuel);
                assert(es.skip(1).last() == es.last());
            },
            _ => {},
        }
    }
}

/// A sequence aborts on the first failing element with that element's
/// failure offset, producing no value.
pub proof fn lemma_sequence_first_failure(
    g: Grammar,
    es: Vec<Expr>,
    input: Seq<char>,
    pos: int,
    fuel: nat,
)
    requires
        es@.len() >= 1,
        eval(g, es@[0], input, pos, fuel) is Fail,
    ensures
        eval(g, Expr::SequenceExpr(es), input, pos, fuel) == eval(g, es@[0], input, pos, fuel),
{
    assert(eval(g, Expr::SequenceExpr(es), input, pos, fuel) == eval_seq(g, es@, input, pos, fuel));
    if es@.len() > 1 {
        assert(eval_seq(g, es@, input, pos, fuel) == eval(g, es@[0], input, pos, fuel));
    }
}

/// Round trip between a rule's raw matcher and its public entry: whenever
/// the raw matcher consumes the whole input, the entry returns exactly the
/// value the raw matcher produced; a success short of the end is the
/// trailing-characters error, and a failure surfaces its offset.
pub proof fn lemma_entry_round_trip(g: Grammar, name: Seq<char>, input: Seq<char>, fuel: nat)
    ensures
        eval_rule(g, name, input, 0, fuel) matches Step::Match(end, v) ==> (if end == input.len() {
            eval_entry(g, name, input, fuel) == EntryStep::Value(v)
        } else {
            eval_entry(g, name, input, fuel) == EntryStep::Trailing
        }),
        eval_rule(g, name, input, 0, fuel) matches Step::Fail(p) ==> eval_entry(g, name, input, fuel)
            == EntryStep::ErrorAt(p),
{
}

/// A repetition whose body is never stuck and strictly advances on every
/// success cannot run forever: with one fuel per remaining input slot the
/// loop's outcome is decided, so the generated repeat loop terminates on
/// such bodies.
pub proof fn lemma_star_terminates(g: Grammar, e: Expr, input: Seq<char>, pos: int, fuel: nat)
    requires
        0 <= pos <= input.len(),
        fuel >= input.len() - pos + 1,
        forall|p: int, f: nat|
            0 <= p <= input.len() && f <= fuel ==> !(#[trigger] eval(g, e, input, p, f) is Stuck),
        forall|p: int, f: nat|
            0 <= p <= input.len() && f <= fuel ==> (#[trigger] eval(g, e, input, p, f) matches
            Step::Match(q, _) ==> q > p),
    ensures
        !(eval_star(g, e, input, pos, fuel) is Stuck),
    decreases fuel,
{
    match eval(g, e, input, pos, fuel) {
        Step::Match(p2, _) => {
            lemma_eval_bounds(g, e, input, pos, fuel);
            assert(pos < p2 <= input.len());
            assert(fuel >= 1);
            lemma_star_terminates(g, e, input, p2, (fuel - 1) as nat);
            lemma_star_shape(g, e, input, p2, (fuel - 1) as nat);
        },
        Step::Fail(_) => {},
        Step::Stuck => {
            assert(!(eval(g, e, input, pos, fuel) is Stuck));
        },
    }
}

/// Rule declaration order affects emission only, never resolution: two
/// grammars whose rule references resolve to the same rules give every
/// expression the same matcher semantics.
pub proof fn lemma_eval_resolution_only(
    g1: Grammar,
    g2: Grammar,
    e: Expr,
    input: Seq<char>,
    pos: int,
    fuel: nat,
)
    requires
        forall|n: Seq<char>| #[trigger] lookup_rule(g1.rules@, n) == lookup_rule(g2.rules@, n),
    ensures
        eval(g1, e, input, pos, fuel) == eval(g2, e, input, pos, fuel),
    decreases fuel, e, 0nat,
{
    match e {
        Expr::RuleExpr(name) => {
            assert(lookup_rule(g1.rules@, name@) == lookup_rule(g2.rules@, name@));
            match lookup_rule(g1.rules@, name@) {
                Some(r) => {
                    if fuel > 0 {
                        lemma_eval_resolution_only(g1, g2, r.expr, input, pos, (fuel - 1) as nat);
                    }
                },
                None => {},
            }
        },
        Expr::SequenceExpr(es) => {
            if es@.len() > 0 {
                lemma_eval_seq_resolution_only(g1, g2, es@, input, pos, fuel);
            }
        },
        Expr::ChoiceExpr(es) => {
            if es@.len() > 0 {
                lemma_eval_alts_resolution_only(g1, g2, es@, input, pos, fuel);
            }
        },
        Expr::OptionalExpr(b) => {
            lemma_eval_resolution_only(g1, g2, *b, input, pos, fuel);
        },
        Expr::ZeroOrMore(b) => {
            lemma_eval_star_resolution_only(g1, g2, *b, input, pos, fuel);
        },
        Expr::OneOrMore(b) => {
            lemma_eval_resolution_only(g1, g2, *b, input, pos, fuel);
            match eval(g1, *b, input, pos, fuel) {
                Step::Match(p, _) => {
                    lemma_eval_star_resolution_only(g1, g2, *b, input, p, fuel);
                },
                _ => {},
            }
        },
        Expr::PosAssertExpr(b) => {
            lemma_eval_resolution_only(g1, g2, *b, input, pos, fuel);
        },
        Expr::NegAssertExpr(b) => {
            lemma_eval_resolution_only(g1, g2, *b, input, pos, fuel);
        },
        Expr::ActionExpr(tes, _) => {
            lemma_eval_action_resolution_only(g1, g2, tes@, input, pos, pos, Seq::empty(), fuel);
        },
        _ => {},
    }
}

pub proof fn lemma_eval_seq_resolution_only(
    g1: Grammar,
    g2: Grammar,
    es: Seq<Expr>,
    input: Seq<char>,
    pos: int,
    fuel: nat,
)
    requires
        es.len() >= 1,
        forall|n: Seq<char>| #[trigger] lookup_rule(g1.rules@, n) == lookup_rule(g2.rules@, n),
    ensures
        eval_seq(g1, es, input, pos, fuel) == eval_seq(g2, es, input, pos, fuel),
    decreases fuel, es, 0nat,
{
    lemma_eval_resolution_only(g1, g2, es[0], input, pos, fuel);
    if es.len() > 1 {
        match eval(g1, es[0], input, pos, fuel) {
            Step::Match(p, _) => {
                lemma_eval_seq_resolution_only(g1, g2, es.skip(1), input, p, fuel);
            },
            _ => {},
        }
    }
}

pub proof fn lemma_eval_alts_resolution_only(
    g1: Grammar,
    g2: Grammar,
    es: Seq<Expr>,
    input: Seq<char>,
    pos: int,
    fuel: nat,
)
    requires
        es.len() >= 1,
        forall|n: Seq<char>| #[trigger] lookup_rule(g1.rules@, n) == lookup_rule(g2.rules@, n),
    ensures
        eval_alts(g1, es, input, pos, fuel) == eval_alts(g2, es, input, pos, fuel),
    decreases fuel, es, 0nat,
{
    lemma_eval_resolution_only(g1, g2, es[0], input, pos, fuel);
    if es.len() > 1 {
        lemma_eval_alts_resolution_only(g1, g2, es.skip(1), input, pos, fuel);
    }
}

pub proof fn lemma_eval_star_resolution_only(
    g1: Grammar,
    g2: Grammar,
    e: Expr,
    input: Seq<char>,
    pos: int,
    fuel: nat,
)
    requires
        forall|n: Seq<char>| #[trigger] lookup_rule(g1.rules@, n) == lookup_rule(g2.rules@, n),
    ensures
        eval_star(g1, e, input, pos, fuel) == eval_star(g2, e, input, pos, fuel),
    decreases fuel, e, 1nat,
{
    lemma_eval_resolution_only(g1, g2, e, input, pos, fuel);
    match eval(g1, e, input, pos, fuel) {
        Step::Match(p, _) => {
            if fuel > 0 {
                lemma_eval_star_resolution_only(g1, g2, e, input, p, (fuel - 1) as nat);
            }
        },
        _ => {},
    }
}

pub proof fn lemma_eval_action_resolution_only(
    g1: Grammar,
    g2: Grammar,
    tes: Seq<TaggedExpr>,
    input: Seq<char>,
    pos: int,
    start: int,
    bound: Seq<ValueV>,
    fuel: nat,
)
    requires
        forall|n: Seq<char>| #[trigger] lookup_rule(g1.rules@, n) == lookup_rule(g2.rules@, n),
    ensures
        eval_action(g1, tes, input, pos, start, bound, fuel) == eval_action(
            g2,
            tes,
            input,
            pos,
            start,
            bound,
            fuel,
        ),
    decreases fuel, tes, 0nat,
{
    if tes.len() > 0 {
        lemma_eval_resolution_only(g1, g2, tes[0].expr, input, pos, fuel);
        match eval(g1, tes[0].expr, input, pos, fuel) {
            Step::Match(p, v) => {
                lemma_eval_action_resolution_only(
                    g1,
                    g2,
                    tes.skip(1),
                    input,
                    p,
                    start,
                    if tes[0].name is Some {
                        bound.push(v)
                    } else {
                        bound
                    },
                    fuel,
                );
            },
            _ => {},
        }
    }
}

} // verus!
