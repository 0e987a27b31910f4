//! An executable matcher for the grammar IR, proved to return exactly what
//! the reference semantics in `semantics` prescribes. It plays the part of
//! the generated matchers: `run_rule` is a rule's raw matcher and
//! `parse_entry` its public whole-input entry point. Offsets are character
//! indices.
use vstd::prelude::*;
use vstd::string::StrSliceExecFns;
use vstd::string::StringExecFns;

use crate::ast::CharSetCase;
use crate::ast::Expr;
use crate::ast::Grammar;
use crate::ast::Rule;
use crate::ast::esize;
use crate::ast::esize_list;
use crate::ast::esize_tagged;
use crate::ast::lemma_esize_list_elem;
use crate::ast::lemma_esize_tagged_elem;
use crate::semantics::EntryStep;
use crate::semantics::Step;
use crate::semantics::ValueV;
use crate::semantics::eval;
use crate::semantics::eval_action;
use crate::semantics::eval_alts;
use crate::semantics::eval_entry;
use crate::semantics::eval_rule;
use crate::semantics::eval_seq;
use crate::semantics::eval_star;
use crate::semantics::in_ranges;
use crate::semantics::lookup_rule;

verus! {

/// A matched value, mirroring `ValueV`. An action's value carries the
/// matched substring and the values its named sub-expressions bound.
#[derive(Debug, PartialEq)]
pub enum Value {
    Unit,
    Absent,
    Present(Box<Value>),
    List(Vec<Value>),
    Act(String, Vec<Value>),
}

/// Outcome of one run of a raw matcher.
#[derive(Debug, PartialEq)]
pub enum MatchResult {
    Stuck,
    Fail(usize),
    Match(usize, Value),
}

pub open spec fn value_view(v: Value) -> ValueV
    decreases v,
{
    match v {
        Value::Unit => ValueV::Unit,
        Value::Absent => ValueV::Absent,
        Value::Present(b) => ValueV::Present(Box::new(value_view(*b))),
        Value::List(vs) => ValueV::List(values_view(vs@)),
        Value::Act(m, bs) => ValueV::Act { matched: m@, bound: values_view(bs@) },
    }
}

pub open spec fn values_view(vs: Seq<Value>) -> Seq<ValueV>
    decreases vs,
{
    if vs.len() == 0 {
        Seq::empty()
    } else {
        seq![value_view(vs[0])] + values_view(vs.skip(1))
    }
}

pub open spec fn step_of(r: MatchResult) -> Step {
    match r {
        MatchResult::Stuck => Step::Stuck,
        MatchResult::Fail(p) => Step::Fail(p as int),
        MatchResult::Match(p, v) => Step::Match(p as int, value_view(v)),
    }
}

pub proof fn lemma_values_view_push(vs: Seq<Value>, v: Value)
    ensures
        values_view(vs.push(v)) == values_view(vs) + seq![value_view(v)],
    decreases vs.len(),
{
    if vs.len() == 0 {
        assert(vs.push(v)[0] == v);
        assert(vs.push(v).skip(1) =~= Seq::<Value>::empty());
        assert(vs.push(v).skip(1) == Seq::<Value>::empty());
        assert(values_view(Seq::<Value>::empty()) == Seq::<ValueV>::empty());
        assert(values_view(vs.push(v)) == seq![value_view(v)] + Seq::<ValueV>::empty());
        assert(values_view(vs.push(v)) =~= values_view(vs) + seq![value_view(v)]);
    } else {
        assert(vs.push(v).skip(1) =~= vs.skip(1).push(v));
        lemma_values_view_push(vs.skip(1), v);
        assert(vs.push(v)[0] == vs[0]);
        assert(values_view(vs.push(v)) =~= values_view(vs) + seq![value_view(v)]);
    }
}

pub proof fn lemma_values_view_cons(v: Value, vs: Seq<Value>)
    ensures
        values_view(seq![v] + vs) == seq![value_view(v)] + values_view(vs),
{
    assert((seq![v] + vs)[0] == v);
    assert((seq![v] + vs).skip(1) =~= vs);
}

/// `eval_star` yields no verdict or a success carrying a list; it never
/// fails and never carries another shape of value.
pub proof fn lemma_star_shape(g: Grammar, e: Expr, input: Seq<char>, pos: int, fuel: nat)
    ensures
        eval_star(g, e, input, pos, fuel) is Stuck || (eval_star(g, e, input, pos, fuel) matches
        Step::Match(_, v) && v is List),
    decreases fuel,
{
    match eval(g, e, input, pos, fuel) {
        Step::Match(p, v) => {
            if fuel > 0 {
                lemma_star_shape(g, e, input, p, (fuel - 1) as nat);
            }
        },
        _ => {},
    }
}

/// Prepend already-accumulated values to the outcome of the rest of a
/// repetition.
pub open spec fn star_append(vs: Seq<ValueV>, s: Step) -> Step {
    match s {
        Step::Match(end, ValueV::List(ws)) => Step::Match(end, ValueV::List(vs + ws)),
        Step::Fail(p) => Step::Fail(p),
        _ => Step::Stuck,
    }
}

/// On an input slot within bounds, a successful match stops within bounds
/// and never moves backwards.
pub proof fn lemma_eval_bounds(g: Grammar, e: Expr, input: Seq<char>, pos: int, fuel: nat)
    requires
        0 <= pos <= input.len(),
    ensures
        eval(g, e, input, pos, fuel) matches Step::Match(p, _) ==> pos <= p <= input.len(),
    decreases fuel, e, 0nat,
{
    match e {
        Expr::RuleExpr(name) => {
            match lookup_rule(g.rules@, name@) {
                Some(r) => {
                    if fuel > 0 {
                        lemma_eval_bounds(g, r.expr, input, pos, (fuel - 1) as nat);
                    }
                },
                None => {},
            }
        },
        Expr::SequenceExpr(es) => {
            if es@.len() > 0 {
                lemma_eval_seq_bounds(g, es@, input, pos, fuel);
            }
        },
        Expr::ChoiceExpr(es) => {
            if es@.len() > 0 {
                lemma_eval_alts_bounds(g, es@, input, pos, fuel);
            }
        },
        Expr::OptionalExpr(b) => {
            lemma_eval_bounds(g, *b, input, pos, fuel);
        },
        Expr::ZeroOrMore(b) => {
            lemma_eval_star_bounds(g, *b, input, pos, fuel);
        },
        Expr::OneOrMore(b) => {
            lemma_eval_bounds(g, *b, input, pos, fuel);
            match eval(g, *b, input, pos, fuel) {
                Step::Match(p, _) => {
                    lemma_eval_star_bounds(g, *b, input, p, fuel);
                },
                _ => {},
            }
        },
        Expr::ActionExpr(tes, _) => {
            lemma_eval_action_bounds(g, tes@, input, pos, pos, Seq::empty(), fuel);
        },
        _ => {},
    }
}

pub proof fn lemma_eval_seq_bounds(g: Grammar, es: Seq<Expr>, input: Seq<char>, pos: int, fuel: nat)
    requires
        0 <= pos <= input.len(),
        es.len() >= 1,
    ensures
        eval_seq(g, es, input, pos, fuel) matches Step::Match(p, _) ==> pos <= p <= input.len(),
    decreases fuel, es, 0nat,
{
    lemma_eval_bounds(g, es[0], input, pos, fuel);
    if es.len() > 1 {
        match eval(g, es[0], input, pos, fuel) {
            Step::Match(p, _) => {
                lemma_eval_seq_bounds(g, es.skip(1), input, p, fuel);
            },
            _ => {},
        }
    }
}

pub proof fn lemma_eval_alts_bounds(g: Grammar, es: Seq<Expr>, input: Seq<char>, pos: int, fuel: nat)
    requires
        0 <= pos <= input.len(),
        es.len() >= 1,
    ensures
        eval_alts(g, es, input, pos, fuel) matches Step::Match(p, _) ==> pos <= p <= input.len(),
    decreases fuel, es, 0nat,
{
    lemma_eval_bounds(g, es[0], input, pos, fuel);
    if es.len() > 1 {
        lemma_eval_alts_bounds(g, es.skip(1), input, pos, fuel);
    }
}

pub proof fn lemma_eval_star_bounds(g: Grammar, e: Expr, input: Seq<char>, pos: int, fuel: nat)
    requires
        0 <= pos <= input.len(),
    ensures
        eval_star(g, e, input, pos, fuel) matches Step::Match(p, _) ==> pos <= p <= input.len(),
    decreases fuel, e, 1nat,
{
    lemma_eval_bounds(g, e, input, pos, fuel);
    match eval(g, e, input, pos, fuel) {
        Step::Match(p, _) => {
            if fuel > 0 {
                lemma_eval_star_bounds(g, e, input, p, (fuel - 1) as nat);
            }
        },
        _ => {},
    }
}

pub proof fn lemma_eval_action_bounds(
    g: Grammar,
    tes: Seq<crate::ast::TaggedExpr>,
    input: Seq<char>,
    pos: int,
    start: int,
    bound: Seq<ValueV>,
    fuel: nat,
)
    requires
        0 <= pos <= input.len(),
    ensures
        eval_action(g, tes, input, pos, start, bound, fuel) matches Step::Match(p, _) ==> pos <= p
            <= input.len(),
    decreases fuel, tes, 0nat,
{
    if tes.len() > 0 {
        lemma_eval_bounds(g, tes[0].expr, input, pos, fuel);
        match eval(g, tes[0].expr, input, pos, fuel) {
            Step::Match(p, v) => {
                lemma_eval_action_bounds(
                    g,
                    tes.skip(1),
                    input,
                    p,
                    start,
                    if tes[0].name is Some {
                        bound.push(v)
                    } else {
                        bound
                    },
                    fuel,
                );
            },
            _ => {},
        }
    }
}

/// The exact-slice-equality primitive of the generated preamble: does the
/// slice of `input` beginning at `pos` equal `m`?
pub fn slice_eq(input: &str, pos: usize, m: &str) -> (r: bool)
    requires
        pos <= input@.len(),
    ensures
        r == (pos + m@.len() <= input@.len() && input@.subrange(
            pos as int,
            pos + m@.len(),
        ) == m@),
{
    let n = input.unicode_len();
    let l = m.unicode_len();
    if n - pos < l {
        return false;
    }
    let mut i: usize = 0;
    while i < l
        invariant
            pos + l <= n,
            n == input@.len(),
            l == m@.len(),
            0 <= i <= l,
            forall|j: int| 0 <= j < i ==> input@[pos + j] == m@[j],
        decreases l - i,
    {
        if input.get_char(pos + i) != m.get_char(i) {
            assert(input@.subrange(pos as int, pos + m@.len())[i as int] != m@[i as int]);
            return false;
        }
        i += 1;
    }
    proof {
        assert(input@.subrange(pos as int, pos + m@.len()) =~= m@);
    }
    true
}

/// The single-character-consumption primitive of the generated preamble.
pub fn any_char(input: &str, pos: usize) -> (r: MatchResult)
    requires
        pos <= input@.len(),
    ensures
        step_of(r) == (if pos < input@.len() {
            Step::Match(pos + 1, ValueV::Unit)
        } else {
            Step::Fail(pos as int)
        }),
{
    if pos < input.unicode_len() {
        MatchResult::Match(pos + 1, Value::Unit)
    } else {
        MatchResult::Fail(pos)
    }
}

/// Membership of `c` in a list of inclusive ranges.
pub fn char_in_ranges(c: char, cases: &Vec<CharSetCase>) -> (r: bool)
    ensures
        r == in_ranges(c, cases@),
{
    let mut i: usize = 0;
    while i < cases.len()
        invariant
            0 <= i <= cases@.len(),
            forall|j: int| 0 <= j < i ==> !((#[trigger] cases@[j]).start <= c <= cases@[j].end),
        decreases cases@.len() - i,
    {
        if cases[i].start <= c && c <= cases[i].end {
            return true;
        }
        i += 1;
    }
    false
}

/// Character-for-character equality of two string slices.
pub fn str_eq(a: &str, b: &str) -> (r: bool)
    ensures
        r == (a@ == b@),
{
    let n = a.unicode_len();
    if n != b.unicode_len() {
        proof {
            assert(a@ != b@);
        }
        return false;
    }
    let mut i: usize = 0;
    while i < n
        invariant
            n == a@.len(),
            n == b@.len(),
            0 <= i <= n,
            forall|j: int| 0 <= j < i ==> a@[j] == b@[j],
        decreases n - i,
    {
        if a.get_char(i) != b.get_char(i) {
            return false;
        }
        i += 1;
    }
    proof {
        assert(a@ =~= b@);
    }
    true
}

/// First rule of the given name, as `lookup_rule` resolves it.
pub fn find_rule<'a>(g: &'a Grammar, name: &str) -> (r: Option<&'a Rule>)
    ensures
        match r {
            Some(rr) => lookup_rule(g.rules@, name@) == Some(*rr),
            None => lookup_rule(g.rules@, name@) is None,
        },
{
    let mut i: usize = 0;
    proof {
        assert(g.rules@.skip(0) =~= g.rules@);
    }
    while i < g.rules.len()
        invariant
            0 <= i <= g.rules@.len(),
            lookup_rule(g.rules@, name@) == lookup_rule(g.rules@.skip(i as int), name@),
        decreases g.rules@.len() - i,
    {
        proof {
            assert(g.rules@.skip(i as int)[0] == g.rules@[i as int]);
            assert(g.rules@.skip(i as int).skip(1) =~= g.rules@.skip(i + 1));
        }
        if str_eq(g.rules[i].name.as_str(), name) {
            return Some(&g.rules[i]);
        }
        i += 1;
    }
    None
}

/// Outcome of the repetition loop: no verdict, or the final offset with the
/// values accumulated in order.
pub enum StarResult {
    Stuck,
    Done(usize, Vec<Value>),
}

/// Run `e` at `pos`, returning exactly what `eval` prescribes.
pub fn run_expr(g: &Grammar, e: &Expr, input: &str, pos: usize, fuel: u64) -> (r: MatchResult)
    requires
        pos <= input@.len(),
    ensures
        step_of(r) == eval(*g, *e, input@, pos as int, fuel as nat),
    decreases fuel, esize(*e), 0nat,
{
    match e {
        Expr::AnyCharExpr => any_char(input, pos),
        Expr::LiteralExpr(s) => {
            if slice_eq(input, pos, s.as_str()) {
                let n = input.unicode_len();
                let l = s.as_str().unicode_len();
                MatchResult::Match(pos + l, Value::Unit)
            } else {
                MatchResult::Fail(pos)
            }
        },
        Expr::CharSetExpr(invert, cases) => {
            if pos < input.unicode_len() {
                let c = input.get_char(pos);
                if char_in_ranges(c, cases) != *invert {
                    MatchResult::Match(pos + 1, Value::Unit)
                } else {
                    MatchResult::Fail(pos)
                }
            } else {
                MatchResult::Fail(pos)
            }
        },
        Expr::RuleExpr(name) => {
            match find_rule(g, name.as_str()) {
                Some(r) => {
                    if fuel == 0 {
                        MatchResult::Stuck
                    } else {
                        run_expr(g, &r.expr, input, pos, fuel - 1)
                    }
                },
                None => MatchResult::Stuck,
            }
        },
        Expr::SequenceExpr(es) => {
            let n = es.len();
            if n == 0 {
                return MatchResult::Match(pos, Value::Unit);
            }
            let mut i: usize = 0;
            let mut cur = pos;
            proof {
                assert(es@.skip(0) =~= es@);
            }
            loop
                invariant
                    0 <= i < n,
                    n == es@.len(),
                    cur <= input@.len(),
                    pos <= input@.len(),
                    esize(*e) == 1 + esize_list(es@),
                    eval(*g, *e, input@, pos as int, fuel as nat) == eval_seq(
                        *g,
                        es@.skip(i as int),
                        input@,
                        cur as int,
                        fuel as nat,
                    ),
                decreases n - i,
            {
                proof {
                    lemma_esize_list_elem(es@, i as int);
                    assert(es@.skip(i as int)[0] == es@[i as int]);
                    assert(es@.skip(i as int).len() == n - i);
                }
                let r = run_expr(g, &es[i], input, cur, fuel);
                if i == n - 1 {
                    return r;
                }
                match r {
                    MatchResult::Match(p2, _) => {
                        proof {
                            assert(es@.skip(i as int).skip(1) =~= es@.skip(i + 1));
                            lemma_eval_bounds(*g, es@[i as int], input@, cur as int, fuel as nat);
                        }
                        cur = p2;
                        i += 1;
                    },
                    MatchResult::Fail(p) => {
                        return MatchResult::Fail(p);
                    },
                    MatchResult::Stuck => {
                        return MatchResult::Stuck;
                    },
                }
            }
        },
        Expr::ChoiceExpr(es) => {
            let n = es.len();
            if n == 0 {
                return MatchResult::Stuck;
            }
            let mut i: usize = 0;
            proof {
                assert(es@.skip(0) =~= es@);
            }
            loop
                invariant
                    0 <= i < n,
                    n == es@.len(),
                    pos <= input@.len(),
                    esize(*e) == 1 + esize_list(es@),
                    eval(*g, *e, input@, pos as int, fuel as nat) == eval_alts(
                        *g,
                        es@.skip(i as int),
                        input@,
                        pos as int,
                        fuel as nat,
                    ),
                decreases n - i,
            {
                proof {
                    lemma_esize_list_elem(es@, i as int);
                    assert(es@.skip(i as int)[0] == es@[i as int]);
                    assert(es@.skip(i as int).len() == n - i);
                }
                let r = run_expr(g, &es[i], input, pos, fuel);
                if i == n - 1 {
                    return r;
                }
                match r {
                    MatchResult::Fail(_) => {
                        proof {
                            assert(es@.skip(i as int).skip(1) =~= es@.skip(i + 1));
                        }
                        i += 1;
                    },
                    other => {
                        return other;
                    },
                }
            }
        },
        Expr::OptionalExpr(b) => {
            match run_expr(g, b, input, pos, fuel) {
                MatchResult::Match(p, v) => MatchResult::Match(p, Value::Present(Box::new(v))),
                MatchResult::Fail(_) => MatchResult::Match(pos, Value::Absent),
                MatchResult::Stuck => MatchResult::Stuck,
            }
        },
        Expr::ZeroOrMore(b) => {
            match run_star(g, b, input, pos, fuel) {
                StarResult::Stuck => MatchResult::Stuck,
                StarResult::Done(end, vs) => MatchResult::Match(end, Value::List(vs)),
            }
        },
        Expr::OneOrMore(b) => {
            match run_expr(g, b, input, pos, fuel) {
                MatchResult::Match(p, v) => {
                    proof {
                        lemma_eval_bounds(*g, **b, input@, pos as int, fuel as nat);
                        lemma_star_shape(*g, **b, input@, p as int, fuel as nat);
                    }
                    match run_star(g, b, input, p, fuel) {
                        StarResult::Stuck => MatchResult::Stuck,
                        StarResult::Done(end, mut vs) => {
                            proof {
                                lemma_values_view_cons(v, vs@);
                                assert(vs@.insert(0, v) =~= seq![v] + vs@);
                            }
                            vs.insert(0, v);
                            MatchResult::Match(end, Value::List(vs))
                        },
                    }
                },
                MatchResult::Fail(p) => MatchResult::Fail(p),
                MatchResult::Stuck => MatchResult::Stuck,
            }
        },
        Expr::PosAssertExpr(b) => {
            match run_expr(g, b, input, pos, fuel) {
                MatchResult::Match(_, _) => MatchResult::Match(pos, Value::Unit),
                MatchResult::Fail(_) => MatchResult::Fail(pos),
                MatchResult::Stuck => MatchResult::Stuck,
            }
        },
        Expr::NegAssertExpr(b) => {
            match run_expr(g, b, input, pos, fuel) {
                MatchResult::Match(_, _) => MatchResult::Fail(pos),
                MatchResult::Fail(_) => MatchResult::Match(pos, Value::Unit),
                MatchResult::Stuck => MatchResult::Stuck,
            }
        },
        Expr::DelimitedExpr(_, _) => MatchResult::Stuck,
        Expr::StringifyExpr(_) => MatchResult::Stuck,
        Expr::ActionExpr(tes, _) => {
            let n = tes.len();
            let mut i: usize = 0;
            let mut cur = pos;
            let mut bound: Vec<Value> = Vec::new();
            proof {
                assert(tes@.skip(0) =~= tes@);
            }
            while i < n
                invariant
                    0 <= i <= n,
                    n == tes@.len(),
                    pos <= cur <= input@.len(),
                    esize(*e) == 1 + esize_tagged(tes@),
                    eval(*g, *e, input@, pos as int, fuel as nat) == eval_action(
                        *g,
                        tes@.skip(i as int),
                        input@,
                        cur as int,
                        pos as int,
                        values_view(bound@),
                        fuel as nat,
                    ),
                decreases n - i,
            {
                proof {
                    lemma_esize_tagged_elem(tes@, i as int);
                    assert(tes@.skip(i as int)[0] == tes@[i as int]);
                }
                let r = run_expr(g, &tes[i].expr, input, cur, fuel);
                match r {
                    MatchResult::Match(p2, v) => {
                        proof {
                            assert(tes@.skip(i as int).skip(1) =~= tes@.skip(i + 1));
                            lemma_eval_bounds(*g, tes@[i as int].expr, input@, cur as int, fuel as nat);
                            lemma_values_view_push(bound@, v);
                            assert(values_view(bound@) + seq![value_view(v)] =~= values_view(
                                bound@,
                            ).push(value_view(v)));
                        }
                        if tes[i].name.is_some() {
                            bound.push(v);
                        }
                        cur = p2;
                        i += 1;
                    },
                    MatchResult::Fail(p) => {
                        return MatchResult::Fail(p);
                    },
                    MatchResult::Stuck => {
                        return MatchResult::Stuck;
                    },
                }
            }
            let matched = input.substring_char(pos, cur);
            MatchResult::Match(cur, Value::Act(String::from_str(matched), bound))
        },
    }
}

/// The repetition loop shared by `ZeroOrMore` and `OneOrMore`: run `e`
/// repeatedly until it fails, as `eval_star` prescribes.
pub fn run_star(g: &Grammar, e: &Expr, input: &str, pos: usize, fuel: u64) -> (r: StarResult)
    requires
        pos <= input@.len(),
    ensures
        match r {
            StarResult::Stuck => eval_star(*g, *e, input@, pos as int, fuel as nat) is Stuck,
            StarResult::Done(end, vs) => eval_star(*g, *e, input@, pos as int, fuel as nat)
                == Step::Match(end as int, ValueV::List(values_view(vs@))),
        },
    decreases fuel, esize(*e), 1nat,
{
    let mut cur = pos;
    let mut f = fuel;
    let mut acc: Vec<Value> = Vec::new();
    loop
        invariant
            pos <= input@.len(),
            cur <= input@.len(),
            f <= fuel,
            eval_star(*g, *e, input@, pos as int, fuel as nat) == star_append(
                values_view(acc@),
                eval_star(*g, *e, input@, cur as int, f as nat),
            ),
        decreases f,
    {
        let r = run_expr(g, e, input, cur, f);
        match r {
            MatchResult::Fail(_) => {
                proof {
                    assert(values_view(acc@) + Seq::<ValueV>::empty() =~= values_view(acc@));
                }
                return StarResult::Done(cur, acc);
            },
            MatchResult::Stuck => {
                return StarResult::Stuck;
            },
            MatchResult::Match(p2, v) => {
                if f == 0 {
                    return StarResult::Stuck;
                }
                proof {
                    lemma_eval_bounds(*g, *e, input@, cur as int, f as nat);
                    lemma_star_shape(*g, *e, input@, p2 as int, (f - 1) as nat);
                    lemma_values_view_push(acc@, v);
                    match eval_star(*g, *e, input@, p2 as int, (f - 1) as nat) {
                        Step::Match(end, ValueV::List(ws)) => {
                            assert((values_view(acc@) + seq![value_view(v)]) + ws =~= values_view(
                                acc@,
                            ) + (seq![value_view(v)] + ws));
                        },
                        _ => {},
                    }
                }
                acc.push(v);
                cur = p2;
                f = f - 1;
            },
        }
    }
}

/// The raw matcher of the rule named `name`: its expression run at `pos`.
pub fn run_rule(g: &Grammar, name: &str, input: &str, pos: usize, fuel: u64) -> (r: MatchResult)
    requires
        pos <= input@.len(),
    ensures
        step_of(r) == eval_rule(*g, name@, input@, pos as int, fuel as nat),
{
    match find_rule(g, name) {
        Some(r) => run_expr(g, &r.expr, input, pos, fuel),
        None => MatchResult::Stuck,
    }
}

/// Outcome of a rule's public entry point.
#[derive(Debug, PartialEq)]
pub enum EntryResult {
    Stuck,
    Value(Value),
    Trailing,
    ErrorAt(usize),
}

pub open spec fn entry_of(r: EntryResult) -> EntryStep {
    match r {
        EntryResult::Stuck => EntryStep::Stuck,
        EntryResult::Value(v) => EntryStep::Value(value_view(v)),
        EntryResult::Trailing => EntryStep::Trailing,
        EntryResult::ErrorAt(p) => EntryStep::ErrorAt(p as int),
    }
}

/// The public whole-input entry point of the rule named `name`: its raw
/// matcher at offset 0, accepted only on full consumption; otherwise the
/// trailing-characters error, or the failure offset the matcher reported.
pub fn parse_entry(g: &Grammar, name: &str, input: &str, fuel: u64) -> (r: EntryResult)
    ensures
        entry_of(r) == eval_entry(*g, name@, input@, fuel as nat),
{
    match run_rule(g, name, input, 0, fuel) {
        MatchResult::Match(end, v) => {
            if end == input.unicode_len() {
                EntryResult::Value(v)
            } else {
                EntryResult::Trailing
            }
        },
        MatchResult::Fail(p) => EntryResult::ErrorAt(p),
        MatchResult::Stuck => EntryResult::Stuck,
    }
}

/// Decimal digits of `n`, most significant first.
pub open spec fn dec_digits(n: nat) -> Seq<char>
    decreases n,
{
    if n < 10 {
        seq![digit_char(n)]
    } else {
        dec_digits(n / 10).push(digit_char(n % 10))
    }
}

/// The character of one decimal digit.
pub open spec fn digit_char(d: nat) -> char {
    ((d + 48) as u8) as char
}

/// The fixed trailing-characters message of a public entry point.
pub open spec fn trailing_message() -> Seq<char> {
    "Unexpected characters at end of input"@
}

/// The offset-tagged failure message of a public entry point.
pub open spec fn error_at_message(p: nat) -> Seq<char> {
    "Error at "@ + dec_digits(p)
}

/// `n` in decimal.
fn usize_to_dec(n: usize) -> (r: String)
    ensures
        r@ == dec_digits(n as nat),
    decreases n,
{
    let d: u8 = (n % 10) as u8 + 48;
    let c = d as char;
    if n < 10 {
        let mut s = String::new();
        s.push(c);
        proof {
            assert(s@ =~= dec_digits(n as nat));
        }
        s
    } else {
        let mut s = usize_to_dec(n / 10);
        s.push(c);
        proof {
            assert(s@ =~= dec_digits(n as nat));
        }
        s
    }
}

impl EntryResult {
    /// The error message a public entry point reports: the fixed
    /// trailing-characters text, or the failure offset; none on success or
    /// when no verdict was reached.
    pub fn message(&self) -> (r: Option<String>)
        ensures
            match *self {
                EntryResult::Trailing => r matches Some(m) && m@ == trailing_message(),
                EntryResult::ErrorAt(p) => r matches Some(m) && m@ == error_at_message(p as nat),
                _ => r is None,
            },
    {
        match self {
            EntryResult::Trailing => Some(String::from_str("Unexpected characters at end of input")),
            EntryResult::ErrorAt(p) => {
                let mut s = String::from_str("Error at ");
                let digits = usize_to_dec(*p);
                s.append(digits.as_str());
                Some(s)
            },
            _ => None,
        }
    }
}

} // verus!
