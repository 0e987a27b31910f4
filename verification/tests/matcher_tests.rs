use peg::ast::CharSetCase;
use peg::ast::Expr;
use peg::ast::Grammar;
use peg::ast::Rule;
use peg::ast::TaggedExpr;
use peg::matcher::EntryResult;
use peg::matcher::MatchResult;
use peg::matcher::Value;
use peg::matcher::any_char;
use peg::matcher::char_in_ranges;
use peg::matcher::parse_entry;
use peg::matcher::run_expr;
use peg::matcher::run_rule;
use peg::matcher::slice_eq;
use peg::matcher::str_eq;

const FUEL: u64 = 1000;

fn lit(s: &str) -> Expr {
    Expr::LiteralExpr(s.to_string())
}

fn unit_rule(name: &str, expr: Expr) -> Rule {
    Rule { name: name.to_string(), expr, ret_type: "()".to_string() }
}

fn grammar(rules: Vec<Rule>) -> Grammar {
    Grammar { initializer: None, rules }
}

#[test]
fn literal_rule_raw_and_entry() {
    let g = grammar(vec![unit_rule("foo", lit("foo"))]);
    assert_eq!(run_rule(&g, "foo", "foo", 0, FUEL), MatchResult::Match(3, Value::Unit));
    assert_eq!(run_rule(&g, "foo", "bar", 0, FUEL), MatchResult::Fail(0));
    assert_eq!(parse_entry(&g, "foo", "foo", FUEL), EntryResult::Value(Value::Unit));
    assert_eq!(parse_entry(&g, "foo", "foobar", FUEL), EntryResult::Trailing);
}

#[test]
fn literal_mid_offset() {
    let g = grammar(vec![unit_rule("foo", lit("oo"))]);
    assert_eq!(run_rule(&g, "foo", "foo", 1, FUEL), MatchResult::Match(3, Value::Unit));
    assert_eq!(run_rule(&g, "foo", "foo", 2, FUEL), MatchResult::Fail(2));
}

#[test]
fn charset_plain_and_inverted() {
    let cases = vec![CharSetCase { start: 'a', end: 'z' }];
    let plain = grammar(vec![unit_rule("r", Expr::CharSetExpr(false, cases.clone()))]);
    let inverted = grammar(vec![unit_rule("r", Expr::CharSetExpr(true, cases))]);
    assert_eq!(run_rule(&plain, "r", "z9", 0, FUEL), MatchResult::Match(1, Value::Unit));
    assert_eq!(run_rule(&inverted, "r", "z9", 0, FUEL), MatchResult::Fail(0));
    assert_eq!(run_rule(&plain, "r", "z9", 1, FUEL), MatchResult::Fail(1));
    assert_eq!(run_rule(&inverted, "r", "z9", 1, FUEL), MatchResult::Match(2, Value::Unit));
    assert_eq!(run_rule(&plain, "r", "", 0, FUEL), MatchResult::Fail(0));
    assert_eq!(run_rule(&inverted, "r", "", 0, FUEL), MatchResult::Fail(0));
}

#[test]
fn zero_or_more_accumulates() {
    let g = grammar(vec![unit_rule("r", Expr::ZeroOrMore(Box::new(lit("a"))))]);
    assert_eq!(
        run_rule(&g, "r", "aaab", 0, FUEL),
        MatchResult::Match(3, Value::List(vec![Value::Unit, Value::Unit, Value::Unit]))
    );
    assert_eq!(run_rule(&g, "r", "b", 0, FUEL), MatchResult::Match(0, Value::List(vec![])));
}

#[test]
fn choice_first_failure_takes_second() {
    let g = grammar(vec![unit_rule("r", Expr::ChoiceExpr(vec![lit("a"), lit("b")]))]);
    assert_eq!(run_rule(&g, "r", "b", 0, FUEL), MatchResult::Match(1, Value::Unit));
    assert_eq!(run_rule(&g, "r", "a", 0, FUEL), MatchResult::Match(1, Value::Unit));
    assert_eq!(run_rule(&g, "r", "c", 0, FUEL), MatchResult::Fail(0));
}

#[test]
fn action_binds_matched_substring() {
    let digits = Rule {
        name: "digits".to_string(),
        expr: Expr::OneOrMore(Box::new(Expr::CharSetExpr(
            false,
            vec![CharSetCase { start: '0', end: '9' }],
        ))),
        ret_type: "()".to_string(),
    };
    let number = Rule {
        name: "number".to_string(),
        expr: Expr::ActionExpr(
            vec![TaggedExpr {
                name: Some("n".to_string()),
                expr: Expr::RuleExpr("digits".to_string()),
            }],
            "match_str.parse().unwrap()".to_string(),
        ),
        ret_type: "u32".to_string(),
    };
    let g = grammar(vec![digits, number]);
    match parse_entry(&g, "number", "42", FUEL) {
        EntryResult::Value(Value::Act(matched, bound)) => {
            assert_eq!(matched, "42");
            assert_eq!(matched.parse::<u32>().unwrap(), 42);
            assert_eq!(bound.len(), 1);
        }
        other => panic!("unexpected outcome: {:?}", other),
    }
}

#[test]
fn prefix_match_reports_trailing() {
    let g = grammar(vec![unit_rule("r", lit("ab"))]);
    assert_eq!(run_rule(&g, "r", "abc", 0, FUEL), MatchResult::Match(2, Value::Unit));
    assert_eq!(parse_entry(&g, "r", "abc", FUEL), EntryResult::Trailing);
}

#[test]
fn any_char_consumes_one() {
    let g = grammar(vec![unit_rule("r", Expr::AnyCharExpr)]);
    assert_eq!(run_rule(&g, "r", "x", 0, FUEL), MatchResult::Match(1, Value::Unit));
    assert_eq!(run_rule(&g, "r", "", 0, FUEL), MatchResult::Fail(0));
    assert_eq!(any_char("ab", 2), MatchResult::Fail(2));
    assert_eq!(any_char("ab", 1), MatchResult::Match(2, Value::Unit));
}

#[test]
fn sequence_value_is_last_and_fails_early() {
    let g = grammar(vec![unit_rule("r", Expr::SequenceExpr(vec![lit("a"), lit("b")]))]);
    assert_eq!(run_rule(&g, "r", "ab", 0, FUEL), MatchResult::Match(2, Value::Unit));
    assert_eq!(run_rule(&g, "r", "ax", 0, FUEL), MatchResult::Fail(1));
    assert_eq!(run_rule(&g, "r", "xb", 0, FUEL), MatchResult::Fail(0));
}

#[test]
fn optional_present_and_absent() {
    let g = grammar(vec![unit_rule("r", Expr::OptionalExpr(Box::new(lit("a"))))]);
    assert_eq!(
        run_rule(&g, "r", "a", 0, FUEL),
        MatchResult::Match(1, Value::Present(Box::new(Value::Unit)))
    );
    assert_eq!(run_rule(&g, "r", "b", 0, FUEL), MatchResult::Match(0, Value::Absent));
}

#[test]
fn one_or_more_fails_iff_first_fails() {
    let g = grammar(vec![unit_rule("r", Expr::OneOrMore(Box::new(lit("a"))))]);
    assert_eq!(run_rule(&g, "r", "b", 0, FUEL), MatchResult::Fail(0));
    assert_eq!(
        run_rule(&g, "r", "aab", 0, FUEL),
        MatchResult::Match(2, Value::List(vec![Value::Unit, Value::Unit]))
    );
}

#[test]
fn lookaheads_do_not_consume() {
    let pos = grammar(vec![unit_rule("r", Expr::PosAssertExpr(Box::new(lit("ab"))))]);
    let neg = grammar(vec![unit_rule("r", Expr::NegAssertExpr(Box::new(lit("ab"))))]);
    assert_eq!(run_rule(&pos, "r", "ab", 0, FUEL), MatchResult::Match(0, Value::Unit));
    assert_eq!(run_rule(&pos, "r", "xy", 0, FUEL), MatchResult::Fail(0));
    assert_eq!(run_rule(&neg, "r", "ab", 0, FUEL), MatchResult::Fail(0));
    assert_eq!(run_rule(&neg, "r", "xy", 0, FUEL), MatchResult::Match(0, Value::Unit));
}

#[test]
fn mutual_rule_references_resolve_by_name() {
    let a = unit_rule(
        "a",
        Expr::SequenceExpr(vec![
            lit("x"),
            Expr::OptionalExpr(Box::new(Expr::RuleExpr("b".to_string()))),
        ]),
    );
    let b = unit_rule("b", Expr::RuleExpr("a".to_string()));
    let g = grammar(vec![a, b]);
    // The sequence's value is its last element's: each level wraps the
    // deeper rule's outcome in one more "present".
    assert_eq!(
        parse_entry(&g, "a", "xxx", FUEL),
        EntryResult::Value(Value::Present(Box::new(Value::Present(Box::new(Value::Absent)))))
    );
}

#[test]
fn unresolved_and_cyclic_references_give_no_verdict() {
    let g = grammar(vec![unit_rule("r", Expr::RuleExpr("missing".to_string()))]);
    assert_eq!(run_rule(&g, "r", "x", 0, FUEL), MatchResult::Stuck);
    assert_eq!(parse_entry(&g, "nope", "x", FUEL), EntryResult::Stuck);
    let cyc = grammar(vec![unit_rule("a", Expr::RuleExpr("a".to_string()))]);
    assert_eq!(run_rule(&cyc, "a", "x", 0, 50), MatchResult::Stuck);
}

#[test]
fn unimplemented_combinators_give_no_verdict() {
    let g = grammar(vec![unit_rule(
        "r",
        Expr::DelimitedExpr(Box::new(lit("a")), Box::new(lit(","))),
    )]);
    assert_eq!(run_rule(&g, "r", "a", 0, FUEL), MatchResult::Stuck);
}

#[test]
fn entry_reports_failure_offset() {
    let g = grammar(vec![unit_rule("r", Expr::SequenceExpr(vec![lit("a"), lit("b")]))]);
    assert_eq!(parse_entry(&g, "r", "ax", FUEL), EntryResult::ErrorAt(1));
}

#[test]
fn primitive_helpers() {
    assert!(slice_eq("hello", 1, "ell"));
    assert!(!slice_eq("hello", 1, "elx"));
    assert!(!slice_eq("hello", 3, "lox"));
    assert!(str_eq("abc", "abc"));
    assert!(!str_eq("abc", "abd"));
    assert!(!str_eq("abc", "ab"));
    let cases = vec![
        CharSetCase { start: 'a', end: 'f' },
        CharSetCase { start: 'x', end: 'x' },
    ];
    assert!(char_in_ranges('c', &cases));
    assert!(char_in_ranges('x', &cases));
    assert!(!char_in_ranges('w', &cases));
}

#[test]
fn run_expr_evaluates_without_a_rule() {
    let g = grammar(vec![]);
    let e = Expr::ChoiceExpr(vec![lit("ab"), lit("a")]);
    assert_eq!(run_expr(&g, &e, "ab", 0, FUEL), MatchResult::Match(2, Value::Unit));
    assert_eq!(run_expr(&g, &e, "ac", 0, FUEL), MatchResult::Match(1, Value::Unit));
}

#[test]
fn entry_messages() {
    let g = grammar(vec![unit_rule("r", lit("ab"))]);
    let trailing = parse_entry(&g, "r", "abc", FUEL);
    assert_eq!(trailing.message().unwrap(), "Unexpected characters at end of input");
    let failed = parse_entry(&g, "r", "ax", FUEL);
    assert_eq!(failed.message().unwrap(), "Error at 0");
    let seq = grammar(vec![unit_rule("s", Expr::SequenceExpr(vec![lit("a"), lit("b")]))]);
    assert_eq!(parse_entry(&seq, "s", "ax", FUEL).message().unwrap(), "Error at 1");
    assert_eq!(EntryResult::ErrorAt(1230).message().unwrap(), "Error at 1230");
    assert!(parse_entry(&g, "r", "ab", FUEL).message().is_none());
}

#[test]
fn advancing_repetition_decides_with_input_length_fuel() {
    let g = grammar(vec![unit_rule("r", Expr::ZeroOrMore(Box::new(Expr::AnyCharExpr)))]);
    // One fuel per remaining input slot plus one is enough for a strictly
    // advancing body: no verdict is ever left open.
    assert_eq!(
        run_rule(&g, "r", "aaaa", 0, 5),
        MatchResult::Match(4, Value::List(vec![Value::Unit, Value::Unit, Value::Unit, Value::Unit]))
    );
}

#[test]
fn rule_order_does_not_affect_resolution() {
    let make_a = || unit_rule("a", Expr::SequenceExpr(vec![lit("x"), Expr::RuleExpr("b".to_string())]));
    let make_b = || unit_rule("b", lit("y"));
    let fwd = grammar(vec![make_a(), make_b()]);
    let rev = grammar(vec![make_b(), make_a()]);
    assert_eq!(parse_entry(&fwd, "a", "xy", FUEL), parse_entry(&rev, "a", "xy", FUEL));
    assert_eq!(parse_entry(&fwd, "a", "xz", FUEL), parse_entry(&rev, "a", "xz", FUEL));
}
