use peg::ast::CharSetCase;
use peg::ast::Expr;
use peg::ast::Grammar;
use peg::ast::Rule;
use peg::ast::expr_supported;
use peg::codegen::CompileError;
use peg::codegen::compile_expr;
use peg::codegen::compile_grammar;
use peg::codegen::compile_header;
use peg::codegen::compile_match_and_then;
use peg::codegen::compile_rule;
use peg::codegen::compile_zero_or_more;
use peg::writer::RustWriter;

fn lit(s: &str) -> Expr {
    Expr::LiteralExpr(s.to_string())
}

fn texts(w: &RustWriter) -> Vec<(usize, String)> {
    w.lines().iter().map(|l| (l.indent, l.text.clone())).collect()
}

#[test]
fn header_emits_the_preamble() {
    let mut w = RustWriter::new();
    compile_header(&mut w);
    let ls = texts(&w);
    assert_eq!(ls.len(), 1);
    assert_eq!(ls[0].0, 0);
    assert!(ls[0].1.contains("fn slice_eq(input: &str, pos: usize, m: &str)"));
    assert!(ls[0].1.contains("fn any_char(input: &str, pos: usize)"));
    assert!(ls[0].1.contains("fn char_range_at(input: &str, pos: usize)"));
}

#[test]
fn literal_rule_compiles_to_both_procedures() {
    let mut w = RustWriter::new();
    let rule = Rule {
        name: "foo".to_string(),
        expr: lit("foo"),
        ret_type: "()".to_string(),
    };
    assert_eq!(compile_rule(&mut w, &rule), Ok(()));
    assert_eq!(w.indent_level(), 0);
    let expected: Vec<(usize, &str)> = vec![
        (0, "#[allow(unused_variables)]"),
        (0, "fn parse_foo(input: &str, pos: usize) -> Result<(usize, ()), usize> {"),
        (1, "slice_eq(input, pos, \"foo\")"),
        (0, "}"),
        (0, "pub fn foo(input: &str) -> Result<(), String> {"),
        (1, "match parse_foo(input, 0) {"),
        (2, "Ok((pos, value)) => {"),
        (3, "if pos == input.len() {"),
        (4, "Ok(value)"),
        (3, "} else {"),
        (4, "Err(String::from(\"Unexpected characters at end of input\"))"),
        (3, "}"),
        (2, "}"),
        (2, "Err(pos) => { Err(format!(\"Error at {}\", pos)) }"),
        (1, "}"),
        (0, "}"),
    ];
    let got = texts(&w);
    assert_eq!(got.len(), expected.len());
    for (g, e) in got.iter().zip(expected.iter()) {
        assert_eq!(g.0, e.0);
        assert_eq!(g.1, e.1);
    }
}

#[test]
fn charset_compiles_with_joined_ranges() {
    let mut w = RustWriter::new();
    let e = Expr::CharSetExpr(
        false,
        vec![
            CharSetCase { start: 'a', end: 'z' },
            CharSetCase { start: 'x', end: 'x' },
        ],
    );
    assert_eq!(compile_expr(&mut w, &e, false), Ok(()));
    assert_eq!(w.indent_level(), 0);
    let got = texts(&w);
    assert_eq!(got[0], (0, "if input.len() > pos {".to_string()));
    assert_eq!(got[3], (2, "'a'..='z' | 'x' => { Ok((next, ())) }".to_string()));
    assert_eq!(got[4], (2, "_ => { Err(pos) }".to_string()));
}

#[test]
fn inverted_charset_swaps_the_arms() {
    let mut w = RustWriter::new();
    let e = Expr::CharSetExpr(true, vec![CharSetCase { start: '0', end: '9' }]);
    assert_eq!(compile_expr(&mut w, &e, false), Ok(()));
    let got = texts(&w);
    assert_eq!(got[3], (2, "'0'..='9' => { Err(pos) }".to_string()));
    assert_eq!(got[4], (2, "_ => { Ok((next, ())) }".to_string()));
}

#[test]
fn match_and_then_opens_two_scopes() {
    let mut w = RustWriter::new();
    assert_eq!(compile_match_and_then(&mut w, &lit("a"), Some("v")), Ok(()));
    assert_eq!(w.indent_level(), 2);
    let got = texts(&w);
    assert_eq!(got[0], (0, "let seq_res = {".to_string()));
    assert_eq!(got[1], (1, "slice_eq(input, pos, \"a\")".to_string()));
    assert_eq!(got[2], (0, "};".to_string()));
    assert_eq!(got[3], (0, "match seq_res {".to_string()));
    assert_eq!(got[4], (1, "Err(pos) => { Err(pos) }".to_string()));
    assert_eq!(got[5], (1, "Ok((pos, v)) => {".to_string()));
}

#[test]
fn zero_or_more_emits_the_repeat_loop() {
    let mut w = RustWriter::new();
    assert_eq!(compile_zero_or_more(&mut w, &lit("a"), Some("vec![]")), Ok(()));
    assert_eq!(w.indent_level(), 0);
    let got = texts(&w);
    assert_eq!(got[0], (0, "let mut repeat_pos = pos;".to_string()));
    assert_eq!(got[1], (0, "let mut repeat_value = vec![];".to_string()));
    assert_eq!(got[2], (0, "loop {".to_string()));
    assert!(got.iter().any(|l| l == &(3, "repeat_value.push(value);".to_string())));
    assert_eq!(got[got.len() - 1], (0, "Ok((repeat_pos, repeat_value))".to_string()));
}

#[test]
fn zero_or_more_without_value_skips_the_list() {
    let mut w = RustWriter::new();
    assert_eq!(compile_zero_or_more(&mut w, &lit("a"), None), Ok(()));
    let got = texts(&w);
    assert!(got.iter().all(|l| l.1 != "repeat_value.push(value);"));
    assert_eq!(got[got.len() - 1], (0, "Ok((repeat_pos, ()))".to_string()));
}

#[test]
fn unimplemented_combinators_are_refused_with_no_output() {
    let mut w = RustWriter::new();
    let d = Expr::DelimitedExpr(Box::new(lit("a")), Box::new(lit(",")));
    assert_eq!(compile_expr(&mut w, &d, false), Err(CompileError::Unimplemented));
    assert_eq!(w.lines().len(), 0);
    let s = Expr::SequenceExpr(vec![lit("a"), Expr::StringifyExpr(Box::new(lit("b")))]);
    assert_eq!(compile_expr(&mut w, &s, false), Err(CompileError::Unimplemented));
    assert_eq!(w.lines().len(), 0);
    assert!(!expr_supported(&s));
    assert!(expr_supported(&lit("a")));
}

#[test]
fn grammar_compiles_preamble_initializer_then_rules() {
    let mut w = RustWriter::new();
    let g = Grammar {
        initializer: Some("use std::collections::HashMap;".to_string()),
        rules: vec![
            Rule { name: "a".to_string(), expr: lit("a"), ret_type: "()".to_string() },
            Rule { name: "b".to_string(), expr: lit("b"), ret_type: "()".to_string() },
        ],
    };
    assert_eq!(compile_grammar(&mut w, &g), Ok(()));
    let got = texts(&w);
    assert!(got[0].1.contains("fn slice_eq"));
    assert_eq!(got[1], (0, "use std::collections::HashMap;".to_string()));
    assert!(got.iter().any(|l| l.1.starts_with("fn parse_a(")));
    assert!(got.iter().any(|l| l.1.starts_with("fn parse_b(")));
    let pa = got.iter().position(|l| l.1.starts_with("fn parse_a(")).unwrap();
    let pb = got.iter().position(|l| l.1.starts_with("fn parse_b(")).unwrap();
    assert!(pa < pb);
}

#[test]
fn grammar_with_unimplemented_rule_emits_nothing() {
    let mut w = RustWriter::new();
    let g = Grammar {
        initializer: None,
        rules: vec![
            Rule { name: "a".to_string(), expr: lit("a"), ret_type: "()".to_string() },
            Rule {
                name: "bad".to_string(),
                expr: Expr::StringifyExpr(Box::new(lit("b"))),
                ret_type: "()".to_string(),
            },
        ],
    };
    assert_eq!(compile_grammar(&mut w, &g), Err(CompileError::Unimplemented));
    assert_eq!(w.lines().len(), 0);
}

#[test]
fn rule_with_value_threads_the_result() {
    let mut w = RustWriter::new();
    let rule = Rule {
        name: "words".to_string(),
        expr: Expr::ZeroOrMore(Box::new(Expr::AnyCharExpr)),
        ret_type: "Vec<()>".to_string(),
    };
    assert_eq!(compile_rule(&mut w, &rule), Ok(()));
    let got = texts(&w);
    assert!(got.iter().any(|l| l.1.starts_with(
        "fn parse_words(input: &str, pos: usize) -> Result<(usize, Vec<()>), usize> {"
    )));
    assert!(got.iter().any(|l| l.1 == "repeat_value.push(value);"));
}

#[test]
fn empty_sequence_compiles_to_a_no_op_success() {
    let mut w = RustWriter::new();
    assert_eq!(compile_expr(&mut w, &Expr::SequenceExpr(vec![]), false), Ok(()));
    let got = texts(&w);
    assert_eq!(got, vec![(0, "Ok((pos, ()))".to_string())]);
}

#[test]
fn sequence_threads_the_value_flag_to_its_last_element() {
    let mut w = RustWriter::new();
    let e = Expr::SequenceExpr(vec![
        lit("a"),
        Expr::ZeroOrMore(Box::new(Expr::AnyCharExpr)),
    ]);
    assert_eq!(compile_expr(&mut w, &e, true), Ok(()));
    let got = texts(&w);
    // The last element carries the sequence's value, so its repetition
    // accumulates a result list; the prefix element's value is discarded.
    assert!(got.iter().any(|l| l.1 == "let mut repeat_value = vec![];"));
    assert!(got.iter().any(|l| l.1 == "repeat_value.push(value);"));
    assert!(got.iter().any(|l| l.1 == "Ok((repeat_pos, repeat_value))"));
    assert!(got.iter().any(|l| l.1 == "Ok((pos, _)) => {"));

    let mut w2 = RustWriter::new();
    let e2 = Expr::SequenceExpr(vec![
        lit("a"),
        Expr::ZeroOrMore(Box::new(Expr::AnyCharExpr)),
    ]);
    assert_eq!(compile_expr(&mut w2, &e2, false), Ok(()));
    let got2 = texts(&w2);
    assert!(got2.iter().all(|l| l.1 != "repeat_value.push(value);"));
    assert!(got2.iter().any(|l| l.1 == "Ok((repeat_pos, ()))"));
}
