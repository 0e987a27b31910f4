//! The expression, rule and grammar compilers: the translation of a
//! grammar description into backtracking matcher source, emitted through
//! the writer.
//!
//! The emitted text is pinned exactly: for each compile procedure a spec
//! function states, line for line, what it appends, and each procedure's
//! contract says that it appended exactly those lines and restored the
//! writer's indentation level. The only compile-time error is a grammar
//! that uses an unimplemented combinator; it is detected up front, so a
//! failing compilation emits nothing at all.
use vstd::prelude::*;
use vstd::string::StrSliceExecFns;
use vstd::string::StringExecFns;

use crate::ast::CharSetCase;
use crate::ast::Expr;
use crate::ast::Grammar;
use crate::ast::Rule;
use crate::ast::TaggedExpr;
use crate::ast::esize;
use crate::ast::expr_supported;
use crate::ast::esize_list;
use crate::ast::esize_tagged;
use crate::ast::grammar_has_unimplemented;
use crate::ast::has_unimplemented;
use crate::ast::lemma_esize_list_elem;
use crate::ast::lemma_esize_pos;
use crate::ast::lemma_esize_tagged_elem;
use crate::ast::lemma_list_unimpl_elem;
use crate::ast::lemma_tagged_unimpl_elem;
use crate::ast::list_has_unimplemented;
use crate::ast::tagged_has_unimplemented;
use crate::matcher::str_eq;
use crate::writer::LineV;
use crate::writer::RustWriter;
use crate::writer::line_at;

verus! {

/// The one compile-time error: the grammar uses a combinator that code
/// generation does not implement.
#[derive(Debug, PartialEq, Eq)]
pub enum CompileError {
    Unimplemented,
}

/// The fixed preamble: the two primitives every generated matcher uses,
/// exact-slice equality and single-character consumption.
pub open spec fn preamble_text() -> Seq<char> {
    "fn slice_eq(input: &str, pos: usize, m: &str) -> Result<(usize, ()), usize> {\n    if input.len() >= pos + m.len() && &input[pos..pos + m.len()] == m {\n        Ok((pos + m.len(), ()))\n    } else {\n        Err(pos)\n    }\n}\n\nfn any_char(input: &str, pos: usize) -> Result<(usize, ()), usize> {\n    match input[pos..].chars().next() {\n        Some(c) => Ok((pos + c.len_utf8(), ())),\n        None => Err(pos),\n    }\n}\n\nfn char_range_at(input: &str, pos: usize) -> (char, usize) {\n    let c = input[pos..].chars().next().unwrap();\n    (c, pos + c.len_utf8())\n}\n"@
}

/// The pattern text of one character-range case: a single quoted
/// character, or an inclusive quoted range.
pub open spec fn case_text(c: CharSetCase) -> Seq<char> {
    if c.start == c.end {
        seq!['\''] + seq![c.start] + seq!['\'']
    } else {
        seq!['\''] + seq![c.start] + seq!['\''] + "..="@ + seq!['\''] + seq![c.end] + seq!['\'']
    }
}

/// The pattern text of the first `k` cases, joined by alternation bars.
pub open spec fn cases_text(cases: Seq<CharSetCase>, k: int) -> Seq<char>
    decreases k,
{
    if k <= 0 {
        Seq::empty()
    } else if k == 1 {
        case_text(cases[0])
    } else {
        cases_text(cases, k - 1) + " | "@ + case_text(cases[k - 1])
    }
}

pub open spec fn opt_view(o: Option<&str>) -> Option<Seq<char>> {
    match o {
        Some(s) => Some(s@),
        None => None,
    }
}

/// Lines of the prefix that `compile_match_and_then` emits: bind the
/// sub-expression's outcome, propagate its failure, and open the success
/// arm (two levels deep) in which the caller emits the continuation.
pub open spec fn mat_lines(e: Expr, value_name: Option<Seq<char>>, ind: nat) -> Seq<LineV>
    decreases e, 2nat,
{
    seq![line_at(ind, "let seq_res = {"@)] + expr_lines(e, value_name is Some, (ind + 1) as nat)
        + seq![
        line_at(ind, "};"@),
        line_at(ind, "match seq_res {"@),
        line_at((ind + 1) as nat, "Err(pos) => { Err(pos) }"@),
        line_at(
            (ind + 1) as nat,
            "Ok((pos, "@ + (match value_name {
                Some(n) => n,
                None => "_"@,
            }) + ")) => {"@,
        ),
    ]
}

/// Lines of the repetition loop that `compile_zero_or_more` emits.
pub open spec fn star_lines(e: Expr, list_initial: Option<Seq<char>>, ind: nat) -> Seq<LineV>
    decreases e, 2nat,
{
    let used = list_initial is Some;
    seq![line_at(ind, "let mut repeat_pos = pos;"@)] + (match list_initial {
        Some(init) => seq![line_at(ind, "let mut repeat_value = "@ + init + ";"@)],
        None => Seq::empty(),
    }) + seq![
        line_at(ind, "loop {"@),
        line_at((ind + 1) as nat, "let step_res = {"@),
        line_at((ind + 2) as nat, "let pos = repeat_pos;"@),
    ] + expr_lines(e, used, (ind + 2) as nat) + seq![
        line_at((ind + 1) as nat, "};"@),
        line_at((ind + 1) as nat, "match step_res {"@),
        line_at(
            (ind + 2) as nat,
            if used {
                "Ok((newpos, value)) => {"@
            } else {
                "Ok((newpos, _)) => {"@
            },
        ),
        line_at((ind + 3) as nat, "repeat_pos = newpos;"@),
    ] + (if used {
        seq![line_at((ind + 3) as nat, "repeat_value.push(value);"@)]
    } else {
        Seq::empty()
    }) + seq![
        line_at((ind + 2) as nat, "}"@),
        line_at((ind + 2) as nat, "Err(_) => {"@),
        line_at((ind + 3) as nat, "break;"@),
        line_at((ind + 2) as nat, "}"@),
        line_at((ind + 1) as nat, "}"@),
        line_at(ind, "}"@),
        line_at(
            ind,
            if used {
                "Ok((repeat_pos, repeat_value))"@
            } else {
                "Ok((repeat_pos, ()))"@
            },
        ),
    ]
}

/// Lines of a sequence: each element but the last threads control
/// through a match-and-then prefix whose value is discarded; the last is
/// the tail expression carrying the sequence's value, and the opened arms
/// are closed in order. An empty sequence is a degenerate no-op that
/// succeeds at the same offset with the unit value.
pub open spec fn seq_lines(es: Seq<Expr>, used: bool, ind: nat) -> Seq<LineV>
    decreases es, 0nat,
{
    if es.len() == 0 {
        seq![line_at(ind, "Ok((pos, ()))"@)]
    } else if es.len() == 1 {
        expr_lines(es[0], used, ind)
    } else {
        mat_lines(es[0], None, ind) + seq_lines(es.skip(1), used, (ind + 2) as nat) + seq![
            line_at((ind + 1) as nat, "}"@),
            line_at(ind, "}"@),
        ]
    }
}

/// Lines of a non-empty ordered choice: each alternative but the last is
/// tried in a binding whose failure arm holds the rest.
pub open spec fn alts_lines(es: Seq<Expr>, used: bool, ind: nat) -> Seq<LineV>
    decreases es, 0nat,
{
    if es.len() == 0 {
        Seq::empty()
    } else if es.len() == 1 {
        expr_lines(es[0], used, ind)
    } else {
        seq![line_at(ind, "let choice_res = {"@)] + expr_lines(es[0], used, (ind + 1) as nat)
            + seq![
            line_at(ind, "};"@),
            line_at(ind, "match choice_res {"@),
            line_at((ind + 1) as nat, "Ok((pos, value)) => { Ok((pos, value)) }"@),
            line_at((ind + 1) as nat, "Err(_) => {"@),
        ] + alts_lines(es.skip(1), used, (ind + 2) as nat) + seq![
            line_at((ind + 1) as nat, "}"@),
            line_at(ind, "}"@),
        ]
    }
}

/// Lines of an action's tagged elements followed by the host code block,
/// evaluated in scope of the bindings and the matched substring.
pub open spec fn act_lines(tes: Seq<TaggedExpr>, code: Seq<char>, ind: nat) -> Seq<LineV>
    decreases tes, 0nat,
{
    if tes.len() == 0 {
        seq![
            line_at(ind, "let match_str = &input[start_pos..pos];"@),
            line_at(ind, "Ok((pos, (|| { "@ + code + " })()))"@),
        ]
    } else {
        mat_lines(
            tes[0].expr,
            match tes[0].name {
                Some(n) => Some(n@),
                None => None,
            },
            ind,
        ) + act_lines(tes.skip(1), code, (ind + 2) as nat) + seq![
            line_at((ind + 1) as nat, "}"@),
            line_at(ind, "}"@),
        ]
    }
}

/// The lines `compile_expr` emits for one expression at level `ind`. Only
/// meaningful for trees free of unimplemented combinators.
pub open spec fn expr_lines(e: Expr, used: bool, ind: nat) -> Seq<LineV>
    decreases e, 1nat,
{
    match e {
        Expr::AnyCharExpr => seq![line_at(ind, "any_char(input, pos)"@)],
        Expr::LiteralExpr(s) => seq![
            line_at(ind, "slice_eq(input, pos, \""@ + s@ + "\")"@),
        ],
        Expr::CharSetExpr(invert, cases) => {
            let y = if !invert {
                "Ok((next, ()))"@
            } else {
                "Err(pos)"@
            };
            let n = if !invert {
                "Err(pos)"@
            } else {
                "Ok((next, ()))"@
            };
            seq![
                line_at(ind, "if input.len() > pos {"@),
                line_at((ind + 1) as nat, "let (ch, next) = char_range_at(input, pos);"@),
                line_at((ind + 1) as nat, "match ch {"@),
                line_at(
                    (ind + 2) as nat,
                    cases_text(cases@, cases@.len() as int) + " => { "@ + y + " }"@,
                ),
                line_at((ind + 2) as nat, "_ => { "@ + n + " }"@),
                line_at((ind + 1) as nat, "}"@),
                line_at(ind, "} else {"@),
                line_at((ind + 1) as nat, "Err(pos)"@),
                line_at(ind, "}"@),
            ]
        },
        Expr::RuleExpr(name) => seq![line_at(ind, "parse_"@ + name@ + "(input, pos)"@)],
        Expr::SequenceExpr(es) => seq_lines(es@, used, ind),
        Expr::ChoiceExpr(es) => alts_lines(es@, used, ind),
        Expr::OptionalExpr(b) => seq![line_at(ind, "let optional_res = {"@)] + expr_lines(
            *b,
            used,
            (ind + 1) as nat,
        ) + seq![
            line_at(ind, "};"@),
            line_at(ind, "match optional_res {"@),
            line_at((ind + 1) as nat, "Ok((newpos, value)) => { Ok((newpos, Some(value))) }"@),
            line_at((ind + 1) as nat, "Err(_) => { Ok((pos, None)) }"@),
            line_at(ind, "}"@),
        ],
        Expr::ZeroOrMore(b) => star_lines(
            *b,
            if used {
                Some("vec![]"@)
            } else {
                None
            },
            ind,
        ),
        Expr::OneOrMore(b) => mat_lines(
            *b,
            if used {
                Some("first_value"@)
            } else {
                None
            },
            ind,
        ) + star_lines(
            *b,
            if used {
                Some("vec![first_value]"@)
            } else {
                None
            },
            (ind + 2) as nat,
        ) + seq![line_at((ind + 1) as nat, "}"@), line_at(ind, "}"@)],
        Expr::PosAssertExpr(b) => seq![line_at(ind, "let assert_res = {"@)] + expr_lines(
            *b,
            false,
            (ind + 1) as nat,
        ) + seq![
            line_at(ind, "};"@),
            line_at(ind, "match assert_res {"@),
            line_at((ind + 1) as nat, "Ok(_) => { Ok((pos, ())) }"@),
            line_at((ind + 1) as nat, "Err(_) => { Err(pos) }"@),
            line_at(ind, "}"@),
        ],
        Expr::NegAssertExpr(b) => seq![line_at(ind, "let neg_assert_res = {"@)] + expr_lines(
            *b,
            false,
            (ind + 1) as nat,
        ) + seq![
            line_at(ind, "};"@),
            line_at(ind, "match neg_assert_res {"@),
            line_at((ind + 1) as nat, "Err(_) => { Ok((pos, ())) }"@),
            line_at((ind + 1) as nat, "Ok(_) => { Err(pos) }"@),
            line_at(ind, "}"@),
        ],
        Expr::DelimitedExpr(_, _) => Seq::empty(),
        Expr::StringifyExpr(_) => Seq::empty(),
        Expr::ActionExpr(tes, code) => seq![line_at(ind, "let start_pos = pos;"@)] + act_lines(
            tes@,
            code@,
            ind,
        ),
    }
}

/// The two procedures `compile_rule` emits for one rule: the raw matcher
/// `parse_<name>` and the public whole-input entry `<name>`.
pub open spec fn rule_lines(r: Rule, ind: nat) -> Seq<LineV> {
    seq![
        line_at(ind, "#[allow(unused_variables)]"@),
        line_at(
            ind,
            "fn parse_"@ + r.name@ + "(input: &str, pos: usize) -> Result<(usize, "@ + r.ret_type@
                + "), usize> {"@,
        ),
    ] + expr_lines(r.expr, r.ret_type@ != "()"@, (ind + 1) as nat) + seq![
        line_at(ind, "}"@),
        line_at(
            ind,
            "pub fn "@ + r.name@ + "(input: &str) -> Result<"@ + r.ret_type@ + ", String> {"@,
        ),
        line_at((ind + 1) as nat, "match parse_"@ + r.name@ + "(input, 0) {"@),
        line_at((ind + 2) as nat, "Ok((pos, value)) => {"@),
        line_at((ind + 3) as nat, "if pos == input.len() {"@),
        line_at((ind + 4) as nat, "Ok(value)"@),
        line_at((ind + 3) as nat, "} else {"@),
        line_at(
            (ind + 4) as nat,
            "Err(String::from(\"Unexpected characters at end of input\"))"@,
        ),
        line_at((ind + 3) as nat, "}"@),
        line_at((ind + 2) as nat, "}"@),
        line_at((ind + 2) as nat, "Err(pos) => { Err(format!(\"Error at {}\", pos)) }"@),
        line_at((ind + 1) as nat, "}"@),
        line_at(ind, "}"@),
    ]
}

pub open spec fn rules_lines(rules: Seq<Rule>, ind: nat) -> Seq<LineV>
    decreases rules.len(),
{
    if rules.len() == 0 {
        Seq::empty()
    } else {
        rule_lines(rules[0], ind) + rules_lines(rules.skip(1), ind)
    }
}

/// Everything `compile_grammar` emits: the preamble, the verbatim
/// initializer if any, then each rule in declaration order.
pub open spec fn grammar_lines(g: Grammar, ind: nat) -> Seq<LineV> {
    seq![line_at(0, preamble_text())] + (match g.initializer {
        Some(init) => seq![line_at(0, init@)],
        None => Seq::empty(),
    }) + rules_lines(g.rules@, ind)
}

/// Concatenation of three string slices.
fn cat3(a: &str, b: &str, c: &str) -> (r: String)
    ensures
        r@ == a@ + b@ + c@,
{
    let mut s = String::from_str(a);
    s.append(b);
    s.append(c);
    proof {
        assert(s@ =~= a@ + b@ + c@);
    }
    s
}

/// Concatenation of five string slices.
fn cat5(a: &str, b: &str, c: &str, d: &str, e: &str) -> (r: String)
    ensures
        r@ == a@ + b@ + c@ + d@ + e@,
{
    let mut s = String::from_str(a);
    s.append(b);
    s.append(c);
    s.append(d);
    s.append(e);
    proof {
        assert(s@ =~= a@ + b@ + c@ + d@ + e@);
    }
    s
}

/// The alternation pattern for a list of character-range cases.
fn build_cases_text(cases: &Vec<CharSetCase>) -> (r: String)
    ensures
        r@ == cases_text(cases@, cases@.len() as int),
{
    let n = cases.len();
    let mut s = String::new();
    let mut k: usize = 0;
    while k < n
        invariant
            0 <= k <= n,
            n == cases@.len(),
            s@ == cases_text(cases@, k as int),
        decreases n - k,
    {
        if k > 0 {
            s.append(" | ");
        }
        let cs = cases[k].start;
        let ce = cases[k].end;
        s.push('\'');
        s.push(cs);
        s.push('\'');
        if cs != ce {
            s.append("..=");
            s.push('\'');
            s.push(ce);
            s.push('\'');
        }
        proof {
            assert(s@ =~= cases_text(cases@, k + 1));
        }
        k += 1;
    }
    s
}

/// Emit the fixed preamble through the writer, as raw text.
pub fn compile_header(w: &mut RustWriter)
    ensures
        final(w)@.lines == old(w)@.lines.push(line_at(0, preamble_text())),
        final(w)@.indent == old(w)@.indent,
{
    w.blob(
        "fn slice_eq(input: &str, pos: usize, m: &str) -> Result<(usize, ()), usize> {\n    if input.len() >= pos + m.len() && &input[pos..pos + m.len()] == m {\n        Ok((pos + m.len(), ()))\n    } else {\n        Err(pos)\n    }\n}\n\nfn any_char(input: &str, pos: usize) -> Result<(usize, ()), usize> {\n    match input[pos..].chars().next() {\n        Some(c) => Ok((pos + c.len_utf8(), ())),\n        None => Err(pos),\n    }\n}\n\nfn char_range_at(input: &str, pos: usize) -> (char, usize) {\n    let c = input[pos..].chars().next().unwrap();\n    (c, pos + c.len_utf8())\n}\n",
    );
}

/// Emit the prefix that binds one sub-expression's outcome, propagates
/// its failure, and opens the success arm in which the caller emits what
/// follows; the caller closes the two opened scopes. On success the level
/// is exactly two deeper.
pub fn compile_match_and_then(w: &mut RustWriter, e: &Expr, value_name: Option<&str>) -> (r:
    Result<(), CompileError>)
    requires
        old(w)@.indent + 4 * esize(*e) + 4 <= usize::MAX,
    ensures
        match r {
            Ok(_) => !has_unimplemented(*e) && final(w)@.lines == old(w)@.lines + mat_lines(
                *e,
                opt_view(value_name),
                old(w)@.indent,
            ) && final(w)@.indent == old(w)@.indent + 2,
            Err(_) => has_unimplemented(*e) && final(w)@.lines == old(w)@.lines && final(w)@.indent
                == old(w)@.indent,
        },
    decreases esize(*e), 2nat,
{
    if !expr_supported(e) {
        return Err(CompileError::Unimplemented);
    }
    let ghost ind = w@.indent;
    let ghost lines0 = w@.lines;
    proof {
        lemma_esize_pos(*e);
    }
    w.open("let seq_res = {");
    let r = compile_expr(w, e, value_name.is_some());
    match r {
        Ok(_) => {},
        Err(er) => {
            proof {
                assert(false);
            }
            return Err(er);
        },
    }
    w.close("};");
    w.open("match seq_res {");
    w.line("Err(pos) => { Err(pos) }");
    let nm = match value_name {
        Some(nm) => nm,
        None => "_",
    };
    let head = cat3("Ok((pos, ", nm, ")) => {");
    w.open_string(head);
    proof {
        assert(w@.lines =~= lines0 + mat_lines(*e, opt_view(value_name), ind));
    }
    Ok(())
}

/// Emit the repetition loop: attempt the expression from the repeat
/// offset until it fails, accumulating values when `list_initial` seeds a
/// result list, then succeed with the final offset.
pub fn compile_zero_or_more(w: &mut RustWriter, e: &Expr, list_initial: Option<&str>) -> (r: Result<
    (),
    CompileError,
>)
    requires
        old(w)@.indent + 4 * esize(*e) + 4 <= usize::MAX,
    ensures
        match r {
            Ok(_) => !has_unimplemented(*e) && final(w)@.lines == old(w)@.lines + star_lines(
                *e,
                opt_view(list_initial),
                old(w)@.indent,
            ) && final(w)@.indent == old(w)@.indent,
            Err(_) => has_unimplemented(*e) && final(w)@.lines == old(w)@.lines && final(w)@.indent
                == old(w)@.indent,
        },
    decreases esize(*e), 2nat,
{
    if !expr_supported(e) {
        return Err(CompileError::Unimplemented);
    }
    let ghost ind = w@.indent;
    let ghost lines0 = w@.lines;
    proof {
        lemma_esize_pos(*e);
    }
    let used = list_initial.is_some();
    w.line("let mut repeat_pos = pos;");
    match list_initial {
        Some(init) => {
            let l = cat3("let mut repeat_value = ", init, ";");
            w.line_string(l);
        },
        None => {},
    }
    w.open("loop {");
    w.open("let step_res = {");
    w.line("let pos = repeat_pos;");
    let r = compile_expr(w, e, used);
    match r {
        Ok(_) => {},
        Err(er) => {
            proof {
                assert(false);
            }
            return Err(er);
        },
    }
    w.close("};");
    w.open("match step_res {");
    if used {
        w.open("Ok((newpos, value)) => {");
    } else {
        w.open("Ok((newpos, _)) => {");
    }
    w.line("repeat_pos = newpos;");
    if used {
        w.line("repeat_value.push(value);");
    }
    w.close("}");
    w.open("Err(_) => {");
    w.line("break;");
    w.close("}");
    w.close("}");
    w.close("}");
    if used {
        w.line("Ok((repeat_pos, repeat_value))");
    } else {
        w.line("Ok((repeat_pos, ()))");
    }
    proof {
        assert(w@.lines =~= lines0 + star_lines(*e, opt_view(list_initial), ind));
    }
    Ok(())
}

/// Compile one element of a sequence and, recursively, the rest: all but
/// the last thread control through a match-and-then prefix whose two
/// scopes are closed after the rest is emitted; only the last element,
/// whose value is the sequence's, carries the value flag.
fn compile_seq(w: &mut RustWriter, es: &Vec<Expr>, result_used: bool, i: usize)
    requires
        0 <= i < es@.len(),
        !list_has_unimplemented(es@.skip(i as int)),
        old(w)@.indent + 4 * esize_list(es@.skip(i as int)) + 4 <= usize::MAX,
    ensures
        final(w)@.lines == old(w)@.lines + seq_lines(
            es@.skip(i as int),
            result_used,
            old(w)@.indent,
        ),
        final(w)@.indent == old(w)@.indent,
    decreases esize_list(es@.skip(i as int)), 3nat,
{
    let ghost ind = w@.indent;
    let ghost lines0 = w@.lines;
    let n = es.len();
    proof {
        assert(es@.skip(i as int)[0] == es@[i as int]);
        lemma_esize_pos(es@[i as int]);
        lemma_esize_list_elem(es@.skip(i as int), 0);
        lemma_list_unimpl_elem(es@.skip(i as int), 0);
    }
    if i == n - 1 {
        let r = compile_expr(w, &es[i], result_used);
        match r {
            Ok(_) => {},
            Err(_) => {
                proof {
                    assert(false);
                }
            },
        }
        proof {
            assert(es@.skip(i as int).len() == 1);
            assert(w@.lines =~= lines0 + seq_lines(es@.skip(i as int), result_used, ind));
        }
    } else {
        proof {
            assert(es@.skip(i as int).skip(1) =~= es@.skip(i + 1));
        }
        let r = compile_match_and_then(w, &es[i], None);
        match r {
            Ok(_) => {},
            Err(_) => {
                proof {
                    assert(false);
                }
            },
        }
        compile_seq(w, es, result_used, i + 1);
        w.close("}");
        w.close("}");
        proof {
            assert(w@.lines =~= lines0 + seq_lines(es@.skip(i as int), result_used, ind));
        }
    }
}

/// Compile one alternative of a choice and, recursively, the rest: all
/// but the last are tried in a binding whose failure arm holds the rest.
fn compile_alts(w: &mut RustWriter, es: &Vec<Expr>, result_used: bool, i: usize)
    requires
        0 <= i < es@.len(),
        !list_has_unimplemented(es@.skip(i as int)),
        old(w)@.indent + 4 * esize_list(es@.skip(i as int)) + 4 <= usize::MAX,
    ensures
        final(w)@.lines == old(w)@.lines + alts_lines(
            es@.skip(i as int),
            result_used,
            old(w)@.indent,
        ),
        final(w)@.indent == old(w)@.indent,
    decreases esize_list(es@.skip(i as int)), 3nat,
{
    let ghost ind = w@.indent;
    let ghost lines0 = w@.lines;
    let n = es.len();
    proof {
        assert(es@.skip(i as int)[0] == es@[i as int]);
        lemma_esize_pos(es@[i as int]);
        lemma_esize_list_elem(es@.skip(i as int), 0);
        lemma_list_unimpl_elem(es@.skip(i as int), 0);
    }
    if i == n - 1 {
        let r = compile_expr(w, &es[i], result_used);
        match r {
            Ok(_) => {},
            Err(_) => {
                proof {
                    assert(false);
                }
            },
        }
        proof {
            assert(es@.skip(i as int).len() == 1);
            assert(w@.lines =~= lines0 + alts_lines(es@.skip(i as int), result_used, ind));
        }
    } else {
        proof {
            assert(es@.skip(i as int).skip(1) =~= es@.skip(i + 1));
        }
        w.open("let choice_res = {");
        let r = compile_expr(w, &es[i], result_used);
        match r {
            Ok(_) => {},
            Err(_) => {
                proof {
                    assert(false);
                }
            },
        }
        w.close("};");
        w.open("match choice_res {");
        w.line("Ok((pos, value)) => { Ok((pos, value)) }");
        w.open("Err(_) => {");
        compile_alts(w, es, result_used, i + 1);
        w.close("}");
        w.close("}");
        proof {
            assert(w@.lines =~= lines0 + alts_lines(es@.skip(i as int), result_used, ind));
        }
    }
}

/// Compile the tagged elements of an action and, after all of them, the
/// matched-substring binding and the host code block in their scope.
fn compile_action_elems(w: &mut RustWriter, tes: &Vec<TaggedExpr>, code: &str, i: usize)
    requires
        0 <= i <= tes@.len(),
        !tagged_has_unimplemented(tes@.skip(i as int)),
        old(w)@.indent + 4 * esize_tagged(tes@.skip(i as int)) + 4 <= usize::MAX,
    ensures
        final(w)@.lines == old(w)@.lines + act_lines(tes@.skip(i as int), code@, old(w)@.indent),
        final(w)@.indent == old(w)@.indent,
    decreases esize_tagged(tes@.skip(i as int)), 3nat,
{
    let ghost ind = w@.indent;
    let ghost lines0 = w@.lines;
    let n = tes.len();
    if i == n {
        w.line("let match_str = &input[start_pos..pos];");
        let l = cat3("Ok((pos, (|| { ", code, " })()))");
        w.line_string(l);
        proof {
            assert(tes@.skip(i as int).len() == 0);
            assert(w@.lines =~= lines0 + act_lines(tes@.skip(i as int), code@, ind));
        }
    } else {
        proof {
            assert(tes@.skip(i as int)[0] == tes@[i as int]);
            lemma_esize_pos(tes@[i as int].expr);
            lemma_esize_tagged_elem(tes@.skip(i as int), 0);
            lemma_tagged_unimpl_elem(tes@.skip(i as int), 0);
            assert(tes@.skip(i as int).skip(1) =~= tes@.skip(i + 1));
        }
        let vn: Option<&str> = match &tes[i].name {
            Some(nm) => Some(nm.as_str()),
            None => None,
        };
        let r = compile_match_and_then(w, &tes[i].expr, vn);
        match r {
            Ok(_) => {},
            Err(_) => {
                proof {
                    assert(false);
                }
            },
        }
        compile_action_elems(w, tes, code, i + 1);
        w.close("}");
        w.close("}");
        proof {
            assert(w@.lines =~= lines0 + act_lines(tes@.skip(i as int), code@, ind));
        }
    }
}

/// Emit the matcher logic of one expression: given the input text and a
/// start offset in scope, the emitted code yields success with a new
/// offset and a value, or failure with the offset where matching stopped.
/// The value-needed flag only prunes value-carrying code paths. Exactly
/// the lines of `expr_lines` are appended and the level is restored; a
/// tree holding an unimplemented combinator is refused up front with
/// nothing emitted.
#[verifier::rlimit(50)]
pub fn compile_expr(w: &mut RustWriter, e: &Expr, result_used: bool) -> (r: Result<
    (),
    CompileError,
>)
    requires
        old(w)@.indent + 4 * esize(*e) + 2 <= usize::MAX,
    ensures
        match r {
            Ok(_) => !has_unimplemented(*e) && final(w)@.lines == old(w)@.lines + expr_lines(
                *e,
                result_used,
                old(w)@.indent,
            ) && final(w)@.indent == old(w)@.indent,
            Err(_) => has_unimplemented(*e) && final(w)@.lines == old(w)@.lines && final(w)@.indent
                == old(w)@.indent,
        },
    decreases esize(*e), 1nat,
{
    if !expr_supported(e) {
        return Err(CompileError::Unimplemented);
    }
    let ghost ind = w@.indent;
    let ghost lines0 = w@.lines;
    match e {
        Expr::AnyCharExpr => {
            w.line("any_char(input, pos)");
            proof {
                assert(w@.lines =~= lines0 + expr_lines(*e, result_used, ind));
            }
            Ok(())
        },
        Expr::LiteralExpr(s) => {
            let l = cat3("slice_eq(input, pos, \"", s.as_str(), "\")");
            w.line_string(l);
            proof {
                assert(w@.lines =~= lines0 + expr_lines(*e, result_used, ind));
            }
            Ok(())
        },
        Expr::CharSetExpr(invert, cases) => {
            w.open("if input.len() > pos {");
            w.line("let (ch, next) = char_range_at(input, pos);");
            w.open("match ch {");
            let pat = build_cases_text(cases);
            let mut arm = pat;
            arm.append(" => { ");
            if !*invert {
                arm.append("Ok((next, ()))");
            } else {
                arm.append("Err(pos)");
            }
            arm.append(" }");
            w.line_string(arm);
            let mut other = String::from_str("_ => { ");
            if !*invert {
                other.append("Err(pos)");
            } else {
                other.append("Ok((next, ()))");
            }
            other.append(" }");
            w.line_string(other);
            w.close("}");
            w.mid("} else {");
            w.line("Err(pos)");
            w.close("}");
            proof {
                assert(w@.lines =~= lines0 + expr_lines(*e, result_used, ind));
            }
            Ok(())
        },
        Expr::RuleExpr(name) => {
            let l = cat3("parse_", name.as_str(), "(input, pos)");
            w.line_string(l);
            proof {
                assert(w@.lines =~= lines0 + expr_lines(*e, result_used, ind));
            }
            Ok(())
        },
        Expr::SequenceExpr(es) => {
            if es.len() == 0 {
                w.line("Ok((pos, ()))");
                proof {
                    assert(seq_lines(es@, result_used, ind) =~= seq![
                        line_at(ind, "Ok((pos, ()))"@),
                    ]);
                    assert(w@.lines =~= lines0 + expr_lines(*e, result_used, ind));
                }
                return Ok(());
            }
            proof {
                assert(es@.skip(0) =~= es@);
            }
            compile_seq(w, es, result_used, 0);
            proof {
                assert(w@.lines =~= lines0 + expr_lines(*e, result_used, ind));
            }
            Ok(())
        },
        Expr::ChoiceExpr(es) => {
            if es.len() == 0 {
                proof {
                    assert(alts_lines(es@, result_used, ind) =~= Seq::<LineV>::empty());
                    assert(w@.lines =~= lines0 + expr_lines(*e, result_used, ind));
                }
                return Ok(());
            }
            proof {
                assert(es@.skip(0) =~= es@);
            }
            compile_alts(w, es, result_used, 0);
            proof {
                assert(w@.lines =~= lines0 + expr_lines(*e, result_used, ind));
            }
            Ok(())
        },
        Expr::OptionalExpr(b) => {
            w.open("let optional_res = {");
            let r = compile_expr(w, b, result_used);
            match r {
                Ok(_) => {},
                Err(_) => {
                    proof {
                        assert(false);
                    }
                },
            }
            w.close("};");
            w.open("match optional_res {");
            w.line("Ok((newpos, value)) => { Ok((newpos, Some(value))) }");
            w.line("Err(_) => { Ok((pos, None)) }");
            w.close("}");
            proof {
                assert(w@.lines =~= lines0 + expr_lines(*e, result_used, ind));
            }
            Ok(())
        },
        Expr::ZeroOrMore(b) => {
            let init: Option<&str> = if result_used {
                Some("vec![]")
            } else {
                None
            };
            let r = compile_zero_or_more(w, b, init);
            match r {
                Ok(_) => {},
                Err(_) => {
                    proof {
                        assert(false);
                    }
                },
            }
            proof {
                assert(w@.lines =~= lines0 + expr_lines(*e, result_used, ind));
            }
            Ok(())
        },
        Expr::OneOrMore(b) => {
            let vn: Option<&str> = if result_used {
                Some("first_value")
            } else {
                None
            };
            let r = compile_match_and_then(w, b, vn);
            match r {
                Ok(_) => {},
                Err(_) => {
                    proof {
                        assert(false);
                    }
                },
            }
            let init: Option<&str> = if result_used {
                Some("vec![first_value]")
            } else {
                None
            };
            let r2 = compile_zero_or_more(w, b, init);
            match r2 {
                Ok(_) => {},
                Err(_) => {
                    proof {
                        assert(false);
                    }
                },
            }
            w.close("}");
            w.close("}");
            proof {
                assert(w@.lines =~= lines0 + expr_lines(*e, result_used, ind));
            }
            Ok(())
        },
        Expr::PosAssertExpr(b) => {
            w.open("let assert_res = {");
            let r = compile_expr(w, b, false);
            match r {
                Ok(_) => {},
                Err(_) => {
                    proof {
                        assert(false);
                    }
                },
            }
            w.close("};");
            w.open("match assert_res {");
            w.line("Ok(_) => { Ok((pos, ())) }");
            w.line("Err(_) => { Err(pos) }");
            w.close("}");
            proof {
                assert(w@.lines =~= lines0 + expr_lines(*e, result_used, ind));
            }
            Ok(())
        },
        Expr::NegAssertExpr(b) => {
            w.open("let neg_assert_res = {");
            let r = compile_expr(w, b, false);
            match r {
                Ok(_) => {},
                Err(_) => {
                    proof {
                        assert(false);
                    }
                },
            }
            w.close("};");
            w.open("match neg_assert_res {");
            w.line("Err(_) => { Ok((pos, ())) }");
            w.line("Ok(_) => { Err(pos) }");
            w.close("}");
            proof {
                assert(w@.lines =~= lines0 + expr_lines(*e, result_used, ind));
            }
            Ok(())
        },
        Expr::DelimitedExpr(_, _) => {
            proof {
                assert(false);
            }
            Err(CompileError::Unimplemented)
        },
        Expr::StringifyExpr(_) => {
            proof {
                assert(false);
            }
            Err(CompileError::Unimplemented)
        },
        Expr::ActionExpr(tes, code) => {
            w.line("let start_pos = pos;");
            proof {
                assert(tes@.skip(0) =~= tes@);
            }
            compile_action_elems(w, tes, code.as_str(), 0);
            proof {
                assert(w@.lines =~= lines0 + expr_lines(*e, result_used, ind));
            }
            Ok(())
        },
    }
}

/// Emit the two procedures of one rule: the raw matcher `parse_<name>`
/// over (input, offset), and the public entry `<name>` that accepts only
/// a fully consumed input, reporting a trailing-characters error or the
/// failure offset otherwise.
pub fn compile_rule(w: &mut RustWriter, rule: &Rule) -> (r: Result<(), CompileError>)
    requires
        old(w)@.indent + 4 * esize(rule.expr) + 6 <= usize::MAX,
    ensures
        match r {
            Ok(_) => !has_unimplemented(rule.expr) && final(w)@.lines == old(w)@.lines + rule_lines(
                *rule,
                old(w)@.indent,
            ) && final(w)@.indent == old(w)@.indent,
            Err(_) => has_unimplemented(rule.expr) && final(w)@.lines == old(w)@.lines && final(
                w)@.indent == old(w)@.indent,
        },
{
    if !expr_supported(&rule.expr) {
        return Err(CompileError::Unimplemented);
    }
    let ghost ind = w@.indent;
    let ghost lines0 = w@.lines;
    proof {
        lemma_esize_pos(rule.expr);
    }
    w.line("#[allow(unused_variables)]");
    let head = cat5(
        "fn parse_",
        rule.name.as_str(),
        "(input: &str, pos: usize) -> Result<(usize, ",
        rule.ret_type.as_str(),
        "), usize> {",
    );
    w.open_string(head);
    let used = !str_eq(rule.ret_type.as_str(), "()");
    let r = compile_expr(w, &rule.expr, used);
    match r {
        Ok(_) => {},
        Err(_) => {
            proof {
                assert(false);
            }
        },
    }
    w.close("}");
    let ehead = cat5(
        "pub fn ",
        rule.name.as_str(),
        "(input: &str) -> Result<",
        rule.ret_type.as_str(),
        ", String> {",
    );
    w.open_string(ehead);
    let mhead = cat3("match parse_", rule.name.as_str(), "(input, 0) {");
    w.open_string(mhead);
    w.open("Ok((pos, value)) => {");
    w.open("if pos == input.len() {");
    w.line("Ok(value)");
    w.mid("} else {");
    w.line("Err(String::from(\"Unexpected characters at end of input\"))");
    w.close("}");
    w.close("}");
    w.line("Err(pos) => { Err(format!(\"Error at {}\", pos)) }");
    w.close("}");
    w.close("}");
    proof {
        assert(w@.lines =~= lines0 + rule_lines(*rule, ind));
    }
    Ok(())
}

/// Compile a whole grammar: the fixed preamble, the verbatim initializer
/// if any, then each rule in declaration order. A grammar using an
/// unimplemented combinator is refused before anything is emitted.
pub fn compile_grammar(w: &mut RustWriter, grammar: &Grammar) -> (r: Result<(), CompileError>)
    requires
        forall|i: int|
            0 <= i < grammar.rules@.len() ==> old(w)@.indent + 4 * esize(
                #[trigger] grammar.rules@[i].expr,
            ) + 6 <= usize::MAX,
    ensures
        match r {
            Ok(_) => !grammar_has_unimplemented(*grammar) && final(w)@.lines == old(w)@.lines
                + grammar_lines(*grammar, old(w)@.indent) && final(w)@.indent == old(w)@.indent,
            Err(_) => grammar_has_unimplemented(*grammar) && final(w)@.lines == old(w)@.lines
                && final(w)@.indent == old(w)@.indent,
        },
{
    let nr = grammar.rules.len();
    let mut i: usize = 0;
    while i < nr
        invariant
            0 <= i <= nr,
            nr == grammar.rules@.len(),
            forall|j: int| 0 <= j < i ==> !has_unimplemented(#[trigger] grammar.rules@[j].expr),
        decreases nr - i,
    {
        if !expr_supported(&grammar.rules[i].expr) {
            proof {
                assert(has_unimplemented(grammar.rules@[i as int].expr));
            }
            return Err(CompileError::Unimplemented);
        }
        i += 1;
    }
    let ghost ind = w@.indent;
    let ghost lines0 = w@.lines;
    compile_header(w);
    match &grammar.initializer {
        Some(init) => {
            w.blob(init.as_str());
        },
        None => {},
    }
    let ghost prefix = w@.lines;
    proof {
        assert(grammar.rules@.skip(0) =~= grammar.rules@);
    }
    let mut k: usize = 0;
    while k < nr
        invariant
            0 <= k <= nr,
            nr == grammar.rules@.len(),
            w@.indent == ind,
            forall|j: int|
                0 <= j < nr ==> ind + 4 * esize(#[trigger] grammar.rules@[j].expr) + 6
                    <= usize::MAX,
            forall|j: int| 0 <= j < nr ==> !has_unimplemented(#[trigger] grammar.rules@[j].expr),
            lines0 + grammar_lines(*grammar, ind) == w@.lines + rules_lines(
                grammar.rules@.skip(k as int),
                ind,
            ),
        decreases nr - k,
    {
        proof {
            assert(grammar.rules@.skip(k as int)[0] == grammar.rules@[k as int]);
            assert(grammar.rules@.skip(k as int).skip(1) =~= grammar.rules@.skip(k + 1));
        }
        let ghost before = w@.lines;
        let r = compile_rule(w, &grammar.rules[k]);
        match r {
            Ok(_) => {},
            Err(_) => {
                proof {
                    assert(false);
                }
            },
        }
        proof {
            assert(w@.lines + rules_lines(grammar.rules@.skip(k + 1), ind) =~= before
                + rules_lines(grammar.rules@.skip(k as int), ind));
        }
        k += 1;
    }
    proof {
        assert(rules_lines(grammar.rules@.skip(nr as int), ind) =~= Seq::<LineV>::empty());
        assert(lines0 + grammar_lines(*grammar, ind) =~= w@.lines);
    }
    Ok(())
}

} // verus!
