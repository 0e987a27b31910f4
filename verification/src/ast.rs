//! The grammar intermediate representation: a read-only tree describing
//! a parsing-expression grammar, built by an upstream producer.
use vstd::prelude::*;

verus! {

/// An inclusive character range `[start, end]`; `start == end` denotes a
/// single character. `start <= end` is assumed, not checked.
#[derive(Clone, Copy, Debug, PartialEq, Eq)]
pub struct CharSetCase {
    pub start: char,
    pub end: char,
}

/// A sub-expression of a semantic action, optionally bound to a name that
/// the action's host code can refer to.
pub struct TaggedExpr {
    pub name: Option<String>,
    pub expr: Expr,
}

/// One parsing expression. `DelimitedExpr` and `StringifyExpr` are part of
/// the authoring surface but unimplemented: compiling a grammar containing
/// either aborts code generation.
pub enum Expr {
    AnyCharExpr,
    LiteralExpr(String),
    CharSetExpr(bool, Vec<CharSetCase>),
    RuleExpr(String),
    SequenceExpr(Vec<Expr>),
    ChoiceExpr(Vec<Expr>),
    OptionalExpr(Box<Expr>),
    ZeroOrMore(Box<Expr>),
    OneOrMore(Box<Expr>),
    DelimitedExpr(Box<Expr>, Box<Expr>),
    PosAssertExpr(Box<Expr>),
    NegAssertExpr(Box<Expr>),
    StringifyExpr(Box<Expr>),
    ActionExpr(Vec<TaggedExpr>, String),
}

/// A named rule: its expression tree and the semantic type of its matched
/// value in the target language. The distinguished type `"()"` suppresses
/// value plumbing in the generated matcher.
pub struct Rule {
    pub name: String,
    pub expr: Expr,
    pub ret_type: String,
}

/// A whole grammar: an optional verbatim initializer block (trusted,
/// unvalidated target-language text) and the rules in emission order.
pub struct Grammar {
    pub initializer: Option<String>,
    pub rules: Vec<Rule>,
}

/// Number of nodes in an expression tree; at least 1. Serves as the
/// termination measure for the recursive passes over the tree.
pub open spec fn esize(e: Expr) -> nat
    decreases e,
{
    match e {
        Expr::AnyCharExpr => 1,
        Expr::LiteralExpr(_) => 1,
        Expr::CharSetExpr(_, _) => 1,
        Expr::RuleExpr(_) => 1,
        Expr::SequenceExpr(es) => 1 + esize_list(es@),
        Expr::ChoiceExpr(es) => 1 + esize_list(es@),
        Expr::OptionalExpr(b) => 1 + esize(*b),
        Expr::ZeroOrMore(b) => 1 + esize(*b),
        Expr::OneOrMore(b) => 1 + esize(*b),
        Expr::DelimitedExpr(a, b) => 1 + esize(*a) + esize(*b),
        Expr::PosAssertExpr(b) => 1 + esize(*b),
        Expr::NegAssertExpr(b) => 1 + esize(*b),
        Expr::StringifyExpr(b) => 1 + esize(*b),
        Expr::ActionExpr(tes, _) => 1 + esize_tagged(tes@),
    }
}

pub open spec fn esize_list(es: Seq<Expr>) -> nat
    decreases es,
{
    if es.len() == 0 {
        0
    } else {
        esize(es[0]) + esize_list(es.skip(1))
    }
}

pub open spec fn esize_tagged(tes: Seq<TaggedExpr>) -> nat
    decreases tes,
{
    if tes.len() == 0 {
        0
    } else {
        esize(tes[0].expr) + esize_tagged(tes.skip(1))
    }
}

pub proof fn lemma_esize_pos(e: Expr)
    ensures
        esize(e) >= 1,
{
}

/// Every element of a list weighs no more than the whole list.
pub proof fn lemma_esize_list_elem(es: Seq<Expr>, i: int)
    requires
        0 <= i < es.len(),
    ensures
        esize(es[i]) <= esize_list(es),
    decreases es.len(),
{
    if i == 0 {
    } else {
        lemma_esize_list_elem(es.skip(1), i - 1);
        assert(es.skip(1)[i - 1] == es[i]);
    }
}

pub proof fn lemma_esize_tagged_elem(tes: Seq<TaggedExpr>, i: int)
    requires
        0 <= i < tes.len(),
    ensures
        esize(tes[i].expr) <= esize_tagged(tes),
    decreases tes.len(),
{
    if i == 0 {
    } else {
        lemma_esize_tagged_elem(tes.skip(1), i - 1);
        assert(tes.skip(1)[i - 1] == tes[i]);
    }
}

/// Whether the tree contains a combinator that the compiler does not
/// implement (`DelimitedExpr` or `StringifyExpr`).
pub open spec fn has_unimplemented(e: Expr) -> bool
    decreases e,
{
    match e {
        Expr::AnyCharExpr => false,
        Expr::LiteralExpr(_) => false,
        Expr::CharSetExpr(_, _) => false,
        Expr::RuleExpr(_) => false,
        Expr::SequenceExpr(es) => list_has_unimplemented(es@),
        Expr::ChoiceExpr(es) => list_has_unimplemented(es@),
        Expr::OptionalExpr(b) => has_unimplemented(*b),
        Expr::ZeroOrMore(b) => has_unimplemented(*b),
        Expr::OneOrMore(b) => has_unimplemented(*b),
        Expr::DelimitedExpr(_, _) => true,
        Expr::PosAssertExpr(b) => has_unimplemented(*b),
        Expr::NegAssertExpr(b) => has_unimplemented(*b),
        Expr::StringifyExpr(_) => true,
        Expr::ActionExpr(tes, _) => tagged_has_unimplemented(tes@),
    }
}

pub open spec fn list_has_unimplemented(es: Seq<Expr>) -> bool
    decreases es,
{
    if es.len() == 0 {
        false
    } else {
        has_unimplemented(es[0]) || list_has_unimplemented(es.skip(1))
    }
}

pub open spec fn tagged_has_unimplemented(tes: Seq<TaggedExpr>) -> bool
    decreases tes,
{
    if tes.len() == 0 {
        false
    } else {
        has_unimplemented(tes[0].expr) || tagged_has_unimplemented(tes.skip(1))
    }
}

pub open spec fn grammar_has_unimplemented(g: Grammar) -> bool {
    exists|i: int| 0 <= i < g.rules@.len() && has_unimplemented(#[trigger] g.rules@[i].expr)
}

/// A list free of unimplemented combinators has no element with one.
pub proof fn lemma_list_unimpl_elem(es: Seq<Expr>, i: int)
    requires
        0 <= i < es.len(),
        !list_has_unimplemented(es),
    ensures
        !has_unimplemented(es[i]),
    decreases i,
{
    if i > 0 {
        lemma_list_unimpl_elem(es.skip(1), i - 1);
        assert(es.skip(1)[i - 1] == es[i]);
    }
}

pub proof fn lemma_tagged_unimpl_elem(tes: Seq<TaggedExpr>, i: int)
    requires
        0 <= i < tes.len(),
        !tagged_has_unimplemented(tes),
    ensures
        !has_unimplemented(tes[i].expr),
    decreases i,
{
    if i > 0 {
        lemma_tagged_unimpl_elem(tes.skip(1), i - 1);
        assert(tes.skip(1)[i - 1] == tes[i]);
    }
}

/// Whether code can be generated for the tree: true exactly when no
/// unimplemented combinator occurs in it.
pub fn expr_supported(e: &Expr) -> (r: bool)
    ensures
        r == !has_unimplemented(*e),
    decreases esize(*e), 0nat,
{
    match e {
        Expr::AnyCharExpr => true,
        Expr::LiteralExpr(_) => true,
        Expr::CharSetExpr(_, _) => true,
        Expr::RuleExpr(_) => true,
        Expr::SequenceExpr(es) => list_supported(es),
        Expr::ChoiceExpr(es) => list_supported(es),
        Expr::OptionalExpr(b) => expr_supported(b),
        Expr::ZeroOrMore(b) => expr_supported(b),
        Expr::OneOrMore(b) => expr_supported(b),
        Expr::DelimitedExpr(_, _) => false,
        Expr::PosAssertExpr(b) => expr_supported(b),
        Expr::NegAssertExpr(b) => expr_supported(b),
        Expr::StringifyExpr(_) => false,
        Expr::ActionExpr(tes, _) => {
            let n = tes.len();
            let mut i: usize = 0;
            proof {
                assert(tes@.skip(0) =~= tes@);
            }
            while i < n
                invariant
                    0 <= i <= n,
                    n == tes@.len(),
                    esize(*e) == 1 + esize_tagged(tes@),
                    has_unimplemented(*e) == tagged_has_unimplemented(tes@),
                    tagged_has_unimplemented(tes@) == tagged_has_unimplemented(tes@.skip(i as int)),
                decreases n - i,
            {
                proof {
                    lemma_esize_tagged_elem(tes@, i as int);
                    assert(tes@.skip(i as int)[0] == tes@[i as int]);
                    assert(tes@.skip(i as int).skip(1) =~= tes@.skip(i + 1));
                }
                if !expr_supported(&tes[i].expr) {
                    return false;
                }
                i += 1;
            }
            true
        },
    }
}

fn list_supported(es: &Vec<Expr>) -> (r: bool)
    ensures
        r == !list_has_unimplemented(es@),
    decreases esize_list(es@), 1nat,
{
    let n = es.len();
    let mut i: usize = 0;
    proof {
        assert(es@.skip(0) =~= es@);
    }
    while i < n
        invariant
            0 <= i <= n,
            n == es@.len(),
            list_has_unimplemented(es@) == list_has_unimplemented(es@.skip(i as int)),
        decreases n - i,
    {
        proof {
            lemma_esize_list_elem(es@, i as int);
            lemma_esize_pos(es@[i as int]);
            assert(es@.skip(i as int)[0] == es@[i as int]);
            assert(es@.skip(i as int).skip(1) =~= es@.skip(i + 1));
        }
        if !expr_supported(&es[i]) {
            return false;
        }
        i += 1;
    }
    true
}

} // verus!
