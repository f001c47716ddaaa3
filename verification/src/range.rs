//! Sub-parsers for range bound expressions, ranges and discrete ranges.
use crate::ast::{DiscreteRange, Direction, Expr, Operator, RangeExpr};
use crate::grammar::{
    dir_kind, is_primary, lemma_parsed_expr_len, op_kind, parsed_discrete_range, parsed_expr,
    parsed_range, sel_end,
};
use crate::names::{name_run_end, name_run_window, parse_selected_name};
use crate::tokens::{Kind, ParseError, Token, TokenStream};
use vstd::prelude::*;

verus! {

/// A one-token expression stands at `p`: a number, or an identifier that
/// no dot continues. Its acceptance is owed.
pub open spec fn simple_primary_window(t: Seq<Token>, p: int) -> bool {
    &&& 0 <= p < t.len()
    &&& (t[p].kind == Kind::Number || (t[p].kind == Kind::Identifier && (p + 1 == t.len() || t[p
        + 1].kind != Kind::Dot)))
}

/// A one-token expression stands at `p` and no operator chain follows.
pub open spec fn simple_expr_window(t: Seq<Token>, p: int) -> bool {
    &&& simple_primary_window(t, p)
    &&& (p + 1 == t.len() || (t[p + 1].kind != Kind::Plus && t[p + 1].kind != Kind::Minus))
}

/// A lone identifier that no dot, attribute, direction or operator
/// continues stands at `p`: a discrete range that is a bare subtype name.
pub open spec fn lone_discrete_window(t: Seq<Token>, p: int) -> bool {
    &&& 0 <= p < t.len()
    &&& t[p].kind == Kind::Identifier
    &&& (p + 1 == t.len() || (t[p + 1].kind != Kind::Dot && t[p + 1].kind != Kind::Tick && t[p
        + 1].kind != Kind::KwTo && t[p + 1].kind != Kind::KwDownto && t[p + 1].kind != Kind::Plus
        && t[p + 1].kind != Kind::Minus))
}

/// A bound of one or two single-token terms stands at `p`: `a`, `0`,
/// `2-1`, `x+y`, with no dot or further operator after it.
pub open spec fn two_term_expr_window(t: Seq<Token>, p: int) -> bool {
    ||| simple_expr_window(t, p)
    ||| (simple_primary_window(t, p) && p + 1 < t.len() && (t[p + 1].kind == Kind::Plus || t[p
        + 1].kind == Kind::Minus) && simple_expr_window(t, p + 2))
}

/// Where a bound matched by `two_term_expr_window` ends.
pub open spec fn two_term_end(t: Seq<Token>, p: int) -> int {
    if simple_expr_window(t, p) {
        p + 1
    } else {
        p + 3
    }
}

/// Where a range matched by `simple_range_window` ends: after its right
/// bound.
pub open spec fn simple_range_end(t: Seq<Token>, i: int) -> int {
    two_term_end(t, two_term_end(t, i) + 1)
}

/// A range whose bounds are one- or two-term expressions stands at `i`:
/// `0 to 2-1`, `a downto b`. Its acceptance is owed.
pub open spec fn simple_range_window(t: Seq<Token>, i: int) -> bool {
    &&& two_term_expr_window(t, i)
    &&& two_term_end(t, i) < t.len()
    &&& (t[two_term_end(t, i)].kind == Kind::KwTo || t[two_term_end(t, i)].kind == Kind::KwDownto)
    &&& two_term_expr_window(t, two_term_end(t, i) + 1)
}

/// Parse a single expression item: a number or a selected name.
fn parse_primary(stream: &mut TokenStream) -> (r: Result<Expr, ParseError>)
    requires
        old(stream).wf(),
    ensures
        final(stream).wf(),
        final(stream).toks() == old(stream).toks(),
        old(stream).at() <= final(stream).at(),
        r matches Err(e) ==> e.expected@.len() >= 1,
        r is Ok ==> old(stream).at() < final(stream).at(),
        r matches Ok(e) ==> is_primary(e) && parsed_expr(
            old(stream).toks(),
            old(stream).at(),
            final(stream).at(),
            e,
        ),
        simple_primary_window(old(stream).toks(), old(stream).at()) ==> (r is Ok
            && final(stream).at() == old(stream).at() + 1),
    {
    let ghost t = old(stream).toks();
    let ghost i = old(stream).at();
    match stream.peek() {
        Some(tok) => {
            if tok.kind == Kind::Number {
                stream.skip();
                Ok(Expr::Num { value: tok.value, pos: tok.pos })
            } else {
                let n = parse_selected_name(stream)?;
                proof {
                    if simple_primary_window(t, i) {
                        if n.parts@.len() >= 2 {
                            assert(crate::grammar::parsed_ident(t, i, n.parts@[0]));
                            assert(t[i + 1].kind == Kind::Dot);
                            assert(false);
                        }
                        assert(stream.at() == i + 1);
                    }
                }
                Ok(Expr::Name(n))
            }
        },
        None => {
            let n = parse_selected_name(stream)?;
            Ok(Expr::Name(n))
        },
    }
}

/// Continue a left-associated operator chain whose first item is already
/// parsed; `i` is where that item began.
#[verifier::loop_isolation(false)]
fn parse_expr_tail(stream: &mut TokenStream, first: Expr, Ghost(i): Ghost<int>) -> (r: Result<
    Expr,
    ParseError,
>)
    requires
        old(stream).wf(),
        parsed_expr(old(stream).toks(), i, old(stream).at(), first),
    ensures
        final(stream).wf(),
        final(stream).toks() == old(stream).toks(),
        old(stream).at() <= final(stream).at(),
        r matches Err(e) ==> e.expected@.len() >= 1,
        r matches Ok(e) ==> parsed_expr(old(stream).toks(), i, final(stream).at(), e),
        r is Ok ==> (final(stream).at() == final(stream).toks().len()
            || (final(stream).toks()[final(stream).at()].kind != Kind::Plus
            && final(stream).toks()[final(stream).at()].kind != Kind::Minus)),
        (old(stream).at() == old(stream).toks().len() || (old(stream).toks()[old(stream).at()].kind
            != Kind::Plus && old(stream).toks()[old(stream).at()].kind != Kind::Minus)) ==> (r
            is Ok && final(stream).at() == old(stream).at()),
        (old(stream).at() < old(stream).toks().len() && (old(stream).toks()[old(stream).at()].kind
            == Kind::Plus || old(stream).toks()[old(stream).at()].kind == Kind::Minus)
            && simple_expr_window(old(stream).toks(), old(stream).at() + 1)) ==> (r is Ok
            && final(stream).at() == old(stream).at() + 2),
    {
    let ghost t = old(stream).toks();
    let mut e = first;
    let mut more = peek_is_add_op(stream);
    while more
        invariant
            stream.wf(),
            stream.toks() == t,
            old(stream).at() <= stream.at(),
            parsed_expr(t, i, stream.at(), e),
            more == (stream.at() < t.len() && (t[stream.at()].kind == Kind::Plus || t[stream.at()].kind
                == Kind::Minus)),
            (old(stream).at() == t.len() || (t[old(stream).at()].kind != Kind::Plus && t[old(
                stream,
            ).at()].kind != Kind::Minus)) ==> stream.at() == old(stream).at(),
            (old(stream).at() < t.len() && (t[old(stream).at()].kind == Kind::Plus || t[old(
                stream,
            ).at()].kind == Kind::Minus) && simple_expr_window(t, old(stream).at() + 1)) ==> (
            stream.at() == old(stream).at() || stream.at() == old(stream).at() + 2),
        decreases t.len() - stream.at(),
    {
        let op = match stream.peek_kind() {
            Some(Kind::Plus) => Operator::Plus,
            _ => Operator::Minus,
        };
        let ghost opidx = stream.at();
        stream.skip();
        let rhs = parse_primary(stream)?;
        let pos = e.position().combine(rhs.position());
        let ghost old_e = e;
        e = Expr::Binary { op, left: Box::new(e), right: Box::new(rhs), pos };
        proof {
            let bl = e->Binary_left;
            let br = e->Binary_right;
            assert(*bl == old_e);
            assert(*br == rhs);
            lemma_parsed_expr_len(t, i, opidx, old_e);
            assert(t[opidx].kind == op_kind(op));
            assert(parsed_expr(t, i, stream.at(), e));
        }
        more = peek_is_add_op(stream);
    }
    Ok(e)
}

/// Whether the next token is `+` or `-`.
fn peek_is_add_op(stream: &TokenStream) -> (b: bool)
    requires
        stream.wf(),
    ensures
        b == (stream.at() < stream.toks().len() && (stream.toks()[stream.at()].kind == Kind::Plus
            || stream.toks()[stream.at()].kind == Kind::Minus)),
    {
    match stream.peek_kind() {
        Some(Kind::Plus) => true,
        Some(Kind::Minus) => true,
        _ => false,
    }
}

/// Parse a range bound expression: a left-associated chain of additions and
/// subtractions over numbers and names.
fn parse_expr(stream: &mut TokenStream) -> (r: Result<Expr, ParseError>)
    requires
        old(stream).wf(),
    ensures
        final(stream).wf(),
        final(stream).toks() == old(stream).toks(),
        old(stream).at() <= final(stream).at(),
        r matches Err(e) ==> e.expected@.len() >= 1,
        r is Ok ==> old(stream).at() < final(stream).at(),
        r matches Ok(e) ==> parsed_expr(
            old(stream).toks(),
            old(stream).at(),
            final(stream).at(),
            e,
        ),
        r is Ok ==> (final(stream).at() == final(stream).toks().len()
            || (final(stream).toks()[final(stream).at()].kind != Kind::Plus
            && final(stream).toks()[final(stream).at()].kind != Kind::Minus)),
        simple_expr_window(old(stream).toks(), old(stream).at()) ==> (r is Ok && final(stream).at()
            == old(stream).at() + 1),
        two_term_expr_window(old(stream).toks(), old(stream).at()) ==> (r is Ok
            && final(stream).at() == two_term_end(old(stream).toks(), old(stream).at())),
    {
    let ghost i = old(stream).at();
    let first = parse_primary(stream)?;
    parse_expr_tail(stream, first, Ghost(i))
}

/// Finish a range whose left bound is already parsed: expect `to` or
/// `downto`, then the right bound; `i` is where the left bound began.
fn finish_bounds(stream: &mut TokenStream, left: Expr, Ghost(i): Ghost<int>) -> (r: Result<
    RangeExpr,
    ParseError,
>)
    requires
        old(stream).wf(),
        parsed_expr(old(stream).toks(), i, old(stream).at(), left),
    ensures
        final(stream).wf(),
        final(stream).toks() == old(stream).toks(),
        old(stream).at() <= final(stream).at(),
        r matches Err(e) ==> e.expected@.len() >= 1,
        r matches Ok(rg) ==> parsed_range(old(stream).toks(), i, final(stream).at(), rg)
            && rg matches RangeExpr::Bounds { .. },
        (old(stream).at() < old(stream).toks().len() && (old(stream).toks()[old(stream).at()].kind
            == Kind::KwTo || old(stream).toks()[old(stream).at()].kind == Kind::KwDownto)
            && two_term_expr_window(old(stream).toks(), old(stream).at() + 1)) ==> (r is Ok
            && final(stream).at() == two_term_end(old(stream).toks(), old(stream).at() + 1)),
        r is Ok ==> (final(stream).at() == final(stream).toks().len()
            || (final(stream).toks()[final(stream).at()].kind != Kind::Plus
            && final(stream).toks()[final(stream).at()].kind != Kind::Minus)),
    {
    let ghost t = old(stream).toks();
    let ghost diridx = old(stream).at();
    let direction = match stream.peek_kind() {
        Some(Kind::KwTo) => Direction::Ascending,
        Some(Kind::KwDownto) => Direction::Descending,
        _ => {
            let pos = match stream.peek() {
                Some(tok) => tok.pos,
                None => crate::tokens::Span { start: 0, end: 0 },
            };
            let mut expected: Vec<Kind> = Vec::new();
            expected.push(Kind::KwTo);
            expected.push(Kind::KwDownto);
            return Err(ParseError { pos, expected, context: None });
        },
    };
    stream.skip();
    let right = parse_expr(stream)?;
    let pos = left.position().combine(right.position());
    let rg = RangeExpr::Bounds { left, direction, right, pos };
    proof {
        lemma_parsed_expr_len(t, i, diridx, rg->Bounds_left);
        assert(t[diridx].kind == dir_kind(direction));
        assert(parsed_range(t, i, stream.at(), rg));
    }
    Ok(rg)
}

/// Parse a range: `a to b`, `a downto b`, or `name'range`.
pub fn parse_range(stream: &mut TokenStream) -> (r: Result<RangeExpr, ParseError>)
    requires
        old(stream).wf(),
    ensures
        final(stream).wf(),
        final(stream).toks() == old(stream).toks(),
        old(stream).at() <= final(stream).at(),
        r matches Err(e) ==> e.expected@.len() >= 1,
        r is Ok ==> old(stream).at() < final(stream).at(),
        r matches Ok(rg) ==> parsed_range(
            old(stream).toks(),
            old(stream).at(),
            final(stream).at(),
            rg,
        ),
        simple_range_window(old(stream).toks(), old(stream).at()) ==> (r is Ok
            && final(stream).at() == simple_range_end(old(stream).toks(), old(stream).at())),
        r matches Ok(rg) ==> (rg matches RangeExpr::Bounds { .. } ==> (final(stream).at()
            == final(stream).toks().len() || (final(stream).toks()[final(stream).at()].kind
            != Kind::Plus && final(stream).toks()[final(stream).at()].kind != Kind::Minus))),
    {
    let ghost t = old(stream).toks();
    let ghost i = old(stream).at();
    match stream.peek_kind() {
        Some(Kind::Identifier) => {
            let n = parse_selected_name(stream)?;
            proof {
                if simple_range_window(t, i) {
                    if n.parts@.len() >= 2 {
                        assert(crate::grammar::parsed_ident(t, i, n.parts@[0]));
                        assert(t[i + 1].kind == Kind::Dot);
                        assert(false);
                    }
                    assert(stream.at() == i + 1);
                    assert(t[i].kind != Kind::Number);
                    assert(simple_primary_window(t, i));
                }
            }
            if stream.skip_if_kind(Kind::Tick) {
                let ti = stream.expect_kind(Kind::KwRange)?;
                let attr_pos = stream.get_pos(ti);
                let pos = n.pos.combine(attr_pos);
                let rg = RangeExpr::Attribute { name: n, pos };
                proof {
                    assert(sel_end(i, rg->Attribute_name) == i + 2 * (
                    rg->Attribute_name.parts@.len() as int) - 1);
                    assert(parsed_range(t, i, stream.at(), rg));
                }
                Ok(rg)
            } else {
                let left = parse_expr_tail(stream, Expr::Name(n), Ghost(i))?;
                finish_bounds(stream, left, Ghost(i))
            }
        },
        _ => {
            let left = parse_expr(stream)?;
            finish_bounds(stream, left, Ghost(i))
        },
    }
}

/// Parse a discrete range: a range, or a bare subtype name used as one.
pub fn parse_discrete_range(stream: &mut TokenStream) -> (r: Result<DiscreteRange, ParseError>)
    requires
        old(stream).wf(),
    ensures
        final(stream).wf(),
        final(stream).toks() == old(stream).toks(),
        old(stream).at() <= final(stream).at(),
        r matches Err(e) ==> e.expected@.len() >= 1,
        r is Ok ==> old(stream).at() < final(stream).at(),
        r matches Ok(d) ==> parsed_discrete_range(
            old(stream).toks(),
            old(stream).at(),
            final(stream).at(),
            d,
        ),
        lone_discrete_window(old(stream).toks(), old(stream).at()) ==> (r is Ok
            && final(stream).at() == old(stream).at() + 1),
        simple_range_window(old(stream).toks(), old(stream).at()) ==> (r is Ok
            && final(stream).at() == simple_range_end(old(stream).toks(), old(stream).at())),
        (name_run_window(old(stream).toks(), old(stream).at()) && (name_run_end(
            old(stream).toks(),
            old(stream).at(),
        ) == old(stream).toks().len() || (old(stream).toks()[name_run_end(
            old(stream).toks(),
            old(stream).at(),
        )].kind != Kind::Tick && old(stream).toks()[name_run_end(
            old(stream).toks(),
            old(stream).at(),
        )].kind != Kind::KwTo && old(stream).toks()[name_run_end(
            old(stream).toks(),
            old(stream).at(),
        )].kind != Kind::KwDownto && old(stream).toks()[name_run_end(
            old(stream).toks(),
            old(stream).at(),
        )].kind != Kind::Plus && old(stream).toks()[name_run_end(
            old(stream).toks(),
            old(stream).at(),
        )].kind != Kind::Minus))) ==> (r is Ok && final(stream).at() == name_run_end(
            old(stream).toks(),
            old(stream).at(),
        )),
    {
    let ghost t = old(stream).toks();
    let ghost i = old(stream).at();
    match stream.peek_kind() {
        Some(Kind::Identifier) => {
            let n = parse_selected_name(stream)?;
            proof {
                if lone_discrete_window(t, i) {
                    if n.parts@.len() >= 2 {
                        assert(crate::grammar::parsed_ident(t, i, n.parts@[0]));
                        assert(t[i + 1].kind == Kind::Dot);
                        assert(false);
                    }
                    assert(stream.at() == i + 1);
                }
                if simple_range_window(t, i) {
                    if n.parts@.len() >= 2 {
                        assert(crate::grammar::parsed_ident(t, i, n.parts@[0]));
                        assert(t[i + 1].kind == Kind::Dot);
                        assert(false);
                    }
                    assert(stream.at() == i + 1);
                    assert(t[i].kind != Kind::Number);
                    assert(simple_primary_window(t, i));
                }
            }
            if stream.skip_if_kind(Kind::Tick) {
                let ti = stream.expect_kind(Kind::KwRange)?;
                let attr_pos = stream.get_pos(ti);
                let pos = n.pos.combine(attr_pos);
                let rg = RangeExpr::Attribute { name: n, pos };
                proof {
                    assert(parsed_range(t, i, stream.at(), rg));
                }
                Ok(DiscreteRange::Range(rg))
            } else {
                let more = match stream.peek_kind() {
                    Some(Kind::KwTo) => true,
                    Some(Kind::KwDownto) => true,
                    Some(Kind::Plus) => true,
                    Some(Kind::Minus) => true,
                    _ => false,
                };
                if more {
                    let left = parse_expr_tail(stream, Expr::Name(n), Ghost(i))?;
                    let rg = finish_bounds(stream, left, Ghost(i))?;
                    Ok(DiscreteRange::Range(rg))
                } else {
                    Ok(DiscreteRange::Discrete(n))
                }
            }
        },
        _ => {
            let left = parse_expr(stream)?;
            let rg = finish_bounds(stream, left, Ghost(i))?;
            Ok(DiscreteRange::Range(rg))
        },
    }
}

} // verus!
