//! Properties of the parser and the target resolver that reach across
//! single contracts: positional containment of nested spans, the
//! independence of the two assignment-legality checks, and determinism of
//! target resolution.
use crate::ast::{
    DiscreteRange, Expr, PosConstraint, RangeExpr, SubtypeConstraint, SubtypeIndication,
};
use crate::grammar::{
    constraint_len, discrete_range_len, expr_len, parsed_constraint, parsed_discrete_range,
    parsed_discrete_range_list, parsed_element_constraint, parsed_element_constraint_list,
    parsed_expr, parsed_range, parsed_selected_name, parsed_subtype_indication, sel_end,
};
use crate::target::{
    is_valid_assignment_target_spec, lookup_spec, msg_not_target, resolve_diag_spec,
    resolve_type_spec, AssignmentType, Diagnostic, DiagnosticView, LookupOutcome, ObjectBase,
    ObjectClass, ResolvedName, Scope, TypeEnt,
};
use crate::tokens::{Span, Token};
use vstd::prelude::*;

verus! {

/// Token positions are well-formed and ordered: each span runs forward,
/// and a later token never starts or ends before an earlier one.
pub open spec fn pos_monotone(t: Seq<Token>) -> bool {
    forall|a: int, b: int|
        0 <= a <= b < t.len() ==> {
            &&& (#[trigger] t[a].pos).start <= (#[trigger] t[b].pos).start
            &&& t[a].pos.end <= t[b].pos.end
            &&& t[a].pos.start <= t[a].pos.end
        }
}

/// The span from the first to the last token of `t[i .. j)`.
pub open spec fn outer_span(t: Seq<Token>, i: int, j: int) -> Span {
    Span { start: t[i].pos.start, end: t[j - 1].pos.end }
}

/// Every part of a selected name lies inside the name's span.
pub open spec fn name_spans_contained(n: crate::ast::SelectedName) -> bool {
    forall|p: int|
        0 <= p < n.parts@.len() ==> n.pos.contains_spec((#[trigger] n.parts@[p]).pos)
}

/// Every nested positioned node of an expression lies inside the span of
/// the node that holds it.
pub open spec fn expr_spans_contained(e: Expr) -> bool
    decreases e,
{
    match e {
        Expr::Num { .. } => true,
        Expr::Name(n) => name_spans_contained(n),
        Expr::Binary { left, right, pos, .. } => {
            &&& pos.contains_spec(left.pos_spec())
            &&& pos.contains_spec(right.pos_spec())
            &&& expr_spans_contained(*left)
            &&& expr_spans_contained(*right)
        },
    }
}

/// Every nested positioned node of a range lies inside its span.
pub open spec fn range_spans_contained(r: RangeExpr) -> bool {
    match r {
        RangeExpr::Bounds { left, right, pos, .. } => {
            &&& pos.contains_spec(left.pos_spec())
            &&& pos.contains_spec(right.pos_spec())
            &&& expr_spans_contained(left)
            &&& expr_spans_contained(right)
        },
        RangeExpr::Attribute { name, pos } => pos.contains_spec(name.pos)
            && name_spans_contained(name),
    }
}

/// Every nested positioned node of a discrete range lies inside its span.
pub open spec fn discrete_range_spans_contained(d: DiscreteRange) -> bool {
    match d {
        DiscreteRange::Range(r) => range_spans_contained(r),
        DiscreteRange::Discrete(n) => name_spans_contained(n),
    }
}

/// Positional containment: every nested positioned node — discrete range,
/// element identifier, element constraint, range, expression or name part
/// — lies inside the span of the node that holds it, at every depth.
pub open spec fn constraint_spans_contained(c: PosConstraint) -> bool
    decreases c,
{
    match c.item {
        SubtypeConstraint::Range(r) => c.pos.contains_spec(r.pos_spec())
            && range_spans_contained(r),
        SubtypeConstraint::Array(rs, oe) => {
            &&& forall|k: int|
                0 <= k < rs@.len() ==> c.pos.contains_spec((#[trigger] rs@[k]).pos_spec())
                    && discrete_range_spans_contained(rs@[k])
            &&& match oe {
                None => true,
                Some(e) => c.pos.contains_spec((*e).pos) && constraint_spans_contained(*e),
            }
        },
        SubtypeConstraint::Record(elems) => forall|k: int|
            0 <= k < elems@.len() ==> {
                &&& c.pos.contains_spec((#[trigger] elems@[k]).ident.pos)
                &&& c.pos.contains_spec(elems@[k].constraint.pos)
                &&& constraint_spans_contained(*elems@[k].constraint)
            },
    }
}

/// A parsed selected name's span is exactly the span of its tokens, and
/// each part lies inside it.
pub proof fn lemma_name_span(t: Seq<Token>, i: int, j: int, n: crate::ast::SelectedName)
    requires
        parsed_selected_name(t, i, j, n),
        pos_monotone(t),
    ensures
        0 <= i < j <= t.len(),
        n.pos == outer_span(t, i, j),
        name_spans_contained(n),
{
    let k = n.parts@.len() as int;
    assert(crate::grammar::parsed_ident(t, i, n.parts@[0]));
    assert(crate::grammar::parsed_ident(t, i + 2 * (k - 1), n.parts@[k - 1]));
    assert forall|p: int| 0 <= p < n.parts@.len() implies n.pos.contains_spec(
        (#[trigger] n.parts@[p]).pos,
    ) by {
        assert(crate::grammar::parsed_ident(t, i + 2 * p, n.parts@[p]));
        assert(t[i].pos.start <= t[i + 2 * p].pos.start);
        assert(t[i + 2 * p].pos.end <= t[i + 2 * (k - 1)].pos.end);
    }
}

/// A parsed expression's span lies inside the span of its tokens.
pub proof fn lemma_expr_span(t: Seq<Token>, i: int, j: int, e: Expr)
    requires
        parsed_expr(t, i, j, e),
        pos_monotone(t),
    ensures
        0 <= i < j <= t.len(),
        e.pos_spec() == outer_span(t, i, j),
        expr_spans_contained(e),
    decreases e,
{
    match e {
        Expr::Num { value, pos } => {},
        Expr::Name(n) => {
            lemma_name_span(t, i, j, n);
        },
        Expr::Binary { op, left, right, pos } => {
            let m = i + expr_len(*left);
            lemma_expr_span(t, i, m, *left);
            lemma_expr_span(t, m + 1, j, *right);
            assert(t[i].pos.start <= t[m + 1].pos.start);
            assert(t[m - 1].pos.end <= t[j - 1].pos.end);
        },
    }
}

/// A parsed range's span lies inside the span of its tokens.
pub proof fn lemma_range_span(t: Seq<Token>, i: int, j: int, r: RangeExpr)
    requires
        parsed_range(t, i, j, r),
        pos_monotone(t),
    ensures
        0 <= i < j <= t.len(),
        r.pos_spec() == outer_span(t, i, j),
        range_spans_contained(r),
{
    match r {
        RangeExpr::Bounds { left, direction, right, pos } => {
            let m = i + expr_len(left);
            lemma_expr_span(t, i, m, left);
            lemma_expr_span(t, m + 1, j, right);
            assert(t[i].pos.start <= t[m + 1].pos.start);
            assert(t[m - 1].pos.end <= t[j - 1].pos.end);
        },
        RangeExpr::Attribute { name, pos } => {
            let e = sel_end(i, name);
            lemma_name_span(t, i, e, name);
            assert(t[i].pos.end <= t[j - 1].pos.end);
            assert(t[e - 1].pos.end <= t[j - 1].pos.end);
        },
    }
}

/// A parsed discrete range's span lies inside the span of its tokens.
pub proof fn lemma_discrete_range_span(t: Seq<Token>, i: int, j: int, d: DiscreteRange)
    requires
        parsed_discrete_range(t, i, j, d),
        pos_monotone(t),
    ensures
        0 <= i < j <= t.len(),
        d.pos_spec() == outer_span(t, i, j),
        discrete_range_spans_contained(d),
{
    match d {
        DiscreteRange::Range(r) => {
            lemma_range_span(t, i, j, r);
        },
        DiscreteRange::Discrete(n) => {
            lemma_name_span(t, i, j, n);
        },
    }
}

/// A parsed constraint's span lies inside the span of its tokens, and all
/// its nested constraints lie inside it: positional containment.
pub proof fn lemma_constraint_span(t: Seq<Token>, i: int, j: int, c: PosConstraint)
    requires
        parsed_constraint(t, i, j, c),
        pos_monotone(t),
    ensures
        0 <= i < j <= t.len(),
        c.pos == outer_span(t, i, j),
        constraint_spans_contained(c),
    decreases c,
{
    match c.item {
        SubtypeConstraint::Range(r) => {
            lemma_range_span(t, i + 1, j, r);
            assert(t[i].pos.end <= t[j - 1].pos.end);
        },
        SubtypeConstraint::Array(rs, oe) => {
            let rp = (match oe {
                None => j,
                Some(e) => j - constraint_len(*e),
            }) - 1;
            if rs@.len() > 0 {
                lemma_discrete_range_list_span(t, i + 1, rp, rs@);
            }
            match oe {
                None => {},
                Some(e) => {
                    lemma_constraint_span(t, rp + 1, j, *e);
                },
            }
            assert(t[i].pos.end <= t[j - 1].pos.end);
            assert(t[rp].pos.end <= t[j - 1].pos.end);
            assert forall|k: int| 0 <= k < rs@.len() implies c.pos.contains_spec(
                (#[trigger] rs@[k]).pos_spec(),
            ) && discrete_range_spans_contained(rs@[k]) by {
                assert(outer_span(t, i + 1, rp).contains_spec(rs@[k].pos_spec()));
                assert(t[i].pos.start <= t[i + 1].pos.start);
                assert(t[rp - 1].pos.end <= t[j - 1].pos.end);
            }
        },
        SubtypeConstraint::Record(elems) => {
            let rp = j - 1;
            lemma_element_constraint_list_span(t, i + 1, rp, elems@);
            assert forall|k: int| 0 <= k < elems@.len() implies {
                &&& c.pos.contains_spec((#[trigger] elems@[k]).ident.pos)
                &&& c.pos.contains_spec(elems@[k].constraint.pos)
                &&& constraint_spans_contained(*elems@[k].constraint)
            } by {
                assert(outer_span(t, i + 1, rp).contains_spec(elems@[k].constraint.pos));
                assert(outer_span(t, i + 1, rp).contains_spec(elems@[k].ident.pos));
                assert(t[i].pos.start <= t[i + 1].pos.start);
                assert(t[rp - 1].pos.end <= t[j - 1].pos.end);
            }
        },
    }
}

/// Every element of a parsed discrete-range list lies inside the span of
/// the list's tokens.
pub proof fn lemma_discrete_range_list_span(t: Seq<Token>, i: int, j: int, rs: Seq<DiscreteRange>)
    requires
        parsed_discrete_range_list(t, i, j, rs),
        pos_monotone(t),
    ensures
        0 <= i < j <= t.len(),
        forall|k: int|
            0 <= k < rs.len() ==> outer_span(t, i, j).contains_spec(
                (#[trigger] rs[k]).pos_spec(),
            ) && discrete_range_spans_contained(rs[k]),
    decreases rs,
{
    if rs.len() == 1 {
        lemma_discrete_range_span(t, i, j, rs.last());
        assert(rs[0] == rs.last());
    } else {
        let m = j - discrete_range_len(rs.last()) - 1;
        lemma_discrete_range_list_span(t, i, m, rs.drop_last());
        lemma_discrete_range_span(t, m + 1, j, rs.last());
        assert forall|k: int| 0 <= k < rs.len() implies outer_span(t, i, j).contains_spec(
            (#[trigger] rs[k]).pos_spec(),
        ) && discrete_range_spans_contained(rs[k]) by {
            if k < rs.len() - 1 {
                assert(rs[k] == rs.drop_last()[k]);
                assert(outer_span(t, i, m).contains_spec(rs.drop_last()[k].pos_spec()));
                assert(t[m - 1].pos.end <= t[j - 1].pos.end);
            } else {
                assert(rs[k] == rs.last());
                assert(t[i].pos.start <= t[m + 1].pos.start);
            }
        }
    }
}

/// Every element of a parsed record-constraint element list has its
/// constraint's span inside the span of the list's tokens, with the nested
/// containment below it.
pub proof fn lemma_element_constraint_list_span(
    t: Seq<Token>,
    i: int,
    j: int,
    elems: Seq<crate::ast::ElementConstraint>,
)
    requires
        parsed_element_constraint_list(t, i, j, elems),
        pos_monotone(t),
    ensures
        0 <= i < j <= t.len(),
        forall|k: int|
            0 <= k < elems.len() ==> {
                &&& outer_span(t, i, j).contains_spec((#[trigger] elems[k]).constraint.pos)
                &&& outer_span(t, i, j).contains_spec(elems[k].ident.pos)
                &&& constraint_spans_contained(*elems[k].constraint)
            },
    decreases elems,
{
    if elems.len() == 1 {
        assert(parsed_element_constraint(t, i, j, elems.last()));
        assert(parsed_constraint(t, i + 1, j, *elems.last().constraint));
        lemma_constraint_span(t, i + 1, j, *elems.last().constraint);
        assert(elems[0] == elems.last());
        assert(t[i].pos.start <= t[i + 1].pos.start);
        assert(t[i].pos.end <= t[j - 1].pos.end);
    } else {
        let m = j - constraint_len(*elems.last().constraint) - 2;
        lemma_element_constraint_list_span(t, i, m, elems.drop_last());
        assert(parsed_element_constraint(t, m + 1, j, elems.last()));
        assert(parsed_constraint(t, m + 2, j, *elems.last().constraint));
        lemma_constraint_span(t, m + 2, j, *elems.last().constraint);
        assert forall|k: int| 0 <= k < elems.len() implies {
            &&& outer_span(t, i, j).contains_spec((#[trigger] elems[k]).constraint.pos)
            &&& outer_span(t, i, j).contains_spec(elems[k].ident.pos)
            &&& constraint_spans_contained(*elems[k].constraint)
        } by {
            if k < elems.len() - 1 {
                assert(elems[k] == elems.drop_last()[k]);
                assert(outer_span(t, i, m).contains_spec(elems.drop_last()[k].constraint.pos));
                assert(outer_span(t, i, m).contains_spec(elems.drop_last()[k].ident.pos));
                assert(t[m - 1].pos.end <= t[j - 1].pos.end);
            } else {
                assert(elems[k] == elems.last());
                assert(crate::grammar::parsed_ident(t, m + 1, elems.last().ident));
                assert(t[i].pos.start <= t[m + 1].pos.start);
                assert(t[i].pos.start <= t[m + 2].pos.start);
                assert(t[m + 1].pos.end <= t[j - 1].pos.end);
            }
        }
    }
}

/// Positional containment for a whole parsed subtype indication: if it
/// carries a constraint, every nested constraint's span lies inside the
/// span of the constraint that holds it.
pub proof fn lemma_indication_positional_containment(
    t: Seq<Token>,
    i: int,
    j: int,
    s: SubtypeIndication,
)
    requires
        parsed_subtype_indication(t, i, j, s),
        pos_monotone(t),
    ensures
        s.constraint matches Some(c) ==> constraint_spans_contained(c),
{
    if s.constraint is Some {
        let c = s.constraint->Some_0;
        let m2 = j - constraint_len(c);
        assert(parsed_constraint(t, m2, j, c));
        lemma_constraint_span(t, m2, j, c);
    }
}

/// Writability and operator agreement are independent checks, and the
/// writability defect dominates: a constant as the target of any
/// assignment yields exactly the writability diagnostic, never both and
/// never the operator one.
pub proof fn lemma_constant_target_one_diagnostic(
    scope: Scope,
    sym: u64,
    pos: Span,
    at: AssignmentType,
    base: ObjectBase,
    tm: TypeEnt,
)
    requires
        lookup_spec(scope.entries@, sym) == (Some(
            LookupOutcome::Resolved(ResolvedName::ObjectSelection { base, type_mark: tm }),
        )),
        base.class == ObjectClass::Constant,
    ensures
        resolve_diag_spec(scope, sym, pos, at) == (Some(
            DiagnosticView { pos, message: msg_not_target(base) },
        )),
        resolve_type_spec(scope, sym) == Some(tm),
{
    assert(!is_valid_assignment_target_spec(base));
}

/// The type the resolver returns is the type mark of the resolved object
/// selection, whatever diagnostics were emitted.
pub proof fn lemma_returned_type_is_type_mark(
    scope: Scope,
    sym: u64,
    pos: Span,
    at: AssignmentType,
    base: ObjectBase,
    tm: TypeEnt,
)
    requires
        lookup_spec(scope.entries@, sym) == (Some(
            LookupOutcome::Resolved(ResolvedName::ObjectSelection { base, type_mark: tm }),
        )),
    ensures
        resolve_type_spec(scope, sym) == Some(tm),
{
}

/// Resolving the same target twice against an unchanged scope appends the
/// same diagnostics to both sinks; the typed result is a function of the
/// scope and the name alone.
pub proof fn lemma_resolution_deterministic(
    scope: Scope,
    sym: u64,
    pos: Span,
    at: AssignmentType,
    b1: Seq<Diagnostic>,
    a1: Seq<Diagnostic>,
    b2: Seq<Diagnostic>,
    a2: Seq<Diagnostic>,
)
    requires
        crate::target::diags_after(b1, a1, resolve_diag_spec(scope, sym, pos, at)),
        crate::target::diags_after(b2, a2, resolve_diag_spec(scope, sym, pos, at)),
    ensures
        a1.len() - b1.len() == a2.len() - b2.len(),
        a1.len() > b1.len() ==> a1.last()@ == a2.last()@,
{
}

} // verus!
