//! The grammar of subtype indications as declarative relations over the
//! token sequence. `parsed_x(t, i, j, a)` says that the tokens `t[i .. j)`
//! are exactly a parse of the node `a`, including the span each node
//! carries. The parsers promise these relations of what they return.
use crate::ast::{
    DiscreteRange, Direction, ElementConstraint, Expr, Ident, Operator, PosConstraint, RangeExpr,
    RecordElementResolution, ResolutionIndication, SelectedName, SubtypeConstraint,
    SubtypeIndication, TypeMark,
};
use crate::tokens::{Kind, Token};
use vstd::prelude::*;

verus! {

/// The token kind an operator is written with.
pub open spec fn op_kind(op: Operator) -> Kind {
    match op {
        Operator::Plus => Kind::Plus,
        Operator::Minus => Kind::Minus,
    }
}

/// The token kind a range direction is written with.
pub open spec fn dir_kind(d: Direction) -> Kind {
    match d {
        Direction::Ascending => Kind::KwTo,
        Direction::Descending => Kind::KwDownto,
    }
}

/// An expression that is a single item, never an operator chain.
pub open spec fn is_primary(e: Expr) -> bool {
    match e {
        Expr::Num { .. } => true,
        Expr::Name(_) => true,
        Expr::Binary { .. } => false,
    }
}

/// The token at `i` is exactly the identifier `id`.
pub open spec fn parsed_ident(t: Seq<Token>, i: int, id: Ident) -> bool {
    &&& 0 <= i < t.len()
    &&& t[i].kind == Kind::Identifier
    &&& t[i].value == id.sym
    &&& t[i].pos == id.pos
}

/// Where a selected name starting at `i` ends: one token per part, one dot
/// between each two parts.
pub open spec fn sel_end(i: int, n: SelectedName) -> int {
    i + 2 * (n.parts@.len() as int) - 1
}

/// The tokens starting at `i` are the given name parts, one identifier
/// token per part with a dot between each two.
pub open spec fn parsed_name_parts(t: Seq<Token>, i: int, parts: Seq<Ident>) -> bool {
    forall|m: int|
        0 <= m < parts.len() ==> {
            &&& parsed_ident(t, i + 2 * m, #[trigger] parts[m])
            &&& (m < parts.len() - 1 ==> t[i + 2 * m + 1].kind == Kind::Dot)
        }
}

/// The tokens `t[i .. j)` are exactly the selected name `n`.
pub open spec fn parsed_selected_name(t: Seq<Token>, i: int, j: int, n: SelectedName) -> bool {
    let k = n.parts@.len() as int;
    &&& k >= 1
    &&& j == sel_end(i, n)
    &&& parsed_name_parts(t, i, n.parts@)
    &&& n.pos == n.parts@[0].pos.combine_spec(n.parts@[k - 1].pos)
}

/// The tokens `t[i .. j)` are exactly the type mark `m`.
pub open spec fn parsed_type_mark(t: Seq<Token>, i: int, j: int, m: TypeMark) -> bool {
    let e = sel_end(i, m.name);
    if m.subtype_attr {
        &&& parsed_selected_name(t, i, e, m.name)
        &&& e + 1 < t.len()
        &&& t[e].kind == Kind::Tick
        &&& t[e + 1].kind == Kind::KwSubtype
        &&& j == e + 2
        &&& m.pos == m.name.pos.combine_spec(t[e + 1].pos)
    } else {
        &&& parsed_selected_name(t, i, j, m.name)
        &&& m.pos == m.name.pos
    }
}

/// How many tokens an expression occupies.
pub open spec fn expr_len(e: Expr) -> int
    decreases e,
{
    match e {
        Expr::Num { .. } => 1,
        Expr::Name(n) => 2 * (n.parts@.len() as int) - 1,
        Expr::Binary { left, right, .. } => expr_len(*left) + 1 + expr_len(*right),
    }
}

/// The tokens `t[i .. j)` are exactly the expression `e`, with operator
/// chains associated to the left. The operator of a chain stands right
/// after the tokens of its left operand.
pub open spec fn parsed_expr(t: Seq<Token>, i: int, j: int, e: Expr) -> bool
    decreases e,
{
    match e {
        Expr::Num { value, pos } => {
            &&& 0 <= i < t.len()
            &&& j == i + 1
            &&& t[i].kind == Kind::Number
            &&& t[i].value == value
            &&& t[i].pos == pos
        },
        Expr::Name(n) => parsed_selected_name(t, i, j, n),
        Expr::Binary { op, left, right, pos } => {
            let m = i + expr_len(*left);
            &&& is_primary(*right)
            &&& pos == left.pos_spec().combine_spec(right.pos_spec())
            &&& parsed_expr(t, i, m, *left)
            &&& 0 <= m < t.len()
            &&& t[m].kind == op_kind(op)
            &&& parsed_expr(t, m + 1, j, *right)
        },
    }
}

/// A parse of an expression occupies exactly `expr_len` tokens.
pub proof fn lemma_parsed_expr_len(t: Seq<Token>, i: int, j: int, e: Expr)
    requires
        parsed_expr(t, i, j, e),
    ensures
        j == i + expr_len(e),
    decreases e,
{
    match e {
        Expr::Num { .. } => {},
        Expr::Name(n) => {},
        Expr::Binary { op, left, right, pos } => {
            lemma_parsed_expr_len(t, i + expr_len(*left) + 1, j, *right);
        },
    }
}

/// The tokens `t[i .. j)` are exactly the range expression `r`.
pub open spec fn parsed_range(t: Seq<Token>, i: int, j: int, r: RangeExpr) -> bool {
    match r {
        RangeExpr::Bounds { left, direction, right, pos } => {
            let m = i + expr_len(left);
            &&& pos == left.pos_spec().combine_spec(right.pos_spec())
            &&& parsed_expr(t, i, m, left)
            &&& 0 <= m < t.len()
            &&& t[m].kind == dir_kind(direction)
            &&& parsed_expr(t, m + 1, j, right)
        },
        RangeExpr::Attribute { name, pos } => {
            let e = sel_end(i, name);
            &&& parsed_selected_name(t, i, e, name)
            &&& e + 1 < t.len()
            &&& t[e].kind == Kind::Tick
            &&& t[e + 1].kind == Kind::KwRange
            &&& j == e + 2
            &&& pos == name.pos.combine_spec(t[e + 1].pos)
        },
    }
}

/// The tokens `t[i .. j)` are exactly the discrete range `d`.
pub open spec fn parsed_discrete_range(t: Seq<Token>, i: int, j: int, d: DiscreteRange) -> bool {
    match d {
        DiscreteRange::Range(r) => parsed_range(t, i, j, r),
        DiscreteRange::Discrete(n) => parsed_selected_name(t, i, j, n),
    }
}


/// How many tokens a range expression occupies.
pub open spec fn range_len(r: RangeExpr) -> int {
    match r {
        RangeExpr::Bounds { left, right, .. } => expr_len(left) + 1 + expr_len(right),
        RangeExpr::Attribute { name, .. } => 2 * (name.parts@.len() as int) + 1,
    }
}

/// How many tokens a discrete range occupies.
pub open spec fn discrete_range_len(d: DiscreteRange) -> int {
    match d {
        DiscreteRange::Range(r) => range_len(r),
        DiscreteRange::Discrete(n) => 2 * (n.parts@.len() as int) - 1,
    }
}

/// A parse of a range occupies exactly `range_len` tokens.
pub proof fn lemma_parsed_range_len(t: Seq<Token>, i: int, j: int, r: RangeExpr)
    requires
        parsed_range(t, i, j, r),
    ensures
        j == i + range_len(r),
{
    match r {
        RangeExpr::Bounds { left, direction, right, pos } => {
            lemma_parsed_expr_len(t, i + expr_len(left) + 1, j, right);
        },
        RangeExpr::Attribute { name, pos } => {},
    }
}

/// A parse of a discrete range occupies exactly `discrete_range_len` tokens.
pub proof fn lemma_parsed_discrete_range_len(t: Seq<Token>, i: int, j: int, d: DiscreteRange)
    requires
        parsed_discrete_range(t, i, j, d),
    ensures
        j == i + discrete_range_len(d),
{
    match d {
        DiscreteRange::Range(r) => {
            lemma_parsed_range_len(t, i, j, r);
        },
        DiscreteRange::Discrete(n) => {},
    }
}

/// How many tokens a non-empty comma-separated discrete-range list
/// occupies.
pub open spec fn discrete_range_list_len(rs: Seq<DiscreteRange>) -> int
    decreases rs,
{
    if rs.len() == 0 {
        0
    } else if rs.len() == 1 {
        discrete_range_len(rs.last())
    } else {
        discrete_range_list_len(rs.drop_last()) + 1 + discrete_range_len(rs.last())
    }
}

/// The tokens `t[i .. j)` are exactly the non-empty comma-separated list of
/// discrete ranges `rs`. The last list element always ends at `j`, so each
/// separator's place follows from the element lengths.
pub open spec fn parsed_discrete_range_list(
    t: Seq<Token>,
    i: int,
    j: int,
    rs: Seq<DiscreteRange>,
) -> bool
    decreases rs,
{
    if rs.len() == 0 {
        false
    } else if rs.len() == 1 {
        parsed_discrete_range(t, i, j, rs.last())
    } else {
        let m = j - discrete_range_len(rs.last()) - 1;
        &&& parsed_discrete_range_list(t, i, m, rs.drop_last())
        &&& 0 <= m < t.len()
        &&& t[m].kind == Kind::Comma
        &&& parsed_discrete_range(t, m + 1, j, rs.last())
    }
}

/// The tokens `t[s .. e)` are exactly the record-constraint element `ec`:
/// its identifier, then its nested composite constraint.
pub open spec fn parsed_element_constraint(t: Seq<Token>, s: int, e: int, ec: ElementConstraint) -> bool
    decreases ec,
{
    &&& parsed_ident(t, s, ec.ident)
    &&& parsed_constraint(t, s + 1, e, *ec.constraint)
}

/// How many tokens a constraint occupies.
pub open spec fn constraint_len(c: PosConstraint) -> int
    decreases c,
{
    match c.item {
        SubtypeConstraint::Range(r) => 1 + range_len(r),
        SubtypeConstraint::Array(rs, oe) => {
            let inner = if rs@.len() == 0 {
                1
            } else {
                discrete_range_list_len(rs@)
            };
            2 + inner + (match oe {
                None => 0,
                Some(e) => constraint_len(*e),
            })
        },
        SubtypeConstraint::Record(elems) => 2 + element_constraint_list_len(elems@),
    }
}

/// How many tokens a non-empty comma-separated record-constraint element
/// list occupies.
pub open spec fn element_constraint_list_len(elems: Seq<ElementConstraint>) -> int
    decreases elems,
{
    if elems.len() == 0 {
        0
    } else if elems.len() == 1 {
        1 + constraint_len(*elems.last().constraint)
    } else {
        element_constraint_list_len(elems.drop_last()) + 2 + constraint_len(
            *elems.last().constraint,
        )
    }
}

/// The tokens `t[i .. j)` are exactly the non-empty comma-separated list of
/// record-constraint elements `elems`.
pub open spec fn parsed_element_constraint_list(
    t: Seq<Token>,
    i: int,
    j: int,
    elems: Seq<ElementConstraint>,
) -> bool
    decreases elems,
{
    if elems.len() == 0 {
        false
    } else if elems.len() == 1 {
        parsed_element_constraint(t, i, j, elems.last())
    } else {
        let m = j - constraint_len(*elems.last().constraint) - 2;
        &&& parsed_element_constraint_list(t, i, m, elems.drop_last())
        &&& 0 <= m < t.len()
        &&& t[m].kind == Kind::Comma
        &&& parsed_element_constraint(t, m + 1, j, elems.last())
    }
}

/// The tokens `t[i .. j)` are exactly the constraint `c` with its span. An
/// array constraint is `open` alone or discrete ranges between
/// parentheses, then an optional nested element constraint; a record
/// constraint is a parenthesized element list.
pub open spec fn parsed_constraint(t: Seq<Token>, i: int, j: int, c: PosConstraint) -> bool
    decreases c,
{
    match c.item {
        SubtypeConstraint::Range(r) => {
            &&& 0 <= i < t.len()
            &&& t[i].kind == Kind::KwRange
            &&& parsed_range(t, i + 1, j, r)
            &&& c.pos == t[i].pos.combine_spec(r.pos_spec())
        },
        SubtypeConstraint::Array(rs, oe) => {
            let rp = (match oe {
                None => j,
                Some(e) => j - constraint_len(*e),
            }) - 1;
            &&& 0 <= i < t.len()
            &&& t[i].kind == Kind::LeftPar
            &&& i < rp < t.len()
            &&& t[rp].kind == Kind::RightPar
            &&& if rs@.len() == 0 {
                i + 1 < t.len() && t[i + 1].kind == Kind::KwOpen && rp == i + 2
            } else {
                parsed_discrete_range_list(t, i + 1, rp, rs@)
            }
            &&& match oe {
                None => c.pos == t[i].pos.combine_spec(t[rp].pos),
                Some(e) => parsed_constraint(t, rp + 1, j, *e) && c.pos == t[i].pos.combine_spec(
                    (*e).pos,
                ),
            }
        },
        SubtypeConstraint::Record(elems) => {
            let rp = j - 1;
            &&& 0 <= i < t.len()
            &&& t[i].kind == Kind::LeftPar
            &&& elems@.len() >= 1
            &&& i < rp < t.len()
            &&& t[rp].kind == Kind::RightPar
            &&& parsed_element_constraint_list(t, i + 1, rp, elems@)
            &&& c.pos == t[i].pos.combine_spec(t[rp].pos)
        },
    }
}

/// A parse of a constraint occupies exactly `constraint_len` tokens.
pub proof fn lemma_parsed_constraint_len(t: Seq<Token>, i: int, j: int, c: PosConstraint)
    requires
        parsed_constraint(t, i, j, c),
    ensures
        j == i + constraint_len(c),
    decreases c,
{
    match c.item {
        SubtypeConstraint::Range(r) => {
            lemma_parsed_range_len(t, i + 1, j, r);
        },
        SubtypeConstraint::Array(rs, oe) => {
            let rp = (match oe {
                None => j,
                Some(e) => j - constraint_len(*e),
            }) - 1;
            if rs@.len() > 0 {
                lemma_parsed_discrete_range_list_len(t, i + 1, rp, rs@);
            }
            match oe {
                None => {},
                Some(e) => {
                    lemma_parsed_constraint_len(t, rp + 1, j, *e);
                },
            }
        },
        SubtypeConstraint::Record(elems) => {
            lemma_parsed_element_constraint_list_len(t, i + 1, j - 1, elems@);
        },
    }
}

/// A parse of a discrete-range list occupies exactly
/// `discrete_range_list_len` tokens.
pub proof fn lemma_parsed_discrete_range_list_len(
    t: Seq<Token>,
    i: int,
    j: int,
    rs: Seq<DiscreteRange>,
)
    requires
        parsed_discrete_range_list(t, i, j, rs),
    ensures
        j == i + discrete_range_list_len(rs),
    decreases rs,
{
    if rs.len() == 1 {
        lemma_parsed_discrete_range_len(t, i, j, rs.last());
    } else {
        let m = j - discrete_range_len(rs.last()) - 1;
        lemma_parsed_discrete_range_list_len(t, i, m, rs.drop_last());
        lemma_parsed_discrete_range_len(t, m + 1, j, rs.last());
    }
}

/// A parse of a record-constraint element list occupies exactly
/// `element_constraint_list_len` tokens.
pub proof fn lemma_parsed_element_constraint_list_len(
    t: Seq<Token>,
    i: int,
    j: int,
    elems: Seq<ElementConstraint>,
)
    requires
        parsed_element_constraint_list(t, i, j, elems),
    ensures
        j == i + element_constraint_list_len(elems),
    decreases elems,
{
    if elems.len() == 1 {
        assert(parsed_element_constraint(t, i, j, elems.last()));
        assert(parsed_constraint(t, i + 1, j, *elems.last().constraint));
        lemma_parsed_constraint_len(t, i + 1, j, *elems.last().constraint);
    } else {
        let m = j - constraint_len(*elems.last().constraint) - 2;
        lemma_parsed_element_constraint_list_len(t, i, m, elems.drop_last());
        assert(parsed_element_constraint(t, m + 1, j, elems.last()));
        assert(parsed_constraint(t, m + 2, j, *elems.last().constraint));
        lemma_parsed_constraint_len(t, m + 2, j, *elems.last().constraint);
    }
}

/// The tokens `t[s .. e)` are exactly the record-resolution element
/// `elem`: its identifier, then a function name or a nested parenthesized
/// element-resolution indication.
pub open spec fn parsed_element_resolution_item(
    t: Seq<Token>,
    s: int,
    e: int,
    elem: RecordElementResolution,
) -> bool
    decreases elem,
{
    &&& parsed_ident(t, s, elem.ident)
    &&& match *elem.resolution {
        ResolutionIndication::FunctionName(n) => parsed_selected_name(t, s + 1, e, n),
        _ => parsed_element_resolution(t, s + 1, e, *elem.resolution),
    }
}

/// How many tokens a resolution indication occupies.
pub open spec fn resolution_len(r: ResolutionIndication) -> int
    decreases r,
{
    match r {
        ResolutionIndication::Unresolved => 0,
        ResolutionIndication::FunctionName(n) => 2 * (n.parts@.len() as int) - 1,
        ResolutionIndication::ArrayElement(_) => 3,
        ResolutionIndication::Record(elems) => 2 + resolution_item_list_len(elems@),
    }
}

/// How many tokens a record-resolution element occupies.
pub open spec fn resolution_item_len(elem: RecordElementResolution) -> int
    decreases elem,
{
    1 + resolution_len(*elem.resolution)
}

/// How many tokens a non-empty comma-separated record-resolution element
/// list occupies.
pub open spec fn resolution_item_list_len(elems: Seq<RecordElementResolution>) -> int
    decreases elems,
{
    if elems.len() == 0 {
        0
    } else if elems.len() == 1 {
        resolution_item_len(elems.last())
    } else {
        resolution_item_list_len(elems.drop_last()) + 1 + resolution_item_len(elems.last())
    }
}

/// The tokens `t[i .. j)` are exactly the non-empty comma-separated list of
/// record-resolution elements `elems`.
pub open spec fn parsed_element_resolution_list(
    t: Seq<Token>,
    i: int,
    j: int,
    elems: Seq<RecordElementResolution>,
) -> bool
    decreases elems,
{
    if elems.len() == 0 {
        false
    } else if elems.len() == 1 {
        parsed_element_resolution_item(t, i, j, elems.last())
    } else {
        let m = j - resolution_item_len(elems.last()) - 1;
        &&& parsed_element_resolution_list(t, i, m, elems.drop_last())
        &&& 0 <= m < t.len()
        &&& t[m].kind == Kind::Comma
        &&& parsed_element_resolution_item(t, m + 1, j, elems.last())
    }
}

/// The tokens `t[i .. j)` are exactly the parenthesized element-resolution
/// indication `r`: `(name)` is array-element resolution, `(ident r, ...)`
/// record-element resolution. Only those two shapes can be parsed here.
pub open spec fn parsed_element_resolution(
    t: Seq<Token>,
    i: int,
    j: int,
    r: ResolutionIndication,
) -> bool
    decreases r,
{
    match r {
        ResolutionIndication::ArrayElement(n) => {
            &&& 0 <= i && i + 2 < t.len()
            &&& t[i].kind == Kind::LeftPar
            &&& n.parts@.len() == 1
            &&& parsed_ident(t, i + 1, n.parts@[0])
            &&& n.pos == n.parts@[0].pos
            &&& t[i + 2].kind == Kind::RightPar
            &&& j == i + 3
        },
        ResolutionIndication::Record(elems) => {
            let rp = j - 1;
            &&& 0 <= i < t.len()
            &&& t[i].kind == Kind::LeftPar
            &&& elems@.len() >= 1
            &&& i < rp < t.len()
            &&& t[rp].kind == Kind::RightPar
            &&& parsed_element_resolution_list(t, i + 1, rp, elems@)
        },
        _ => false,
    }
}

/// A parse of a resolution indication occupies exactly `resolution_len`
/// tokens.
pub proof fn lemma_parsed_element_resolution_len(
    t: Seq<Token>,
    i: int,
    j: int,
    r: ResolutionIndication,
)
    requires
        parsed_element_resolution(t, i, j, r),
    ensures
        j == i + resolution_len(r),
    decreases r,
{
    match r {
        ResolutionIndication::Record(elems) => {
            lemma_parsed_element_resolution_list_len(t, i + 1, j - 1, elems@);
        },
        _ => {},
    }
}

/// A parse of a record-resolution element occupies exactly
/// `resolution_item_len` tokens.
pub proof fn lemma_parsed_element_resolution_item_len(
    t: Seq<Token>,
    s: int,
    e: int,
    elem: RecordElementResolution,
)
    requires
        parsed_element_resolution_item(t, s, e, elem),
    ensures
        e == s + resolution_item_len(elem),
    decreases elem,
{
    match *elem.resolution {
        ResolutionIndication::FunctionName(n) => {},
        _ => {
            lemma_parsed_element_resolution_len(t, s + 1, e, *elem.resolution);
        },
    }
}

/// A parse of a record-resolution element list occupies exactly
/// `resolution_item_list_len` tokens.
pub proof fn lemma_parsed_element_resolution_list_len(
    t: Seq<Token>,
    i: int,
    j: int,
    elems: Seq<RecordElementResolution>,
)
    requires
        parsed_element_resolution_list(t, i, j, elems),
    ensures
        j == i + resolution_item_list_len(elems),
    decreases elems,
{
    if elems.len() == 1 {
        lemma_parsed_element_resolution_item_len(t, i, j, elems.last());
    } else {
        let m = j - resolution_item_len(elems.last()) - 1;
        lemma_parsed_element_resolution_list_len(t, i, m, elems.drop_last());
        lemma_parsed_element_resolution_item_len(t, m + 1, j, elems.last());
    }
}

/// The tokens `t[i .. j)` are exactly the subtype indication `s`. An
/// `Unresolved` indication is one whose type-mark name is not followed by a
/// further identifier, which excludes the resolution-function reading.
pub open spec fn parsed_subtype_indication(
    t: Seq<Token>,
    i: int,
    j: int,
    s: SubtypeIndication,
) -> bool {
    let m1 = i + resolution_len(s.resolution);
    let m2 = match s.constraint {
        None => j,
        Some(c) => j - constraint_len(c),
    };
    &&& parsed_type_mark(t, m1, m2, s.type_mark)
    &&& match s.resolution {
        ResolutionIndication::Unresolved => {
            let e = sel_end(i, s.type_mark.name);
            e >= t.len() || t[e].kind != Kind::Identifier
        },
        ResolutionIndication::FunctionName(n) => parsed_selected_name(t, i, m1, n),
        _ => parsed_element_resolution(t, i, m1, s.resolution),
    }
    &&& match s.constraint {
        None => true,
        Some(c) => parsed_constraint(t, m2, j, c),
    }
}

/// Appending one more comma-separated discrete range keeps the list
/// parsed.
pub proof fn lemma_discrete_range_list_snoc(
    t: Seq<Token>,
    i: int,
    m: int,
    j: int,
    rs: Seq<DiscreteRange>,
)
    requires
        rs.len() >= 2,
        parsed_discrete_range_list(t, i, m, rs.drop_last()),
        0 <= m < t.len(),
        t[m].kind == Kind::Comma,
        parsed_discrete_range(t, m + 1, j, rs.last()),
    ensures
        parsed_discrete_range_list(t, i, j, rs),
{
    lemma_parsed_discrete_range_len(t, m + 1, j, rs.last());
}

/// Appending one more comma-separated element keeps the list parsed.
pub proof fn lemma_element_constraint_list_snoc(
    t: Seq<Token>,
    i: int,
    m: int,
    j: int,
    elems: Seq<ElementConstraint>,
)
    requires
        elems.len() >= 2,
        parsed_element_constraint_list(t, i, m, elems.drop_last()),
        0 <= m < t.len(),
        t[m].kind == Kind::Comma,
        parsed_element_constraint(t, m + 1, j, elems.last()),
    ensures
        parsed_element_constraint_list(t, i, j, elems),
{
    assert(parsed_constraint(t, m + 2, j, *elems.last().constraint));
    lemma_parsed_constraint_len(t, m + 2, j, *elems.last().constraint);
}

/// Appending one more comma-separated element keeps the list parsed.
pub proof fn lemma_element_resolution_list_snoc(
    t: Seq<Token>,
    i: int,
    m: int,
    j: int,
    elems: Seq<RecordElementResolution>,
)
    requires
        elems.len() >= 2,
        parsed_element_resolution_list(t, i, m, elems.drop_last()),
        0 <= m < t.len(),
        t[m].kind == Kind::Comma,
        parsed_element_resolution_item(t, m + 1, j, elems.last()),
    ensures
        parsed_element_resolution_list(t, i, j, elems),
{
    lemma_parsed_element_resolution_item_len(t, m + 1, j, elems.last());
}


/// Two parses of a selected name from the same start, neither followed by
/// a dot, end at the same place: the dot-greedy reading is unique.
pub proof fn lemma_name_parse_unique(
    t: Seq<Token>,
    i: int,
    j1: int,
    n1: SelectedName,
    j2: int,
    n2: SelectedName,
)
    requires
        parsed_selected_name(t, i, j1, n1),
        parsed_selected_name(t, i, j2, n2),
        j1 == t.len() || t[j1].kind != Kind::Dot,
        j2 == t.len() || t[j2].kind != Kind::Dot,
    ensures
        j1 == j2,
{
    let k1 = n1.parts@.len() as int;
    let k2 = n2.parts@.len() as int;
    if k1 < k2 {
        assert(parsed_ident(t, i + 2 * k1, n2.parts@[k1]));
        assert(parsed_ident(t, i + 2 * (k1 - 1), n2.parts@[k1 - 1]));
        assert(t[i + 2 * (k1 - 1) + 1].kind == Kind::Dot);
        assert(false);
    } else if k2 < k1 {
        assert(parsed_ident(t, i + 2 * k2, n1.parts@[k2]));
        assert(parsed_ident(t, i + 2 * (k2 - 1), n1.parts@[k2 - 1]));
        assert(t[i + 2 * (k2 - 1) + 1].kind == Kind::Dot);
        assert(false);
    }
}


/// An expression that starts at an identifier no dot or operator
/// continues is that single identifier.
pub proof fn lemma_lone_expr(t: Seq<Token>, p: int, q: int, e: Expr)
    requires
        parsed_expr(t, p, q, e),
        0 <= p < t.len(),
        t[p].kind == Kind::Identifier,
        p + 1 == t.len() || (t[p + 1].kind != Kind::Dot && t[p + 1].kind != Kind::Plus && t[p
            + 1].kind != Kind::Minus),
    ensures
        q == p + 1,
    decreases e,
{
    match e {
        Expr::Num { .. } => {},
        Expr::Name(n) => {
            if n.parts@.len() >= 2 {
                assert(parsed_ident(t, p, n.parts@[0]));
                assert(t[p + 1].kind == Kind::Dot);
            }
        },
        Expr::Binary { op, left, right, pos } => {
            lemma_lone_expr(t, p, p + expr_len(*left), *left);
        },
    }
}

/// A discrete range that starts at an identifier nothing continues is
/// that single identifier used as a subtype name.
pub proof fn lemma_lone_discrete_range(t: Seq<Token>, p: int, q: int, d: DiscreteRange)
    requires
        parsed_discrete_range(t, p, q, d),
        0 <= p < t.len(),
        t[p].kind == Kind::Identifier,
        p + 1 == t.len() || (t[p + 1].kind != Kind::Dot && t[p + 1].kind != Kind::Plus && t[p
            + 1].kind != Kind::Minus && t[p + 1].kind != Kind::KwTo && t[p + 1].kind
            != Kind::KwDownto && t[p + 1].kind != Kind::Tick),
    ensures
        q == p + 1,
{
    match d {
        DiscreteRange::Discrete(n) => {
            if n.parts@.len() >= 2 {
                assert(parsed_ident(t, p, n.parts@[0]));
                assert(t[p + 1].kind == Kind::Dot);
            }
        },
        DiscreteRange::Range(r) => match r {
            RangeExpr::Bounds { left, direction, right, pos } => {
                lemma_lone_expr(t, p, p + expr_len(left), left);
                assert(t[p + 1].kind == dir_kind(direction));
                assert(false);
            },
            RangeExpr::Attribute { name, pos } => {
                if name.parts@.len() >= 2 {
                    assert(parsed_ident(t, p, name.parts@[0]));
                    assert(t[p + 1].kind == Kind::Dot);
                } else {
                    assert(t[p + 1].kind == Kind::Tick);
                }
                assert(false);
            },
        },
    }
}


/// Whether producing this constraint ended with a checked lookahead for a
/// further suffix: an array constraint whose element-constraint chain ends
/// in `None` looked at the next token and found no opener; a range or
/// record constraint ends without looking further.
pub open spec fn constraint_suffix_checked(c: PosConstraint) -> bool
    decreases c,
{
    match c.item {
        SubtypeConstraint::Range(_) => false,
        SubtypeConstraint::Record(_) => false,
        SubtypeConstraint::Array(_, oe) => match oe {
            None => true,
            Some(e) => constraint_suffix_checked(*e),
        },
    }
}

} // verus!
