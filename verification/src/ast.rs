//! Abstract syntax for subtype indications and assignment targets.
use crate::tokens::Span;
use vstd::prelude::*;

verus! {

/// An identifier with its source span. `sym` is the interned symbol.
#[derive(Clone, Copy, Debug)]
pub struct Ident {
    pub sym: u64,
    pub pos: Span,
}

/// A dotted qualified name such as `lib.pkg.item`; `parts` is non-empty.
#[derive(Debug)]
pub struct SelectedName {
    pub parts: Vec<Ident>,
    pub pos: Span,
}

/// A type mark: a selected name, optionally with the `'subtype` attribute.
#[derive(Debug)]
pub struct TypeMark {
    pub name: SelectedName,
    pub subtype_attr: bool,
    pub pos: Span,
}

/// The direction of a range: `to` (ascending) or `downto` (descending).
#[derive(Clone, Copy, Debug, PartialEq, Eq, Structural)]
pub enum Direction {
    Ascending,
    Descending,
}

/// A binary operator inside a range bound expression.
#[derive(Clone, Copy, Debug, PartialEq, Eq, Structural)]
pub enum Operator {
    Plus,
    Minus,
}

/// A range bound expression: a number, a name, or a left-associated chain of
/// additions and subtractions.
#[derive(Debug)]
pub enum Expr {
    Num { value: u64, pos: Span },
    Name(SelectedName),
    Binary { op: Operator, left: Box<Expr>, right: Box<Expr>, pos: Span },
}

impl Expr {
    pub open spec fn pos_spec(self) -> Span {
        match self {
            Expr::Num { pos, .. } => pos,
            Expr::Name(n) => n.pos,
            Expr::Binary { pos, .. } => pos,
        }
    }

    pub fn position(&self) -> (r: Span)
        ensures
            r == self.pos_spec(),
    {
        match self {
            Expr::Num { pos, .. } => *pos,
            Expr::Name(n) => n.pos,
            Expr::Binary { pos, .. } => *pos,
        }
    }
}

/// A range expression: explicit bounds with a direction, or a `'range`
/// attribute on a name.
#[derive(Debug)]
pub enum RangeExpr {
    Bounds { left: Expr, direction: Direction, right: Expr, pos: Span },
    Attribute { name: SelectedName, pos: Span },
}

impl RangeExpr {
    pub open spec fn pos_spec(self) -> Span {
        match self {
            RangeExpr::Bounds { pos, .. } => pos,
            RangeExpr::Attribute { pos, .. } => pos,
        }
    }

    pub fn position(&self) -> (r: Span)
        ensures
            r == self.pos_spec(),
    {
        match self {
            RangeExpr::Bounds { pos, .. } => *pos,
            RangeExpr::Attribute { pos, .. } => *pos,
        }
    }
}

/// A discrete range: a range expression, or a bare subtype name used as a
/// discrete range.
#[derive(Debug)]
pub enum DiscreteRange {
    Range(RangeExpr),
    Discrete(SelectedName),
}

impl DiscreteRange {
    pub open spec fn pos_spec(self) -> Span {
        match self {
            DiscreteRange::Range(r) => r.pos_spec(),
            DiscreteRange::Discrete(n) => n.pos,
        }
    }
}

/// One element of a record constraint: an element name and its nested
/// constraint.
#[derive(Debug)]
pub struct ElementConstraint {
    pub ident: Ident,
    pub constraint: Box<PosConstraint>,
}

/// A subtype constraint. An `Array` constraint either has at least one
/// discrete range or is the `open` form with none; a `Record` constraint's
/// element list is non-empty.
#[derive(Debug)]
pub enum SubtypeConstraint {
    Range(RangeExpr),
    Array(Vec<DiscreteRange>, Option<Box<PosConstraint>>),
    Record(Vec<ElementConstraint>),
}

/// A subtype constraint together with its source span, from its opening
/// token through its last token or nested element constraint.
#[derive(Debug)]
pub struct PosConstraint {
    pub item: SubtypeConstraint,
    pub pos: Span,
}

/// One element of a record-element resolution: an element name and its
/// nested resolution.
#[derive(Debug)]
pub struct RecordElementResolution {
    pub ident: Ident,
    pub resolution: Box<ResolutionIndication>,
}

/// How a signal's driver contention is resolved: not at all, by a named
/// function, element-wise over an array, or element-wise over a record.
#[derive(Debug)]
pub enum ResolutionIndication {
    Unresolved,
    FunctionName(SelectedName),
    ArrayElement(SelectedName),
    Record(Vec<RecordElementResolution>),
}

/// A subtype indication: `[resolution] type_mark [constraint]`.
#[derive(Debug)]
pub struct SubtypeIndication {
    pub resolution: ResolutionIndication,
    pub type_mark: TypeMark,
    pub constraint: Option<PosConstraint>,
}

} // verus!
