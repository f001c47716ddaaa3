//! Analysis of assignment targets: given the resolved-name model of a
//! target and the assignment operator, decide legality, emit diagnostics,
//! and return the target's type.
//!
//! examples:
//!   target <= 1;
//!   target(0).elem := 1
use crate::tokens::Span;
use vstd::prelude::*;

verus! {

/// The declaration category of an object.
#[derive(Clone, Copy, Debug, PartialEq, Eq, Structural)]
pub enum ObjectClass {
    Signal,
    Constant,
    Variable,
    SharedVariable,
    File,
}

/// The direction of a formal port or parameter. An object that is no
/// formal has no mode.
#[derive(Clone, Copy, Debug, PartialEq, Eq, Structural)]
pub enum Mode {
    In,
    Out,
    InOut,
    Buffer,
    Linkage,
}

/// A resolved type, identified by its stable entity id.
#[derive(Clone, Copy, Debug, PartialEq, Eq, Structural)]
pub struct TypeEnt {
    pub id: u64,
}

/// The declared object underlying a resolved name: its class, its mode if
/// it is a formal, and its designator for diagnostics.
#[derive(Debug)]
pub struct ObjectBase {
    pub class: ObjectClass,
    pub mode: Option<Mode>,
    pub designator: String,
}

impl ObjectBase {
    /// The object's class as written in diagnostics.
    pub open spec fn class_str_spec(self) -> Seq<char> {
        match self.class {
            ObjectClass::Signal => "signal"@,
            ObjectClass::Constant => "constant"@,
            ObjectClass::Variable => "variable"@,
            ObjectClass::SharedVariable => "shared variable"@,
            ObjectClass::File => "file"@,
        }
    }

    /// How diagnostics describe the object: its class and its designator
    /// in quotes.
    pub open spec fn describe_class_spec(self) -> Seq<char> {
        self.class_str_spec() + " '"@ + self.designator@ + "'"@
    }

    pub fn describe_class(&self) -> (r: String)
        ensures
            r@ == self.describe_class_spec(),
    {
        let cls: &str = match self.class {
            ObjectClass::Signal => "signal",
            ObjectClass::Constant => "constant",
            ObjectClass::Variable => "variable",
            ObjectClass::SharedVariable => "shared variable",
            ObjectClass::File => "file",
        };
        let mut s = String::from_str(cls);
        s.append(" '");
        s.append(self.designator.as_str());
        s.append("'");
        s
    }
}

/// What a name in an assignment target resolved to: an object (or a
/// selection or indexing into one) with the type of the selected region,
/// or some non-object entity.
#[derive(Debug)]
pub enum ResolvedName {
    ObjectSelection { base: ObjectBase, type_mark: TypeEnt },
    Type(TypeEnt),
    Overloaded,
    Other,
}

/// An unrecoverable failure of the external name resolver.
#[derive(Debug)]
pub struct FatalError {
    pub message: String,
}

/// What looking a name up in a scope yields: a resolution, a failure that
/// was already diagnosed, or a fatal error to surface.
#[derive(Debug)]
pub enum LookupOutcome {
    Resolved(ResolvedName),
    Unresolved,
    Fatal(FatalError),
}

/// One visible name of a scope.
#[derive(Debug)]
pub struct ScopeEntry {
    pub sym: u64,
    pub outcome: LookupOutcome,
}

/// A lookup structure mapping the identifiers visible at a program point
/// to what they resolve to. Earlier entries shadow later ones.
#[derive(Debug)]
pub struct Scope {
    pub entries: Vec<ScopeEntry>,
}

/// The first entry of `entries` with the given symbol, if any.
pub open spec fn lookup_spec(entries: Seq<ScopeEntry>, sym: u64) -> Option<LookupOutcome>
    decreases entries.len(),
{
    if entries.len() == 0 {
        None
    } else if entries[0].sym == sym {
        Some(entries[0].outcome)
    } else {
        lookup_spec(entries.drop_first(), sym)
    }
}

/// A diagnostic: an error message at a source position.
#[derive(Debug)]
pub struct Diagnostic {
    pub pos: Span,
    pub message: String,
}

/// The mathematical content of a diagnostic.
pub struct DiagnosticView {
    pub pos: Span,
    pub message: Seq<char>,
}

impl View for Diagnostic {
    type V = DiagnosticView;

    open spec fn view(&self) -> DiagnosticView {
        DiagnosticView { pos: self.pos, message: self.message@ }
    }
}

/// The syntactic assignment operator: `<=` or `:=`.
#[derive(Clone, Copy, Debug, PartialEq, Eq, Structural)]
pub enum AssignmentType {
    // Assignment with <=
    Signal,
    // Assignment with :=
    Variable,
}

impl AssignmentType {
    /// The operator's name as written in diagnostics.
    pub open spec fn to_str_spec(self) -> Seq<char> {
        match self {
            AssignmentType::Signal => "signal"@,
            AssignmentType::Variable => "variable"@,
        }
    }

    pub fn to_str(self) -> (r: &'static str)
        ensures
            r@ == self.to_str_spec(),
    {
        match self {
            AssignmentType::Signal => "signal",
            AssignmentType::Variable => "variable",
        }
    }
}

/// A target is writable iff it is not a constant and not an `in` formal.
pub open spec fn is_valid_assignment_target_spec(base: ObjectBase) -> bool {
    base.class != ObjectClass::Constant && base.mode != Some(Mode::In)
}

/// Check that the assignment target is a writable object and not constant
/// or input only.
pub fn is_valid_assignment_target(base: &ObjectBase) -> (r: bool)
    ensures
        r == is_valid_assignment_target_spec(*base),
{
    let mode_is_in = match base.mode {
        Some(Mode::In) => true,
        _ => false,
    };
    let class_is_constant = match base.class {
        ObjectClass::Constant => true,
        _ => false,
    };
    !class_is_constant && !mode_is_in
}

/// A signal assignment takes a signal; a variable assignment takes a
/// variable or a shared variable.
pub open spec fn is_valid_assignment_type_spec(base: ObjectBase, at: AssignmentType) -> bool {
    match at {
        AssignmentType::Signal => base.class == ObjectClass::Signal,
        AssignmentType::Variable => base.class == ObjectClass::Variable || base.class
            == ObjectClass::SharedVariable,
    }
}

/// Check that a signal is not the target of a variable assignment and
/// vice-versa.
pub fn is_valid_assignment_type(base: &ObjectBase, assignment_type: AssignmentType) -> (r: bool)
    ensures
        r == is_valid_assignment_type_spec(*base, assignment_type),
{
    match assignment_type {
        AssignmentType::Signal => match base.class {
            ObjectClass::Signal => true,
            _ => false,
        },
        AssignmentType::Variable => match base.class {
            ObjectClass::Variable => true,
            ObjectClass::SharedVariable => true,
            _ => false,
        },
    }
}

/// The message of the writability diagnostic for `base`.
pub open spec fn msg_not_target(base: ObjectBase) -> Seq<char> {
    base.describe_class_spec() + " may not be the target of an assignment"@
}

/// The message of the operator-agreement diagnostic for `base` under the
/// given assignment operator.
pub open spec fn msg_wrong_kind(base: ObjectBase, at: AssignmentType) -> Seq<char> {
    base.describe_class_spec() + " may not be the target of a "@ + at.to_str_spec()
        + " assignment"@
}

/// The message of the diagnostic for a target that is no object at all.
pub open spec fn msg_invalid_target() -> Seq<char> {
    "Invalid assignment target"@
}

/// The one diagnostic that resolving a name as an assignment target emits,
/// if any. Writability is checked before operator agreement, so an
/// unwritable target gets the writability diagnostic alone.
pub open spec fn resolve_diag_spec(
    scope: Scope,
    sym: u64,
    pos: Span,
    at: AssignmentType,
) -> Option<DiagnosticView> {
    match lookup_spec(scope.entries@, sym) {
        Some(LookupOutcome::Resolved(rn)) => match rn {
            ResolvedName::ObjectSelection { base, type_mark } => {
                if !is_valid_assignment_target_spec(base) {
                    Some(DiagnosticView { pos, message: msg_not_target(base) })
                } else if !is_valid_assignment_type_spec(base, at) {
                    Some(DiagnosticView { pos, message: msg_wrong_kind(base, at) })
                } else {
                    None
                }
            },
            _ => Some(DiagnosticView { pos, message: msg_invalid_target() }),
        },
        Some(LookupOutcome::Unresolved) => None,
        Some(LookupOutcome::Fatal(f)) => Some(DiagnosticView { pos, message: f.message@ }),
        None => None,
    }
}

/// The type that resolving a name as an assignment target returns: the
/// type mark of the resolved object selection, whatever diagnostics were
/// emitted; no type otherwise.
pub open spec fn resolve_type_spec(scope: Scope, sym: u64) -> Option<TypeEnt> {
    match lookup_spec(scope.entries@, sym) {
        Some(LookupOutcome::Resolved(rn)) => match rn {
            ResolvedName::ObjectSelection { base, type_mark } => Some(type_mark),
            _ => None,
        },
        _ => None,
    }
}

/// The diagnostic sink after one resolution: the old diagnostics followed
/// by the one new diagnostic, if any.
pub open spec fn diags_after(
    before: Seq<Diagnostic>,
    after: Seq<Diagnostic>,
    d: Option<DiagnosticView>,
) -> bool {
    match d {
        None => after == before,
        Some(dv) => after.len() == before.len() + 1 && after.drop_last() == before
            && after.last()@ == dv,
    }
}

/// A name on the left side of an assignment.
#[derive(Clone, Copy, Debug)]
pub struct TargetName {
    pub sym: u64,
}

/// The syntactic left side of an assignment: a name, or an aggregate of
/// element names. An aggregate's elements are analyzed by the external
/// expression analyzer and its typing is deferred to the statement's
/// right-hand side, so target resolution yields no type for it here.
#[derive(Debug)]
pub enum Target {
    Name(TargetName),
    Aggregate(Vec<TargetName>),
}

/// A target with its source position.
#[derive(Debug)]
pub struct PosTarget {
    pub item: Target,
    pub pos: Span,
}

/// The analysis pass over one scope.
pub struct AnalyzeContext {}

impl AnalyzeContext {
    /// Resolve a name used as an assignment target: look it up, check
    /// writability, then check that the object's class agrees with the
    /// assignment operator, and return the target's type whenever it is
    /// known, whatever diagnostics were emitted. A fatal lookup outcome is
    /// flushed to the sink and absorbed.
    pub fn resolve_target_name(
        &self,
        scope: &Scope,
        target: &TargetName,
        target_pos: Span,
        assignment_type: AssignmentType,
        diagnostics: &mut Vec<Diagnostic>,
    ) -> (r: Result<Option<TypeEnt>, FatalError>)
        ensures
            r matches Ok(ty) && ty == resolve_type_spec(*scope, target.sym),
            diags_after(
                old(diagnostics)@,
                final(diagnostics)@,
                resolve_diag_spec(*scope, target.sym, target_pos, assignment_type),
            ),
    {
        let ghost entries = scope.entries@;
        let n = scope.entries.len();
        let mut k: usize = 0;
        proof {
            assert(entries.skip(0) =~= entries);
        }
        while k < n && scope.entries[k].sym != target.sym
            invariant
                n == entries.len(),
                scope.entries@ == entries,
                k <= n,
                lookup_spec(entries, target.sym) == lookup_spec(
                    entries.skip(k as int),
                    target.sym,
                ),
            decreases n - k,
        {
            proof {
                assert(entries.skip(k as int).drop_first() =~= entries.skip(k as int + 1));
                assert(entries.skip(k as int)[0] == entries[k as int]);
            }
            k = k + 1;
        }
        proof {
            if k < n {
                assert(entries.skip(k as int)[0] == entries[k as int]);
                assert(lookup_spec(entries, target.sym) == Some(entries[k as int].outcome));
            } else {
                assert(entries.skip(k as int) =~= Seq::<ScopeEntry>::empty());
                assert(lookup_spec(entries, target.sym) is None);
            }
        }
        if k == n {
            return Ok(None);
        }
        let entry = &scope.entries[k];
        match &entry.outcome {
            LookupOutcome::Resolved(resolved_name) => {
                match resolved_name {
                    ResolvedName::ObjectSelection { base, type_mark } => {
                        if !is_valid_assignment_target(base) {
                            let mut msg = base.describe_class();
                            msg.append(" may not be the target of an assignment");
                            let ghost before = diagnostics@;
                            diagnostics.push(Diagnostic { pos: target_pos, message: msg });
                            proof {
                                assert(diagnostics@.drop_last() =~= before);
                            }
                        } else if !is_valid_assignment_type(base, assignment_type) {
                            let mut msg = base.describe_class();
                            msg.append(" may not be the target of a ");
                            msg.append(assignment_type.to_str());
                            msg.append(" assignment");
                            let ghost before = diagnostics@;
                            diagnostics.push(Diagnostic { pos: target_pos, message: msg });
                            proof {
                                assert(diagnostics@.drop_last() =~= before);
                            }
                        }
                        Ok(Some(*type_mark))
                    },
                    _ => {
                        let msg = String::from_str("Invalid assignment target");
                        let ghost before = diagnostics@;
                        diagnostics.push(Diagnostic { pos: target_pos, message: msg });
                        proof {
                            assert(diagnostics@.drop_last() =~= before);
                        }
                        Ok(None)
                    },
                }
            },
            LookupOutcome::Unresolved => Ok(None),
            LookupOutcome::Fatal(f) => {
                // The fatal error is converted into a sink diagnostic at
                // this boundary and treated as "no type known".
                let msg = String::from_str(f.message.as_str());
                let ghost before = diagnostics@;
                diagnostics.push(Diagnostic { pos: target_pos, message: msg });
                proof {
                    assert(diagnostics@.drop_last() =~= before);
                }
                Ok(None)
            },
        }
    }

    /// Resolve an assignment target. A name is resolved against the
    /// scope; an aggregate's element typing is deferred to the right-hand
    /// side, so it yields no type here.
    pub fn resolve_target(
        &self,
        scope: &Scope,
        target: &PosTarget,
        assignment_type: AssignmentType,
        diagnostics: &mut Vec<Diagnostic>,
    ) -> (r: Result<Option<TypeEnt>, FatalError>)
        ensures
            match target.item {
                Target::Name(name) => {
                    &&& r matches Ok(ty) && ty == resolve_type_spec(*scope, name.sym)
                    &&& diags_after(
                        old(diagnostics)@,
                        final(diagnostics)@,
                        resolve_diag_spec(*scope, name.sym, target.pos, assignment_type),
                    )
                },
                Target::Aggregate(_) => {
                    &&& r matches Ok(ty) && ty is None
                    &&& final(diagnostics)@ == old(diagnostics)@
                },
            },
    {
        match &target.item {
            Target::Name(name) => self.resolve_target_name(
                scope,
                name,
                target.pos,
                assignment_type,
                diagnostics,
            ),
            Target::Aggregate(_) => Ok(None),
        }
    }
}

} // verus!
