use vhdl_lang::target::{
    AnalyzeContext, AssignmentType, Diagnostic, LookupOutcome, Mode, ObjectBase, ObjectClass,
    PosTarget, ResolvedName, Scope, ScopeEntry, Target, TargetName, TypeEnt, FatalError,
};
use vhdl_lang::tokens::Span;

fn object_entry(sym: u64, class: ObjectClass, mode: Option<Mode>, name: &str, ty: u64) -> ScopeEntry {
    ScopeEntry {
        sym,
        outcome: LookupOutcome::Resolved(ResolvedName::ObjectSelection {
            base: ObjectBase {
                class,
                mode,
                designator: name.to_string(),
            },
            type_mark: TypeEnt { id: ty },
        }),
    }
}

fn pos() -> Span {
    Span { start: 0, end: 1 }
}

fn resolve(
    scope: &Scope,
    sym: u64,
    at: AssignmentType,
    diagnostics: &mut Vec<Diagnostic>,
) -> Result<Option<TypeEnt>, FatalError> {
    let ctx = AnalyzeContext {};
    let target = PosTarget {
        item: Target::Name(TargetName { sym }),
        pos: pos(),
    };
    ctx.resolve_target(scope, &target, at, diagnostics)
}

#[test]
fn constant_signal_assignment_gets_exactly_one_diagnostic() {
    // c: constant integer := 0;  then  c <= 1
    let scope = Scope {
        entries: vec![object_entry(0, ObjectClass::Constant, None, "c", 7)],
    };
    let mut diags: Vec<Diagnostic> = Vec::new();
    let r = resolve(&scope, 0, AssignmentType::Signal, &mut diags);
    assert_eq!(r.unwrap(), Some(TypeEnt { id: 7 }));
    assert_eq!(diags.len(), 1);
    assert_eq!(
        diags[0].message,
        "constant 'c' may not be the target of an assignment"
    );
    assert_eq!(diags[0].pos, pos());
}

#[test]
fn signal_variable_assignment_gets_operator_diagnostic() {
    // s: signal;  then  s := 1
    let scope = Scope {
        entries: vec![object_entry(0, ObjectClass::Signal, None, "s", 3)],
    };
    let mut diags: Vec<Diagnostic> = Vec::new();
    let r = resolve(&scope, 0, AssignmentType::Variable, &mut diags);
    assert_eq!(r.unwrap(), Some(TypeEnt { id: 3 }));
    assert_eq!(diags.len(), 1);
    assert_eq!(
        diags[0].message,
        "signal 's' may not be the target of a variable assignment"
    );
}

#[test]
fn variable_signal_assignment_gets_operator_diagnostic() {
    let scope = Scope {
        entries: vec![object_entry(0, ObjectClass::Variable, None, "v", 3)],
    };
    let mut diags: Vec<Diagnostic> = Vec::new();
    let r = resolve(&scope, 0, AssignmentType::Signal, &mut diags);
    assert_eq!(r.unwrap(), Some(TypeEnt { id: 3 }));
    assert_eq!(diags.len(), 1);
    assert_eq!(
        diags[0].message,
        "variable 'v' may not be the target of a signal assignment"
    );
}

#[test]
fn legal_targets_get_no_diagnostic() {
    let scope = Scope {
        entries: vec![
            object_entry(0, ObjectClass::Signal, None, "s", 1),
            object_entry(1, ObjectClass::Variable, None, "v", 2),
            object_entry(2, ObjectClass::SharedVariable, None, "sh", 3),
        ],
    };
    let mut diags: Vec<Diagnostic> = Vec::new();
    assert_eq!(
        resolve(&scope, 0, AssignmentType::Signal, &mut diags).unwrap(),
        Some(TypeEnt { id: 1 })
    );
    assert_eq!(
        resolve(&scope, 1, AssignmentType::Variable, &mut diags).unwrap(),
        Some(TypeEnt { id: 2 })
    );
    assert_eq!(
        resolve(&scope, 2, AssignmentType::Variable, &mut diags).unwrap(),
        Some(TypeEnt { id: 3 })
    );
    assert!(diags.is_empty());
}

#[test]
fn in_mode_formal_is_not_writable() {
    let scope = Scope {
        entries: vec![object_entry(
            0,
            ObjectClass::Signal,
            Some(Mode::In),
            "p",
            4,
        )],
    };
    let mut diags: Vec<Diagnostic> = Vec::new();
    let r = resolve(&scope, 0, AssignmentType::Signal, &mut diags);
    assert_eq!(r.unwrap(), Some(TypeEnt { id: 4 }));
    assert_eq!(diags.len(), 1);
    assert_eq!(
        diags[0].message,
        "signal 'p' may not be the target of an assignment"
    );
}

#[test]
fn non_object_target_is_invalid() {
    let scope = Scope {
        entries: vec![ScopeEntry {
            sym: 0,
            outcome: LookupOutcome::Resolved(ResolvedName::Type(TypeEnt { id: 1 })),
        }],
    };
    let mut diags: Vec<Diagnostic> = Vec::new();
    let r = resolve(&scope, 0, AssignmentType::Signal, &mut diags);
    assert_eq!(r.unwrap(), None);
    assert_eq!(diags.len(), 1);
    assert_eq!(diags[0].message, "Invalid assignment target");
}

#[test]
fn unresolved_name_adds_no_diagnostic() {
    let scope = Scope {
        entries: vec![ScopeEntry {
            sym: 0,
            outcome: LookupOutcome::Unresolved,
        }],
    };
    let mut diags: Vec<Diagnostic> = Vec::new();
    assert_eq!(resolve(&scope, 0, AssignmentType::Signal, &mut diags).unwrap(), None);
    assert_eq!(resolve(&scope, 9, AssignmentType::Signal, &mut diags).unwrap(), None);
    assert!(diags.is_empty());
}

#[test]
fn fatal_lookup_is_flushed_to_the_sink() {
    let scope = Scope {
        entries: vec![ScopeEntry {
            sym: 0,
            outcome: LookupOutcome::Fatal(FatalError {
                message: "circular dependency".to_string(),
            }),
        }],
    };
    let mut diags: Vec<Diagnostic> = Vec::new();
    let r = resolve(&scope, 0, AssignmentType::Signal, &mut diags);
    assert_eq!(r.unwrap(), None);
    assert_eq!(diags.len(), 1);
    assert_eq!(diags[0].message, "circular dependency");
}

#[test]
fn aggregate_target_yields_no_type_and_no_diagnostic() {
    let scope = Scope { entries: vec![] };
    let ctx = AnalyzeContext {};
    let target = PosTarget {
        item: Target::Aggregate(vec![TargetName { sym: 0 }, TargetName { sym: 1 }]),
        pos: pos(),
    };
    let mut diags: Vec<Diagnostic> = Vec::new();
    let r = ctx.resolve_target(&scope, &target, AssignmentType::Variable, &mut diags);
    assert_eq!(r.unwrap(), None);
    assert!(diags.is_empty());
}

#[test]
fn resolving_twice_yields_identical_diagnostics_and_type() {
    let scope = Scope {
        entries: vec![object_entry(0, ObjectClass::Constant, None, "c", 7)],
    };
    let mut d1: Vec<Diagnostic> = Vec::new();
    let mut d2: Vec<Diagnostic> = Vec::new();
    let r1 = resolve(&scope, 0, AssignmentType::Signal, &mut d1).unwrap();
    let r2 = resolve(&scope, 0, AssignmentType::Signal, &mut d2).unwrap();
    assert_eq!(r1, r2);
    assert_eq!(d1.len(), d2.len());
    assert_eq!(d1[0].message, d2[0].message);
    assert_eq!(d1[0].pos, d2[0].pos);
}

#[test]
fn earlier_scope_entries_shadow_later_ones() {
    let scope = Scope {
        entries: vec![
            object_entry(5, ObjectClass::Signal, None, "s", 1),
            object_entry(5, ObjectClass::Constant, None, "s", 2),
        ],
    };
    let mut diags: Vec<Diagnostic> = Vec::new();
    let r = resolve(&scope, 5, AssignmentType::Signal, &mut diags);
    assert_eq!(r.unwrap(), Some(TypeEnt { id: 1 }));
    assert!(diags.is_empty());
}

#[test]
fn file_object_gets_operator_diagnostic() {
    let scope = Scope {
        entries: vec![object_entry(0, ObjectClass::File, None, "f", 6)],
    };
    let mut diags: Vec<Diagnostic> = Vec::new();
    let r = resolve(&scope, 0, AssignmentType::Signal, &mut diags);
    assert_eq!(r.unwrap(), Some(TypeEnt { id: 6 }));
    assert_eq!(diags.len(), 1);
    assert_eq!(
        diags[0].message,
        "file 'f' may not be the target of a signal assignment"
    );
}
