//! The subtype-indication parser. A subtype indication is
//! `[resolution] type_mark [constraint]`; after a `(` the content may be an
//! array constraint, a record constraint, an array-element resolution or a
//! record-element resolution, and no finite lookahead can distinguish the
//! array and record forms. The composite-constraint parser therefore
//! speculates: it attempts a discrete range, peeks one token, and rewinds
//! the stream before parsing a record constraint instead.
use crate::ast::DiscreteRange;
use crate::ast::RangeExpr;
use crate::ast::{
    ElementConstraint, Ident, PosConstraint, RecordElementResolution, ResolutionIndication,
    SelectedName, SubtypeConstraint, SubtypeIndication, TypeMark,
};
use crate::grammar::{
    constraint_suffix_checked, lemma_discrete_range_list_snoc, lemma_element_constraint_list_snoc,
    lemma_element_resolution_list_snoc, lemma_parsed_constraint_len,
    lemma_parsed_element_resolution_len, parsed_constraint, parsed_discrete_range,
    parsed_discrete_range_list, parsed_element_constraint, parsed_element_constraint_list,
    parsed_element_resolution, parsed_element_resolution_item, parsed_element_resolution_list,
    parsed_ident, parsed_selected_name, parsed_subtype_indication, parsed_type_mark, resolution_len,
    sel_end,
};
use crate::grammar::lemma_name_parse_unique;
use crate::names::{parse_selected_name, parse_type_mark, parse_type_mark_starting_with_name};
use crate::tokens::Token;
use crate::range::{parse_discrete_range, parse_range};
use crate::tokens::{Kind, ParseError, Span, TokenStream};
use vstd::prelude::*;

verus! {

/// Parse one record-constraint element: an identifier, then its nested
/// composite constraint.
pub fn parse_record_element_constraint(stream: &mut TokenStream) -> (r: Result<
    ElementConstraint,
    ParseError,
>)
    requires
        old(stream).wf(),
    ensures
        final(stream).wf(),
        final(stream).toks() == old(stream).toks(),
        old(stream).at() <= final(stream).at(),
        r matches Err(e) ==> e.expected@.len() >= 1,
        r matches Ok(ec) ==> parsed_element_constraint(
            old(stream).toks(),
            old(stream).at(),
            final(stream).at(),
            ec,
        ) && old(stream).at() < final(stream).at(),
        (old(stream).at() < old(stream).toks().len() && old(stream).toks()[old(stream).at()].kind
            == Kind::Identifier && simple_array_window(old(stream).toks(), old(stream).at() + 1))
            ==> (r is Ok && final(stream).at() == simple_array_end(
            old(stream).toks(),
            old(stream).at() + 1,
        )),
    decreases old(stream).toks().len() - old(stream).at(), 0int,
{
    let ident = stream.expect_ident()?;
    let c = parse_composite_constraint(stream)?;
    let ec = ElementConstraint { ident, constraint: Box::new(c) };
    proof {
        assert(parsed_constraint(
            old(stream).toks(),
            old(stream).at() + 1,
            stream.at(),
            *ec.constraint,
        ));
    }
    Ok(ec)
}

/// Speculatively parse the start of an array constraint right after its
/// `(`: the `open` keyword or one discrete range, then require that the
/// next token is `)` or `,`. On any failure the stream is rewound to where
/// it stood, so the record-constraint reading can be tried from there.
pub fn attempt_array_initial(stream: &mut TokenStream) -> (r: Result<
    Option<DiscreteRange>,
    ParseError,
>)
    requires
        old(stream).wf(),
    ensures
        final(stream).wf(),
        final(stream).toks() == old(stream).toks(),
        old(stream).at() <= final(stream).at(),
        r matches Err(e) ==> e.expected@.len() >= 1,
        r is Err ==> final(stream).at() == old(stream).at(),
        r is Ok ==> old(stream).at() < final(stream).at(),
        (old(stream).at() + 1 < old(stream).toks().len() && old(stream).toks()[old(stream).at()].kind
            == Kind::KwOpen && (old(stream).toks()[old(stream).at() + 1].kind == Kind::RightPar
            || old(stream).toks()[old(stream).at() + 1].kind == Kind::Comma)) ==> (r matches Ok(
            od2,
        ) && od2 is None),
        (old(stream).at() + 1 < old(stream).toks().len() && old(stream).toks()[old(stream).at()].kind
            == Kind::Identifier && (old(stream).toks()[old(stream).at() + 1].kind == Kind::RightPar
            || old(stream).toks()[old(stream).at() + 1].kind == Kind::Comma)) ==> (r matches Ok(
            od3,
        ) && od3 is Some && final(stream).at() == old(stream).at() + 1),
        (crate::names::name_run_window(old(stream).toks(), old(stream).at())
            && crate::names::name_run_end(old(stream).toks(), old(stream).at()) < old(
            stream,
        ).toks().len() && (old(stream).toks()[crate::names::name_run_end(
            old(stream).toks(),
            old(stream).at(),
        )].kind == Kind::RightPar || old(stream).toks()[crate::names::name_run_end(
            old(stream).toks(),
            old(stream).at(),
        )].kind == Kind::Comma)) ==> (r matches Ok(od4) && od4 is Some && final(stream).at()
            == crate::names::name_run_end(old(stream).toks(), old(stream).at())),
        (crate::range::simple_range_window(old(stream).toks(), old(stream).at())
            && crate::range::simple_range_end(old(stream).toks(), old(stream).at()) < old(
            stream,
        ).toks().len() && (old(stream).toks()[crate::range::simple_range_end(
            old(stream).toks(),
            old(stream).at(),
        )].kind == Kind::RightPar || old(stream).toks()[crate::range::simple_range_end(
            old(stream).toks(),
            old(stream).at(),
        )].kind == Kind::Comma)) ==> (r matches Ok(od5) && od5 is Some && final(stream).at()
            == crate::range::simple_range_end(old(stream).toks(), old(stream).at())),
        r matches Ok(od) ==> {
            &&& final(stream).at() < final(stream).toks().len()
            &&& (final(stream).toks()[final(stream).at()].kind == Kind::RightPar
                || final(stream).toks()[final(stream).at()].kind == Kind::Comma)
            &&& match od {
                None => old(stream).toks()[old(stream).at()].kind == Kind::KwOpen
                    && final(stream).at() == old(stream).at() + 1 && old(stream).at() < old(
                    stream,
                ).toks().len(),
                Some(d) => parsed_discrete_range(
                    old(stream).toks(),
                    old(stream).at(),
                    final(stream).at(),
                    d,
                ),
            }
        },
{
    let state = stream.state();
    let initial: Option<DiscreteRange>;
    if stream.skip_if_kind(Kind::KwOpen) {
        initial = None;
    } else {
        match parse_discrete_range(stream) {
            Ok(d) => {
                proof {
                    let t = old(stream).toks();
                    let i0 = old(stream).at();
                    if i0 + 1 < t.len() && t[i0].kind == Kind::Identifier && (t[i0 + 1].kind
                        == Kind::RightPar || t[i0 + 1].kind == Kind::Comma) {
                        crate::grammar::lemma_lone_discrete_range(t, i0, stream.at(), d);
                    }
                    if crate::names::name_run_window(t, i0) && crate::names::name_run_end(t, i0)
                        < t.len() && (t[crate::names::name_run_end(t, i0)].kind == Kind::RightPar
                        || t[crate::names::name_run_end(t, i0)].kind == Kind::Comma) {
                        assert(stream.at() == crate::names::name_run_end(t, i0));
                    }
                    if crate::range::simple_range_window(t, i0) {
                        assert(stream.at() == crate::range::simple_range_end(t, i0));
                    }
                }
                initial = Some(d);
            },
            Err(e) => {
                stream.set_state(state);
                return Err(e);
            },
        }
    }
    let sep_ok = match stream.peek_kind() {
        Some(Kind::RightPar) => true,
        Some(Kind::Comma) => true,
        _ => false,
    };
    if sep_ok {
        Ok(initial)
    } else {
        let pos = match stream.peek() {
            Some(tok) => tok.pos,
            None => Span { start: 0, end: 0 },
        };
        let mut expected: Vec<Kind> = Vec::new();
        expected.push(Kind::RightPar);
        expected.push(Kind::Comma);
        stream.set_state(state);
        Err(ParseError { pos, expected, context: Some("parsing index constraint") })
    }
}

/// Parse the rest of an array constraint whose `(` stands at `leftpar` and
/// whose first item (a discrete range, or `open` as `None`) is already
/// consumed: after a discrete range, further comma-separated discrete
/// ranges until `)`; after `open`, the `)` itself. Then an optional nested
/// element constraint.
#[verifier::loop_isolation(false)]
pub fn parse_array_constraint(
    stream: &mut TokenStream,
    leftpar: usize,
    initial: Option<DiscreteRange>,
) -> (r: Result<PosConstraint, ParseError>)
    requires
        old(stream).wf(),
        leftpar < old(stream).toks().len(),
        leftpar + 2 <= old(stream).at(),
        old(stream).toks()[leftpar as int].kind == Kind::LeftPar,
        match initial {
            None => leftpar + 1 < old(stream).toks().len() && old(stream).toks()[leftpar
                + 1].kind == Kind::KwOpen && old(stream).at() == leftpar + 2,
            Some(d) => parsed_discrete_range(
                old(stream).toks(),
                leftpar + 1,
                old(stream).at(),
                d,
            ),
        },
    ensures
        final(stream).wf(),
        final(stream).toks() == old(stream).toks(),
        old(stream).at() <= final(stream).at(),
        r matches Err(e) ==> e.expected@.len() >= 1,
        r matches Ok(c) ==> parsed_constraint(
            old(stream).toks(),
            leftpar as int,
            final(stream).at(),
            c,
        ) && c.item matches SubtypeConstraint::Array(_, _),
        (initial is None && old(stream).at() < old(stream).toks().len() && old(stream).toks()[old(
            stream,
        ).at()].kind == Kind::RightPar && (old(stream).at() + 1 == old(stream).toks().len() || (
        old(stream).toks()[old(stream).at() + 1].kind != Kind::LeftPar && old(stream).toks()[old(
            stream,
        ).at() + 1].kind != Kind::KwRange))) ==> r is Ok,
        (old(stream).at() < old(stream).toks().len() && old(stream).toks()[old(stream).at()].kind
            == Kind::RightPar && (old(stream).at() + 1 == old(stream).toks().len() || (old(
            stream,
        ).toks()[old(stream).at() + 1].kind != Kind::LeftPar && old(stream).toks()[old(stream).at()
            + 1].kind != Kind::KwRange) || ident_array_chain(
            old(stream).toks(),
            old(stream).at() + 1,
        ))) ==> r is Ok,
        (simple_array_window(old(stream).toks(), leftpar as int) && old(stream).at()
            == crate::range::simple_range_end(old(stream).toks(), leftpar + 1)) ==> (r is Ok
            && final(stream).at() == simple_array_end(old(stream).toks(), leftpar as int)),
        r matches Ok(c) ==> (constraint_suffix_checked(c) ==> (final(stream).at() == final(stream).toks().len()
            || (final(stream).toks()[final(stream).at()].kind != Kind::KwRange
            && final(stream).toks()[final(stream).at()].kind != Kind::LeftPar))),
    decreases old(stream).toks().len() - old(stream).at(), 0int,
{
    let ghost t = old(stream).toks();
    let ghost s0: int = leftpar + 1;
    let mut discrete_ranges: Vec<DiscreteRange> = Vec::new();
    match initial {
        Some(d) => {
            discrete_ranges.push(d);
            proof {
                assert(discrete_ranges@.last() == d);
                assert(parsed_discrete_range_list(t, s0, stream.at(), discrete_ranges@));
            }
            while stream.skip_if_kind(Kind::Comma)
                invariant
                    stream.wf(),
                    stream.toks() == t,
                    old(stream).at() <= stream.at(),
                    leftpar + 2 <= stream.at() <= t.len(),
                    discrete_ranges@.len() >= 1,
                    parsed_discrete_range_list(t, s0, stream.at(), discrete_ranges@),
                    (old(stream).at() < t.len() && t[old(stream).at()].kind == Kind::RightPar)
                        ==> stream.at() == old(stream).at(),
                    (simple_range_list_window(t, leftpar + 1) && old(stream).at()
                        == crate::range::simple_range_end(t, leftpar + 1)) ==> (stream.at()
                        < t.len() && (t[stream.at()].kind == Kind::RightPar && stream.at()
                        == simple_range_list_end(t, leftpar + 1) || (t[stream.at()].kind
                        == Kind::Comma && simple_range_list_window(t, stream.at() + 1)
                        && simple_range_list_end(t, stream.at() + 1) == simple_range_list_end(
                        t,
                        leftpar + 1,
                    )))),
                decreases t.len() - stream.at(),
            {
                let ghost comma_idx = stream.at() - 1;
                let ghost old_rs = discrete_ranges@;
                let d2 = parse_discrete_range(stream)?;
                discrete_ranges.push(d2);
                proof {
                    assert(discrete_ranges@.drop_last() =~= old_rs);
                    assert(discrete_ranges@.last() == d2);
                    assert(t[comma_idx].kind == Kind::Comma);
                    lemma_discrete_range_list_snoc(
                        t,
                        s0,
                        comma_idx,
                        stream.at(),
                        discrete_ranges@,
                    );
                }
            }
        },
        None => {},
    }
    let rp = stream.expect_kind(Kind::RightPar)?;
    let ghost rpi = rp as int;
    let mut end_pos = stream.get_pos(rp);
    let element_constraint: Option<Box<PosConstraint>> = match parse_subtype_constraint(stream)? {
        Some(ec) => {
            end_pos = ec.pos;
            Some(Box::new(ec))
        },
        None => None,
    };
    let leftpar_pos = stream.get_pos(leftpar);
    let c = PosConstraint {
        item: SubtypeConstraint::Array(discrete_ranges, element_constraint),
        pos: leftpar_pos.combine(end_pos),
    };
    proof {
        let rs = c.item->Array_0;
        let oe = c.item->Array_1;
        assert(t[rpi].kind == Kind::RightPar);
        match oe {
            None => {
                assert(stream.at() == rpi + 1);
                assert(c.pos == t[leftpar as int].pos.combine_spec(t[rpi].pos));
            },
            Some(e) => {
                assert(parsed_constraint(t, rpi + 1, stream.at(), *e));
                lemma_parsed_constraint_len(t, rpi + 1, stream.at(), *e);
                assert(c.pos == t[leftpar as int].pos.combine_spec((*e).pos));
            },
        }
        if rs@.len() == 0 {
            assert(t[leftpar + 1].kind == Kind::KwOpen);
            assert(rpi == leftpar + 2);
        } else {
            assert(parsed_discrete_range_list(t, leftpar + 1, rpi, rs@));
        }
        assert(parsed_constraint(t, leftpar as int, stream.at(), c));
    }
    Ok(c)
}

/// Parse a parenthesized composite constraint, deciding between the array
/// and record forms. The array start is attempted speculatively; if the
/// token after it is not `)` or `,`, the stream is rewound to right after
/// the `(` and a record constraint is parsed instead.
#[verifier::loop_isolation(false)]
pub fn parse_composite_constraint(stream: &mut TokenStream) -> (r: Result<
    PosConstraint,
    ParseError,
>)
    requires
        old(stream).wf(),
    ensures
        final(stream).wf(),
        final(stream).toks() == old(stream).toks(),
        old(stream).at() <= final(stream).at(),
        r matches Err(e) ==> e.expected@.len() >= 1,
        r matches Ok(c) ==> {
            &&& parsed_constraint(old(stream).toks(), old(stream).at(), final(stream).at(), c)
            &&& (c.item matches SubtypeConstraint::Array(_, _) || c.item
                matches SubtypeConstraint::Record(_))
            &&& old(stream).at() < final(stream).at()
        },
        (old(stream).at() + 2 < old(stream).toks().len() && old(stream).toks()[old(stream).at()].kind
            == Kind::LeftPar && old(stream).toks()[old(stream).at() + 1].kind == Kind::KwOpen
            && old(stream).toks()[old(stream).at() + 2].kind == Kind::RightPar && (old(stream).at()
            + 3 == old(stream).toks().len() || (old(stream).toks()[old(stream).at() + 3].kind
            != Kind::LeftPar && old(stream).toks()[old(stream).at() + 3].kind != Kind::KwRange)))
            ==> (r matches Ok(c3) && c3.item matches SubtypeConstraint::Array(_, _)),
        ident_array_chain(old(stream).toks(), old(stream).at()) ==> r is Ok,
        dotted_array_window(old(stream).toks(), old(stream).at()) ==> (r matches Ok(c5) && c5.item
            matches SubtypeConstraint::Array(_, _)),
        simple_array_window(old(stream).toks(), old(stream).at()) ==> (r matches Ok(c6) && c6.item
            matches SubtypeConstraint::Array(_, _) && final(stream).at() == simple_array_end(
            old(stream).toks(),
            old(stream).at(),
        )),
        simple_record_window(old(stream).toks(), old(stream).at()) ==> (r matches Ok(c8) && c8.item
            matches SubtypeConstraint::Record(_) && final(stream).at() == record_list_end(
            old(stream).toks(),
            old(stream).at() + 1,
        ) + 1),
        r matches Ok(c) ==> (constraint_suffix_checked(c) ==> (final(stream).at() == final(stream).toks().len()
            || (final(stream).toks()[final(stream).at()].kind != Kind::KwRange
            && final(stream).toks()[final(stream).at()].kind != Kind::LeftPar))),
    decreases old(stream).toks().len() - old(stream).at(), 0int,
{
    let ghost t = old(stream).toks();
    let ghost i = old(stream).at();
    let leftpar = stream.expect_kind(Kind::LeftPar)?;
    match attempt_array_initial(stream) {
        Ok(initial) => {
            proof {
                if ident_array_chain(t, i) {
                    assert(t[i + 1].kind == Kind::Identifier);
                    assert(t[i + 2].kind == Kind::RightPar);
                    assert(initial is Some);
                    assert(stream.at() == i + 2);
                }
                if dotted_array_window(t, i) {
                    assert(initial is Some);
                    assert(stream.at() == crate::names::name_run_end(t, i + 1));
                    assert(t[stream.at()].kind == Kind::RightPar);
                }
                if simple_array_window(t, i) {
                    assert(simple_range_list_window(t, i + 1));
                    assert(initial is Some);
                    assert(stream.at() == crate::range::simple_range_end(t, i + 1));
                }
                let gi = initial;
                if simple_record_window(t, i) {
                    assert(record_elem_window(t, i + 1));
                    match gi {
                        Some(d) => {
                            crate::grammar::lemma_lone_discrete_range(t, i + 1, stream.at(), d);
                            assert(t[i + 2].kind == Kind::LeftPar);
                            assert(false);
                        },
                        None => {
                            assert(t[i + 1].kind == Kind::KwOpen);
                            assert(false);
                        },
                    }
                }
            }
            parse_array_constraint(stream, leftpar, initial)
        },
        Err(_) => {
            proof {
                if ident_array_chain(t, i) {
                    assert(t[i + 1].kind == Kind::Identifier);
                    assert(t[i + 2].kind == Kind::RightPar);
                    assert(false);
                }
                if dotted_array_window(t, i) {
                    assert(false);
                }
                if simple_array_window(t, i) {
                    assert(simple_range_list_window(t, i + 1));
                    assert(false);
                }
                if simple_record_window(t, i) {
                    assert(record_elem_window(t, i + 1));
                    assert(simple_range_list_window(t, i + 3));
                    assert(simple_array_window(t, i + 2));
                }
            }
            // The speculation failed and the stream stands right after the
            // left parenthesis again: parse a record constraint.
            let first = parse_record_element_constraint(stream)?;
            proof {
                if simple_record_window(t, i) {
                    assert(stream.at() == record_elem_end(t, i + 1));
                }
            }
            let mut constraints: Vec<ElementConstraint> = Vec::new();
            constraints.push(first);
            proof {
                assert(constraints@.last() == first);
                assert(parsed_element_constraint(t, i + 1, stream.at(), constraints@.last()));
                assert(parsed_element_constraint_list(t, i + 1, stream.at(), constraints@));
            }
            while stream.skip_if_kind(Kind::Comma)
                invariant
                    stream.wf(),
                    stream.toks() == t,
                    i + 1 <= stream.at() <= t.len(),
                    constraints@.len() >= 1,
                    parsed_element_constraint_list(t, i + 1, stream.at(), constraints@),
                    simple_record_window(t, i) ==> (stream.at() < t.len() && (t[stream.at()].kind
                        == Kind::RightPar && stream.at() == record_list_end(t, i + 1) || (t[stream.at()].kind
                        == Kind::Comma && record_list_window(t, stream.at() + 1)
                        && record_list_end(t, stream.at() + 1) == record_list_end(t, i + 1)))),
                decreases t.len() - stream.at(),
            {
                let ghost comma_idx = stream.at() - 1;
                let ghost old_cs = constraints@;
                proof {
                    if simple_record_window(t, i) {
                        assert(record_list_window(t, comma_idx + 1));
                        assert(record_elem_window(t, comma_idx + 1));
                        assert(simple_range_list_window(t, comma_idx + 3));
                        assert(simple_array_window(t, comma_idx + 2));
                    }
                }
                let ec = parse_record_element_constraint(stream)?;
                proof {
                    if simple_record_window(t, i) {
                        assert(stream.at() == record_elem_end(t, comma_idx + 1));
                    }
                }
                constraints.push(ec);
                proof {
                    assert(constraints@.drop_last() =~= old_cs);
                    assert(constraints@.last() == ec);
                    assert(t[comma_idx].kind == Kind::Comma);
                    lemma_element_constraint_list_snoc(
                        t,
                        i + 1,
                        comma_idx,
                        stream.at(),
                        constraints@,
                    );
                }
            }
            let rp = stream.expect_kind(Kind::RightPar)?;
            let leftpar_pos = stream.get_pos(leftpar);
            let rp_pos = stream.get_pos(rp);
            let c = PosConstraint {
                item: SubtypeConstraint::Record(constraints),
                pos: leftpar_pos.combine(rp_pos),
            };
            proof {
                assert(t[rp as int].kind == Kind::RightPar);
                assert(parsed_element_constraint_list(t, i + 1, rp as int, c.item->Record_0@));
                assert(parsed_constraint(t, i, stream.at(), c));
            }
            Ok(c)
        },
    }
}

/// Parse an optional subtype-constraint suffix: a `range` constraint, a
/// parenthesized composite constraint, or nothing.
pub fn parse_subtype_constraint(stream: &mut TokenStream) -> (r: Result<
    Option<PosConstraint>,
    ParseError,
>)
    requires
        old(stream).wf(),
    ensures
        final(stream).wf(),
        final(stream).toks() == old(stream).toks(),
        old(stream).at() <= final(stream).at(),
        r matches Err(e) ==> e.expected@.len() >= 1,
        r matches Ok(Some(c)) ==> parsed_constraint(
            old(stream).toks(),
            old(stream).at(),
            final(stream).at(),
            c,
        ) && old(stream).at() < final(stream).at(),
        r matches Ok(None) ==> final(stream).at() == old(stream).at() && (final(stream).at()
            == final(stream).toks().len() || (final(stream).toks()[final(stream).at()].kind
            != Kind::KwRange && final(stream).toks()[final(stream).at()].kind != Kind::LeftPar)),
        (old(stream).at() == old(stream).toks().len() || (old(stream).toks()[old(stream).at()].kind
            != Kind::KwRange && old(stream).toks()[old(stream).at()].kind != Kind::LeftPar))
            ==> r matches Ok(None),
        (old(stream).at() + 2 < old(stream).toks().len() && old(stream).toks()[old(stream).at()].kind
            == Kind::LeftPar && old(stream).toks()[old(stream).at() + 1].kind == Kind::KwOpen
            && old(stream).toks()[old(stream).at() + 2].kind == Kind::RightPar && (old(stream).at()
            + 3 == old(stream).toks().len() || (old(stream).toks()[old(stream).at() + 3].kind
            != Kind::LeftPar && old(stream).toks()[old(stream).at() + 3].kind != Kind::KwRange)))
            ==> (r matches Ok(oc) && oc matches Some(c2) && c2.item
            matches SubtypeConstraint::Array(_, _)),
        (old(stream).at() < old(stream).toks().len() && old(stream).toks()[old(stream).at()].kind
            == Kind::KwRange && crate::range::simple_range_window(
            old(stream).toks(),
            old(stream).at() + 1,
        )) ==> (r matches Ok(oc2) && oc2 matches Some(c4) && c4.item
            matches SubtypeConstraint::Range(_)),
        ident_array_chain(old(stream).toks(), old(stream).at()) ==> (r matches Ok(oc3) && oc3
            is Some),
        dotted_array_window(old(stream).toks(), old(stream).at()) ==> (r matches Ok(oc4) && oc4
            matches Some(c6) && c6.item matches SubtypeConstraint::Array(_, _)),
        simple_array_window(old(stream).toks(), old(stream).at()) ==> (r matches Ok(oc5) && oc5
            matches Some(c7) && c7.item matches SubtypeConstraint::Array(_, _)
            && final(stream).at() == simple_array_end(old(stream).toks(), old(stream).at())),
        simple_record_window(old(stream).toks(), old(stream).at()) ==> (r matches Ok(oc6) && oc6
            matches Some(c9) && c9.item matches SubtypeConstraint::Record(_)),
        r matches Ok(Some(c)) ==> (constraint_suffix_checked(c) ==> (final(stream).at() == final(stream).toks().len()
            || (final(stream).toks()[final(stream).at()].kind != Kind::KwRange
            && final(stream).toks()[final(stream).at()].kind != Kind::LeftPar))),
        r matches Ok(Some(c)) ==> (c.item matches SubtypeConstraint::Range(rg) ==> (rg
            matches RangeExpr::Bounds { .. } ==> (final(stream).at() == final(stream).toks().len()
            || (final(stream).toks()[final(stream).at()].kind != Kind::Plus
            && final(stream).toks()[final(stream).at()].kind != Kind::Minus)))),
    decreases old(stream).toks().len() - old(stream).at(), 1int,
{
    let ghost t = old(stream).toks();
    let ghost i = old(stream).at();
    match stream.peek_kind() {
        Some(Kind::KwRange) => {
            let ti = stream.expect_kind(Kind::KwRange)?;
            let rg = parse_range(stream)?;
            let kw_pos = stream.get_pos(ti);
            let pos = kw_pos.combine(rg.position());
            let c = PosConstraint { item: SubtypeConstraint::Range(rg), pos };
            proof {
                assert(c.item->Range_0 == rg);
                assert(parsed_constraint(t, i, stream.at(), c));
                assert(rg is Bounds ==> (stream.at() == t.len() || (t[stream.at()].kind
                    != Kind::Plus && t[stream.at()].kind != Kind::Minus)));
            }
            Ok(Some(c))
        },
        Some(Kind::LeftPar) => {
            let c = parse_composite_constraint(stream)?;
            Ok(Some(c))
        },
        _ => Ok(None),
    }
}

/// The tokens at `i` are exactly `( identifier )`: the smallest
/// array-element resolution, whose acceptance is owed.
pub open spec fn lone_name_window(t: Seq<Token>, i: int) -> bool {
    &&& i + 2 < t.len()
    &&& 0 <= i
    &&& t[i].kind == Kind::LeftPar
    &&& t[i + 1].kind == Kind::Identifier
    &&& t[i + 2].kind == Kind::RightPar
}

/// The tokens at `i` are exactly `( identifier identifier )`: the smallest
/// record-element resolution, whose acceptance is owed.
pub open spec fn elem_name_window(t: Seq<Token>, i: int) -> bool {
    &&& i + 3 < t.len()
    &&& 0 <= i
    &&& t[i].kind == Kind::LeftPar
    &&& t[i + 1].kind == Kind::Identifier
    &&& t[i + 2].kind == Kind::Identifier
    &&& t[i + 3].kind == Kind::RightPar
}

/// Parse what follows an element's identifier inside a record-element
/// resolution: a nested parenthesized indication if a `(` follows, else a
/// resolution function name.
fn parse_inner_resolution(stream: &mut TokenStream) -> (r: Result<
    ResolutionIndication,
    ParseError,
>)
    requires
        old(stream).wf(),
    ensures
        final(stream).wf(),
        final(stream).toks() == old(stream).toks(),
        old(stream).at() <= final(stream).at(),
        r matches Err(e) ==> e.expected@.len() >= 1,
        (old(stream).at() < old(stream).toks().len() && old(stream).toks()[old(stream).at()].kind
            == Kind::Identifier && (old(stream).at() + 1 == old(stream).toks().len() || old(
            stream,
        ).toks()[old(stream).at() + 1].kind != Kind::Dot)) ==> r is Ok,
        r matches Ok(res) ==> match res {
            ResolutionIndication::FunctionName(n) => parsed_selected_name(
                old(stream).toks(),
                old(stream).at(),
                final(stream).at(),
                n,
            ),
            _ => parsed_element_resolution(
                old(stream).toks(),
                old(stream).at(),
                final(stream).at(),
                res,
            ),
        },
        lone_name_window(old(stream).toks(), old(stream).at()) ==> (r matches Ok(res2) && res2
            matches ResolutionIndication::ArrayElement(_) && final(stream).at() == old(stream).at()
            + 3),
        elem_name_window(old(stream).toks(), old(stream).at()) ==> (r matches Ok(res3) && res3
            matches ResolutionIndication::Record(_) && final(stream).at() == old(stream).at() + 4),
    decreases old(stream).toks().len() - old(stream).at(), 1int,
{
    let is_par = match stream.peek_kind() {
        Some(Kind::LeftPar) => true,
        _ => false,
    };
    if is_par {
        parse_element_resolution_indication(stream)
    } else {
        let n = parse_selected_name(stream)?;
        Ok(ResolutionIndication::FunctionName(n))
    }
}

/// The tokens at `i` are exactly `( identifier identifier , identifier
/// identifier )`: a two-element record resolution, accepted whatever the
/// element identifiers are — duplicates included.
pub open spec fn two_elem_window(t: Seq<Token>, i: int) -> bool {
    &&& i + 7 < t.len()
    &&& 0 <= i
    &&& t[i].kind == Kind::LeftPar
    &&& t[i + 1].kind == Kind::Identifier
    &&& t[i + 2].kind == Kind::Identifier
    &&& t[i + 3].kind == Kind::Comma
    &&& t[i + 4].kind == Kind::Identifier
    &&& t[i + 5].kind == Kind::Identifier
    &&& t[i + 6].kind == Kind::RightPar
}

/// One record-resolution element in its smallest forms, seen from its
/// element name at `q`: a resolution-function identifier, a parenthesized
/// name, or a parenthesized name pair.
pub open spec fn res_item_window(t: Seq<Token>, q: int) -> bool {
    &&& 0 <= q && q + 1 < t.len()
    &&& t[q].kind == Kind::Identifier
    &&& {
        ||| (t[q + 1].kind == Kind::Identifier && (q + 2 == t.len() || t[q + 2].kind != Kind::Dot))
        ||| lone_name_window(t, q + 1)
        ||| elem_name_window(t, q + 1)
    }
}

/// Where the element starting at `q` ends.
pub open spec fn res_item_end(t: Seq<Token>, q: int) -> int {
    if t[q + 1].kind == Kind::Identifier {
        q + 2
    } else if lone_name_window(t, q + 1) {
        q + 4
    } else {
        q + 5
    }
}

/// A comma-separated list of smallest-form record-resolution elements
/// stands at `q`, ending at a right parenthesis. Acceptance is owed.
pub open spec fn res_list_window(t: Seq<Token>, q: int) -> bool
    decreases t.len() - q,
{
    &&& res_item_window(t, q)
    &&& res_item_end(t, q) < t.len()
    &&& (t[res_item_end(t, q)].kind == Kind::RightPar || (t[res_item_end(t, q)].kind == Kind::Comma
        && res_list_window(t, res_item_end(t, q) + 1)))
}

/// Where the list starting at `q` ends: the index of its closing `)`.
pub open spec fn res_list_end(t: Seq<Token>, q: int) -> int
    decreases t.len() - q,
{
    if res_item_end(t, q) < t.len() && t[res_item_end(t, q)].kind == Kind::Comma {
        res_list_end(t, res_item_end(t, q) + 1)
    } else {
        res_item_end(t, q)
    }
}

/// Parse a parenthesized element-resolution indication. After `(` and one
/// identifier, a single peeked token decides the reading: `.` or `)` make
/// it an array-element resolution, an identifier or `(` a record-element
/// resolution that reinterprets the identifier as the first element name.
#[verifier::loop_isolation(false)]
pub fn parse_element_resolution_indication(stream: &mut TokenStream) -> (r: Result<
    ResolutionIndication,
    ParseError,
>)
    requires
        old(stream).wf(),
    ensures
        final(stream).wf(),
        final(stream).toks() == old(stream).toks(),
        old(stream).at() <= final(stream).at(),
        r matches Err(e) ==> e.expected@.len() >= 1,
        r matches Ok(res) ==> {
            &&& parsed_element_resolution(
                old(stream).toks(),
                old(stream).at(),
                final(stream).at(),
                res,
            )
            &&& (res matches ResolutionIndication::ArrayElement(_) || res
                matches ResolutionIndication::Record(_))
            &&& old(stream).at() < final(stream).at()
        },
        r matches Ok(res) ==> {
            &&& old(stream).at() + 2 < old(stream).toks().len()
            &&& (res matches ResolutionIndication::ArrayElement(_) <==> old(stream).toks()[old(
                stream,
            ).at() + 2].kind == Kind::RightPar)
            &&& (res matches ResolutionIndication::Record(_) <==> (old(stream).toks()[old(
                stream,
            ).at() + 2].kind == Kind::Identifier || old(stream).toks()[old(stream).at() + 2].kind
                == Kind::LeftPar))
        },
        lone_name_window(old(stream).toks(), old(stream).at()) ==> (r matches Ok(res2) && res2
            matches ResolutionIndication::ArrayElement(_) && final(stream).at() == old(stream).at()
            + 3),
        elem_name_window(old(stream).toks(), old(stream).at()) ==> (r matches Ok(res3) && res3
            matches ResolutionIndication::Record(_) && final(stream).at() == old(stream).at() + 4),
        two_elem_window(old(stream).toks(), old(stream).at()) ==> (r matches Ok(res4) && res4
            matches ResolutionIndication::Record(_) && final(stream).at() == old(stream).at() + 7),
        (old(stream).at() < old(stream).toks().len() && old(stream).toks()[old(stream).at()].kind
            == Kind::LeftPar && res_list_window(old(stream).toks(), old(stream).at() + 1)
            && old(stream).toks()[old(stream).at() + 2].kind != Kind::Dot && old(stream).toks()[old(
            stream,
        ).at() + 2].kind != Kind::RightPar) ==> (r matches Ok(res5) && res5
            matches ResolutionIndication::Record(_) && final(stream).at() == res_list_end(
            old(stream).toks(),
            old(stream).at() + 1,
        ) + 1),
    decreases old(stream).toks().len() - old(stream).at(), 0int,
{
    let ghost t = old(stream).toks();
    let ghost i = old(stream).at();
    let leftpar = stream.expect_kind(Kind::LeftPar)?;
    let first_ident = stream.expect_ident()?;
    let is_record = match stream.peek_kind() {
        Some(Kind::Dot) => false,
        Some(Kind::RightPar) => false,
        Some(Kind::Identifier) => true,
        Some(Kind::LeftPar) => true,
        _ => {
            let pos = match stream.peek() {
                Some(tok) => tok.pos,
                None => Span { start: 0, end: 0 },
            };
            let mut expected: Vec<Kind> = Vec::new();
            expected.push(Kind::Dot);
            expected.push(Kind::RightPar);
            expected.push(Kind::Identifier);
            expected.push(Kind::LeftPar);
            return Err(ParseError { pos, expected, context: None });
        },
    };
    if !is_record {
        // Array-element resolution: the identifier is a whole selected
        // name; a dotted name here is rejected at the `)` that follows.
        let mut parts: Vec<Ident> = Vec::new();
        parts.push(first_ident);
        let n = SelectedName { parts, pos: first_ident.pos };
        let rp = stream.expect_kind(Kind::RightPar)?;
        let res = ResolutionIndication::ArrayElement(n);
        proof {
            assert(res->ArrayElement_0.parts@.len() == 1);
            assert(res->ArrayElement_0.parts@[0] == first_ident);
            assert(parsed_ident(t, i + 1, first_ident));
            assert(parsed_element_resolution(t, i, stream.at(), res));
        }
        Ok(res)
    } else {
        proof {
            if res_list_window(t, i + 1) {
                assert(res_item_window(t, i + 1));
            }
        }
        let first_res = parse_inner_resolution(stream)?;
        proof {
            let fr0 = first_res;
            if res_list_window(t, i + 1) {
                assert(res_item_window(t, i + 1));
                match fr0 {
                    ResolutionIndication::FunctionName(n) => {
                        assert(parsed_selected_name(t, i + 2, stream.at(), n));
                        assert(parsed_ident(t, i + 2, n.parts@[0]));
                        if n.parts@.len() >= 2 {
                            assert(t[i + 3].kind == Kind::Dot);
                            assert(false);
                        }
                        assert(stream.at() == res_item_end(t, i + 1));
                    },
                    _ => {
                        assert(parsed_element_resolution(t, i + 2, stream.at(), fr0));
                        assert(t[i + 2].kind == Kind::LeftPar);
                        assert(stream.at() == res_item_end(t, i + 1));
                    },
                }
            }
        }
        proof {
            let fr = first_res;
            if two_elem_window(t, i) {
                match fr {
                    ResolutionIndication::FunctionName(n) => {
                        assert(parsed_selected_name(t, i + 2, stream.at(), n));
                        if n.parts@.len() >= 2 {
                            assert(parsed_ident(t, i + 2, n.parts@[0]));
                            assert(t[i + 2 + 1].kind == Kind::Dot);
                            assert(false);
                        }
                        assert(stream.at() == i + 3);
                    },
                    _ => {
                        assert(parsed_element_resolution(t, i + 2, stream.at(), fr));
                        assert(false);
                    },
                }
            }
            if elem_name_window(t, i) {
                match fr {
                    ResolutionIndication::FunctionName(n) => {
                        assert(parsed_selected_name(t, i + 2, stream.at(), n));
                        if n.parts@.len() >= 2 {
                            assert(parsed_ident(t, i + 2, n.parts@[0]));
                            assert(t[i + 2 + 1].kind == Kind::Dot);
                            assert(false);
                        }
                        assert(stream.at() == i + 3);
                    },
                    _ => {
                        assert(parsed_element_resolution(t, i + 2, stream.at(), fr));
                        assert(false);
                    },
                }
            }
        }
        let mut elems: Vec<RecordElementResolution> = Vec::new();
        let first_elem = RecordElementResolution {
            ident: first_ident,
            resolution: Box::new(first_res),
        };
        elems.push(first_elem);
        proof {
            assert(elems@.last() == first_elem);
            assert(parsed_ident(t, i + 1, first_elem.ident));
            assert(*first_elem.resolution == first_res);
            assert(parsed_element_resolution_item(t, i + 1, stream.at(), elems@.last()));
            assert(parsed_element_resolution_list(t, i + 1, stream.at(), elems@));
        }
        while stream.skip_if_kind(Kind::Comma)
            invariant
                stream.wf(),
                stream.toks() == t,
                i + 1 <= stream.at() <= t.len(),
                elems@.len() >= 1,
                parsed_element_resolution_list(t, i + 1, stream.at(), elems@),
                elem_name_window(t, i) ==> stream.at() == i + 3,
                two_elem_window(t, i) ==> (stream.at() == i + 3 || stream.at() == i + 6),
                res_list_window(t, i + 1) ==> (stream.at() < t.len() && (t[stream.at()].kind
                    == Kind::RightPar && stream.at() == res_list_end(t, i + 1) || (t[stream.at()].kind
                    == Kind::Comma && res_list_window(t, stream.at() + 1) && res_list_end(
                    t,
                    stream.at() + 1,
                ) == res_list_end(t, i + 1)))),
            decreases t.len() - stream.at(),
        {
            let ghost comma_idx = stream.at() - 1;
            let ghost old_es = elems@;
            proof {
                if res_list_window(t, i + 1) {
                    assert(res_list_window(t, comma_idx + 1));
                    assert(res_item_window(t, comma_idx + 1));
                }
            }
            let id = stream.expect_ident()?;
            let res = parse_inner_resolution(stream)?;
            proof {
                let fr3 = res;
                if res_list_window(t, i + 1) {
                    assert(res_list_window(t, comma_idx + 1));
                    assert(res_item_window(t, comma_idx + 1));
                    match fr3 {
                        ResolutionIndication::FunctionName(n) => {
                            assert(parsed_selected_name(t, comma_idx + 2, stream.at(), n));
                            assert(parsed_ident(t, comma_idx + 2, n.parts@[0]));
                            if n.parts@.len() >= 2 {
                                assert(t[comma_idx + 3].kind == Kind::Dot);
                                assert(false);
                            }
                            assert(stream.at() == res_item_end(t, comma_idx + 1));
                        },
                        _ => {
                            assert(parsed_element_resolution(t, comma_idx + 2, stream.at(), fr3));
                            assert(t[comma_idx + 2].kind == Kind::LeftPar);
                            assert(stream.at() == res_item_end(t, comma_idx + 1));
                        },
                    }
                }
            }
            proof {
                let fr2 = res;
                if two_elem_window(t, i) {
                    assert(comma_idx == i + 3);
                    match fr2 {
                        ResolutionIndication::FunctionName(n) => {
                            assert(parsed_selected_name(t, i + 5, stream.at(), n));
                            if n.parts@.len() >= 2 {
                                assert(parsed_ident(t, i + 5, n.parts@[0]));
                                assert(t[i + 5 + 1].kind == Kind::Dot);
                                assert(false);
                            }
                            assert(stream.at() == i + 6);
                        },
                        _ => {
                            assert(parsed_element_resolution(t, i + 5, stream.at(), fr2));
                            assert(false);
                        },
                    }
                }
            }
            let elem = RecordElementResolution { ident: id, resolution: Box::new(res) };
            elems.push(elem);
            proof {
                assert(elems@.drop_last() =~= old_es);
                assert(elems@.last() == elem);
                assert(t[comma_idx].kind == Kind::Comma);
                assert(*elem.resolution == res);
                assert(parsed_element_resolution_item(t, comma_idx + 1, stream.at(), elem));
                lemma_element_resolution_list_snoc(t, i + 1, comma_idx, stream.at(), elems@);
            }
        }
        let rp = stream.expect_kind(Kind::RightPar)?;
        let res = ResolutionIndication::Record(elems);
        proof {
            assert(t[rp as int].kind == Kind::RightPar);
            assert(parsed_element_resolution_list(t, i + 1, rp as int, res->Record_0@));
            assert(parsed_element_resolution(t, i, stream.at(), res));
        }
        Ok(res)
    }
}

/// The token at `j` could not continue a plain subtype indication: it
/// opens no dotted-name part, attribute, resolution-function type mark or
/// constraint.
pub open spec fn plain_follow(t: Seq<Token>, j: int) -> bool {
    j == t.len() || (t[j].kind != Kind::Dot && t[j].kind != Kind::Tick && t[j].kind
        != Kind::Identifier && t[j].kind != Kind::LeftPar && t[j].kind != Kind::KwRange)
}

/// A bare selected name stands at `i`, followed by nothing that could
/// continue an indication. On such input the parser is owed success.
pub open spec fn plain_indication_at(t: Seq<Token>, i: int) -> bool {
    exists|j: int, n: SelectedName| parsed_selected_name(t, i, j, n) && plain_follow(t, j)
}

/// The tokens at `j` are exactly `( open )` and no further constraint
/// opens after them: an open array constraint whose acceptance is owed.
pub open spec fn open_constraint_window(t: Seq<Token>, j: int) -> bool {
    &&& 0 <= j
    &&& j + 2 < t.len()
    &&& t[j].kind == Kind::LeftPar
    &&& t[j + 1].kind == Kind::KwOpen
    &&& t[j + 2].kind == Kind::RightPar
    &&& (j + 3 == t.len() || (t[j + 3].kind != Kind::LeftPar && t[j + 3].kind != Kind::KwRange))
}

/// A selected name with the `'subtype` attribute stands at `i`, followed
/// by nothing that could continue an indication. Success is owed.
pub open spec fn attr_indication_at(t: Seq<Token>, i: int) -> bool {
    exists|j: int, n: SelectedName|
        parsed_selected_name(t, i, j, n) && j + 1 < t.len() && t[j].kind == Kind::Tick && t[j
            + 1].kind == Kind::KwSubtype && plain_follow(t, j + 2)
}

/// A parenthesized dotted name stands at `p` — `(a)`, `(lib.foo.bar)` —
/// with nothing opening a further constraint after the `)`. The array
/// reading of it is owed.
pub open spec fn dotted_array_window(t: Seq<Token>, p: int) -> bool {
    &&& 0 <= p < t.len()
    &&& t[p].kind == Kind::LeftPar
    &&& crate::names::name_run_window(t, p + 1)
    &&& crate::names::name_run_end(t, p + 1) < t.len()
    &&& t[crate::names::name_run_end(t, p + 1)].kind == Kind::RightPar
    &&& (crate::names::name_run_end(t, p + 1) + 1 == t.len() || (t[crate::names::name_run_end(
        t,
        p + 1,
    ) + 1].kind != Kind::LeftPar && t[crate::names::name_run_end(t, p + 1) + 1].kind
        != Kind::KwRange))
}

/// A comma-separated list of ranges with one- or two-term bounds stands
/// at `p`, ending at a right parenthesis.
pub open spec fn simple_range_list_window(t: Seq<Token>, p: int) -> bool
    decreases t.len() - p,
{
    &&& crate::range::simple_range_window(t, p)
    &&& crate::range::simple_range_end(t, p) < t.len()
    &&& (t[crate::range::simple_range_end(t, p)].kind == Kind::RightPar || (t[
    crate::range::simple_range_end(t, p)].kind == Kind::Comma && simple_range_list_window(
        t,
        crate::range::simple_range_end(t, p) + 1,
    )))
}

/// Where the list starting at `p` ends: the index of its closing `)`.
pub open spec fn simple_range_list_end(t: Seq<Token>, p: int) -> int
    decreases t.len() - p,
{
    if crate::range::simple_range_end(t, p) < t.len() && t[crate::range::simple_range_end(
        t,
        p,
    )].kind == Kind::Comma {
        simple_range_list_end(t, crate::range::simple_range_end(t, p) + 1)
    } else {
        crate::range::simple_range_end(t, p)
    }
}

/// A parenthesized list of ranges with one- or two-term bounds stands at
/// `p`, optionally followed by further such element constraints, with
/// nothing opening a constraint after the last. Acceptance is owed.
pub open spec fn simple_array_window(t: Seq<Token>, p: int) -> bool
    decreases t.len() - p,
{
    &&& 0 <= p < t.len()
    &&& t[p].kind == Kind::LeftPar
    &&& simple_range_list_window(t, p + 1)
    &&& {
        let rp = simple_range_list_end(t, p + 1);
        ||| rp + 1 == t.len()
        ||| (t[rp + 1].kind != Kind::KwRange && t[rp + 1].kind != Kind::LeftPar)
        ||| (rp + 1 < t.len() && p < rp + 1 && t[rp + 1].kind == Kind::LeftPar
            && simple_array_window(t, rp + 1))
    }
}

/// Where the simple array constraint starting at `p` ends, its nested
/// element constraints included.
pub open spec fn simple_array_end(t: Seq<Token>, p: int) -> int
    decreases t.len() - p,
{
    let rp = simple_range_list_end(t, p + 1);
    if rp + 1 < t.len() && p < rp + 1 && t[rp + 1].kind == Kind::LeftPar && simple_array_window(
        t,
        rp + 1,
    ) {
        simple_array_end(t, rp + 1)
    } else {
        rp + 1
    }
}

/// One record-constraint element in simple form, seen from its element
/// name at `q`: the name, then a parenthesized simple range list, with a
/// comma or the record's closing parenthesis after it.
pub open spec fn record_elem_window(t: Seq<Token>, q: int) -> bool {
    &&& 0 <= q && q + 1 < t.len()
    &&& t[q].kind == Kind::Identifier
    &&& t[q + 1].kind == Kind::LeftPar
    &&& simple_range_list_window(t, q + 2)
    &&& {
        let rp = simple_range_list_end(t, q + 2);
        rp + 1 < t.len() && (t[rp + 1].kind == Kind::Comma || t[rp + 1].kind == Kind::RightPar)
    }
}

/// Where the element starting at `q` ends.
pub open spec fn record_elem_end(t: Seq<Token>, q: int) -> int {
    simple_range_list_end(t, q + 2) + 1
}

/// A comma-separated list of simple record-constraint elements stands at
/// `q`, ending at a right parenthesis. Acceptance is owed.
pub open spec fn record_list_window(t: Seq<Token>, q: int) -> bool
    decreases t.len() - q,
{
    &&& record_elem_window(t, q)
    &&& (t[record_elem_end(t, q)].kind == Kind::RightPar || (t[record_elem_end(t, q)].kind
        == Kind::Comma && q < record_elem_end(t, q) + 1 && record_list_window(
        t,
        record_elem_end(t, q) + 1,
    )))
}

/// Where the list starting at `q` ends: the index of its closing `)`.
pub open spec fn record_list_end(t: Seq<Token>, q: int) -> int
    decreases t.len() - q,
{
    if record_elem_window(t, q) && t[record_elem_end(t, q)].kind == Kind::Comma && q
        < record_elem_end(t, q) + 1 {
        record_list_end(t, record_elem_end(t, q) + 1)
    } else {
        record_elem_end(t, q)
    }
}

/// A parenthesized list of simple record elements stands at `p`: a record
/// constraint whose acceptance is owed.
pub open spec fn simple_record_window(t: Seq<Token>, p: int) -> bool {
    &&& 0 <= p < t.len()
    &&& t[p].kind == Kind::LeftPar
    &&& record_list_window(t, p + 1)
}

/// Parenthesized single-identifier array constraints stand at `p`, nested
/// to some depth: `(a)`, `(a)(b)`, `(a)(b)(c)`, ... with nothing opening a
/// further constraint after the last. Their acceptance is owed.
pub open spec fn ident_array_chain(t: Seq<Token>, p: int) -> bool
    decreases t.len() - p,
{
    &&& 0 <= p
    &&& p + 2 < t.len()
    &&& t[p].kind == Kind::LeftPar
    &&& t[p + 1].kind == Kind::Identifier
    &&& t[p + 2].kind == Kind::RightPar
    &&& (p + 3 == t.len() || (t[p + 3].kind != Kind::LeftPar && t[p + 3].kind != Kind::KwRange)
        || ident_array_chain(t, p + 3))
}

/// A bare selected name stands at `i` with a simple array constraint
/// after it: parenthesized ranges with one- or two-term bounds, nested
/// element constraints included. On such input the parser is owed
/// success.
pub open spec fn array_indication_at(t: Seq<Token>, i: int) -> bool {
    exists|j: int, n: SelectedName|
        parsed_selected_name(t, i, j, n) && simple_array_window(t, j)
}

/// A bare selected name stands at `i` with an `( open )` constraint after
/// it. On such input the parser is owed success.
pub open spec fn open_indication_at(t: Seq<Token>, i: int) -> bool {
    exists|j: int, n: SelectedName|
        parsed_selected_name(t, i, j, n) && open_constraint_window(t, j)
}

/// Parse a subtype indication: an optional resolution indication, a type
/// mark, and an optional constraint. A selected name followed by another
/// identifier is read as a resolution function name; otherwise it starts
/// the type mark itself. On a bare, uncontinued selected name success is
/// owed.
pub fn parse_subtype_indication(stream: &mut TokenStream) -> (r: Result<
    SubtypeIndication,
    ParseError,
>)
    requires
        old(stream).wf(),
    ensures
        final(stream).wf(),
        final(stream).toks() == old(stream).toks(),
        old(stream).at() <= final(stream).at(),
        r matches Err(e) ==> e.expected@.len() >= 1,
        r matches Ok(s) ==> parsed_subtype_indication(
            old(stream).toks(),
            old(stream).at(),
            final(stream).at(),
            s,
        ) && old(stream).at() < final(stream).at(),
        r matches Ok(s) ==> (s.constraint is None ==> (final(stream).at() == final(stream).toks().len()
            || (final(stream).toks()[final(stream).at()].kind != Kind::KwRange
            && final(stream).toks()[final(stream).at()].kind != Kind::LeftPar))),
        (old(stream).at() == old(stream).toks().len() || (old(stream).toks()[old(stream).at()].kind
            != Kind::Identifier && old(stream).toks()[old(stream).at()].kind != Kind::LeftPar))
            ==> r is Err,
        plain_indication_at(old(stream).toks(), old(stream).at()) ==> r is Ok,
        (lone_name_window(old(stream).toks(), old(stream).at()) && plain_indication_at(
            old(stream).toks(),
            old(stream).at() + 3,
        )) ==> r is Ok,
        (elem_name_window(old(stream).toks(), old(stream).at()) && plain_indication_at(
            old(stream).toks(),
            old(stream).at() + 4,
        )) ==> r is Ok,
        (old(stream).at() < old(stream).toks().len() && old(stream).toks()[old(stream).at()].kind
            == Kind::Identifier && plain_indication_at(old(stream).toks(), old(stream).at() + 1))
            ==> r is Ok,
        open_indication_at(old(stream).toks(), old(stream).at()) ==> r is Ok,
        array_indication_at(old(stream).toks(), old(stream).at()) ==> r is Ok,
        attr_indication_at(old(stream).toks(), old(stream).at()) ==> r is Ok,
        r matches Ok(s) ==> (s.constraint matches Some(c) && constraint_suffix_checked(c)
            ==> (final(stream).at() == final(stream).toks().len()
            || (final(stream).toks()[final(stream).at()].kind != Kind::KwRange
            && final(stream).toks()[final(stream).at()].kind != Kind::LeftPar))),
        r matches Ok(s) ==> ((s.constraint is None && !s.type_mark.subtype_attr)
            ==> (final(stream).at() == final(stream).toks().len()
            || final(stream).toks()[final(stream).at()].kind != Kind::Tick)),
{
    let ghost t = old(stream).toks();
    let ghost i = old(stream).at();
    let ghost mut gm1: int = 0int;
    let is_par = match stream.peek_kind() {
        Some(Kind::LeftPar) => true,
        _ => false,
    };
    let resolution: ResolutionIndication;
    let type_mark;
    if is_par {
        proof {
            assert forall|j: int, n: SelectedName|
                !(parsed_selected_name(t, i, j, n) && plain_follow(t, j)) by {
                if parsed_selected_name(t, i, j, n) {
                    assert(parsed_ident(t, i, n.parts@[0]));
                    assert(false);
                }
            }
            assert(!plain_indication_at(t, i));
            if open_indication_at(t, i) {
                let (j, n) = choose|j: int, n: SelectedName|
                    parsed_selected_name(t, i, j, n) && open_constraint_window(t, j);
                assert(parsed_ident(t, i, n.parts@[0]));
                assert(false);
            }
            assert(!open_indication_at(t, i));
            if array_indication_at(t, i) {
                let (j, n) = choose|j: int, n: SelectedName|
                    parsed_selected_name(t, i, j, n) && simple_array_window(t, j);
                assert(parsed_ident(t, i, n.parts@[0]));
                assert(false);
            }
            assert(!array_indication_at(t, i));
            if attr_indication_at(t, i) {
                let (j, n) = choose|j: int, n: SelectedName|
                    parsed_selected_name(t, i, j, n) && j + 1 < t.len() && t[j].kind == Kind::Tick
                        && t[j + 1].kind == Kind::KwSubtype && plain_follow(t, j + 2);
                assert(parsed_ident(t, i, n.parts@[0]));
                assert(false);
            }
            assert(!attr_indication_at(t, i));
        }
        resolution = match parse_element_resolution_indication(stream) {
            Ok(res) => res,
            Err(e) => {
                return Err(e);
            },
        };
        proof {
            gm1 = stream.at();
            assert(parsed_element_resolution(t, i, gm1, resolution));
            lemma_parsed_element_resolution_len(t, i, gm1, resolution);
            assert(gm1 == i + resolution_len(resolution));
        }
        type_mark = match parse_type_mark(stream) {
            Ok(m) => m,
            Err(e) => {
                proof {
                    if lone_name_window(t, i) && plain_indication_at(t, i + 3) {
                        let i3 = i + 3;
                        let (j, n) = choose|j: int, n: SelectedName|
                            parsed_selected_name(t, i3, j, n) && plain_follow(t, j);
                        let m = TypeMark { name: n, subtype_attr: false, pos: n.pos };
                        assert(parsed_type_mark(t, i + 3, j, m));
                        assert(crate::names::type_mark_parse_exists(t, gm1));
                        assert(false);
                    }
                    if elem_name_window(t, i) && plain_indication_at(t, i + 4) {
                        let i4 = i + 4;
                        let (j, n) = choose|j: int, n: SelectedName|
                            parsed_selected_name(t, i4, j, n) && plain_follow(t, j);
                        let m = TypeMark { name: n, subtype_attr: false, pos: n.pos };
                        assert(parsed_type_mark(t, i + 4, j, m));
                        assert(crate::names::type_mark_parse_exists(t, gm1));
                        assert(false);
                    }
                }
                return Err(e);
            },
        };
        proof {
            assert(parsed_type_mark(t, gm1, stream.at(), type_mark));
        }
    } else {
        let selected_name = match parse_selected_name(stream) {
            Ok(n) => n,
            Err(e) => {
                proof {
                    if plain_indication_at(t, i) {
                        let (j, n) = choose|j: int, n: SelectedName|
                            parsed_selected_name(t, i, j, n) && plain_follow(t, j);
                        assert(crate::names::name_parse_exists(t, i));
                        assert(false);
                    }
                    if i < t.len() && t[i].kind == Kind::Identifier && plain_indication_at(
                        t,
                        i + 1,
                    ) {
                        let i1 = i + 1;
                        let (j, n) = choose|j: int, n: SelectedName|
                            parsed_selected_name(t, i1, j, n) && plain_follow(t, j);
                        assert(parsed_ident(t, i + 1, n.parts@[0]));
                        assert(false);
                    }
                    if open_indication_at(t, i) {
                        let (j, n) = choose|j: int, n: SelectedName|
                            parsed_selected_name(t, i, j, n) && open_constraint_window(t, j);
                        assert(crate::names::name_parse_exists(t, i));
                        assert(false);
                    }
                    if attr_indication_at(t, i) {
                        let (j, n) = choose|j: int, n: SelectedName|
                            parsed_selected_name(t, i, j, n) && j + 1 < t.len() && t[j].kind
                                == Kind::Tick && t[j + 1].kind == Kind::KwSubtype && plain_follow(
                                t,
                                j + 2,
                            );
                        assert(crate::names::name_parse_exists(t, i));
                        assert(false);
                    }
                    if array_indication_at(t, i) {
                        let (j, n) = choose|j: int, n: SelectedName|
                            parsed_selected_name(t, i, j, n) && simple_array_window(t, j);
                        assert(crate::names::name_parse_exists(t, i));
                        assert(false);
                    }
                }
                return Err(e);
            },
        };
        let ghost sn = selected_name;
        let ghost e = stream.at();
        let next_is_ident = match stream.peek_kind() {
            Some(Kind::Identifier) => true,
            _ => false,
        };
        if next_is_ident {
            proof {
                if plain_indication_at(t, i) {
                    let (j, n) = choose|j: int, n: SelectedName|
                        parsed_selected_name(t, i, j, n) && plain_follow(t, j);
                    lemma_name_parse_unique(t, i, j, n, e, sn);
                    assert(false);
                }
                assert(!plain_indication_at(t, i));
                if open_indication_at(t, i) {
                    let (j, n) = choose|j: int, n: SelectedName|
                        parsed_selected_name(t, i, j, n) && open_constraint_window(t, j);
                    lemma_name_parse_unique(t, i, j, n, e, sn);
                    assert(false);
                }
                assert(!open_indication_at(t, i));
                if attr_indication_at(t, i) {
                    let (j, n) = choose|j: int, n: SelectedName|
                        parsed_selected_name(t, i, j, n) && j + 1 < t.len() && t[j].kind
                            == Kind::Tick && t[j + 1].kind == Kind::KwSubtype && plain_follow(
                            t,
                            j + 2,
                        );
                    lemma_name_parse_unique(t, i, j, n, e, sn);
                    assert(false);
                }
                assert(!attr_indication_at(t, i));
                if array_indication_at(t, i) {
                    let (j, n) = choose|j: int, n: SelectedName|
                        parsed_selected_name(t, i, j, n) && simple_array_window(t, j);
                    lemma_name_parse_unique(t, i, j, n, e, sn);
                    assert(false);
                }
                assert(!array_indication_at(t, i));
            }
            resolution = ResolutionIndication::FunctionName(selected_name);
            proof {
                gm1 = stream.at();
                assert(parsed_selected_name(t, i, gm1, resolution->FunctionName_0));
                assert(gm1 == i + resolution_len(resolution));
            }
            type_mark = match parse_type_mark(stream) {
                Ok(m) => m,
                Err(e2) => {
                    proof {
                        if i < t.len() && t[i].kind == Kind::Identifier && plain_indication_at(
                            t,
                            i + 1,
                        ) {
                            let i1 = i + 1;
                            let (j, n) = choose|j: int, n: SelectedName|
                                parsed_selected_name(t, i1, j, n) && plain_follow(t, j);
                            assert(parsed_ident(t, i + 1, n.parts@[0]));
                            if sn.parts@.len() >= 2 {
                                assert(parsed_ident(t, i, sn.parts@[0]));
                                assert(t[i + 1].kind == Kind::Dot);
                                assert(false);
                            }
                            assert(gm1 == i + 1);
                            let m = TypeMark { name: n, subtype_attr: false, pos: n.pos };
                            assert(parsed_type_mark(t, i + 1, j, m));
                            assert(crate::names::type_mark_parse_exists(t, gm1));
                            assert(false);
                        }
                    }
                    return Err(e2);
                },
            };
            proof {
                assert(parsed_type_mark(t, gm1, stream.at(), type_mark));
                assert(sel_end(gm1, type_mark.name) == t.len() || t[sel_end(
                    gm1,
                    type_mark.name,
                )].kind != Kind::Dot);
            }
        } else {
            resolution = ResolutionIndication::Unresolved;
            type_mark = match parse_type_mark_starting_with_name(stream, selected_name) {
                Ok(m) => m,
                Err(e2) => {
                    proof {
                        if plain_indication_at(t, i) {
                            let (j, n) = choose|j: int, n: SelectedName|
                                parsed_selected_name(t, i, j, n) && plain_follow(t, j);
                            lemma_name_parse_unique(t, i, j, n, e, sn);
                            assert(t[e].kind == Kind::Tick);
                            assert(false);
                        }
                        if i < t.len() && t[i].kind == Kind::Identifier && plain_indication_at(
                            t,
                            i + 1,
                        ) {
                            let i1 = i + 1;
                            let (j, n) = choose|j: int, n: SelectedName|
                                parsed_selected_name(t, i1, j, n) && plain_follow(t, j);
                            assert(parsed_ident(t, i + 1, n.parts@[0]));
                            if sn.parts@.len() >= 2 {
                                assert(parsed_ident(t, i, sn.parts@[0]));
                                assert(t[i + 1].kind == Kind::Dot);
                                assert(false);
                            }
                            assert(e == i + 1);
                            assert(t[e].kind == Kind::Tick);
                            assert(false);
                        }
                        if open_indication_at(t, i) {
                            let (j, n) = choose|j: int, n: SelectedName|
                                parsed_selected_name(t, i, j, n) && open_constraint_window(t, j);
                            lemma_name_parse_unique(t, i, j, n, e, sn);
                            assert(t[e].kind == Kind::Tick);
                            assert(false);
                        }
                        if attr_indication_at(t, i) {
                            let (j, n) = choose|j: int, n: SelectedName|
                                parsed_selected_name(t, i, j, n) && j + 1 < t.len() && t[j].kind
                                    == Kind::Tick && t[j + 1].kind == Kind::KwSubtype
                                    && plain_follow(t, j + 2);
                            lemma_name_parse_unique(t, i, j, n, e, sn);
                            assert(t[e + 1].kind == Kind::KwSubtype);
                            assert(false);
                        }
                        if array_indication_at(t, i) {
                            let (j, n) = choose|j: int, n: SelectedName|
                                parsed_selected_name(t, i, j, n) && simple_array_window(t, j);
                            lemma_name_parse_unique(t, i, j, n, e, sn);
                            assert(t[e].kind == Kind::Tick);
                            assert(false);
                        }
                    }
                    return Err(e2);
                },
            };
            proof {
                gm1 = i;
                assert(gm1 == i + resolution_len(resolution));
                assert(type_mark.name.parts@ == sn.parts@ && type_mark.name.pos == sn.pos);
                assert(crate::grammar::parsed_name_parts(t, i, type_mark.name.parts@));
                assert(parsed_selected_name(t, i, e, type_mark.name));
                assert(sel_end(i, type_mark.name) == e);
                assert(e >= t.len() || t[e].kind != Kind::Identifier);
                assert(e >= t.len() || t[e].kind != Kind::Dot);
                assert(parsed_type_mark(t, gm1, stream.at(), type_mark));
            }
        }
    }
    let ghost m2 = stream.at();
    let constraint = match parse_subtype_constraint(stream) {
        Ok(c) => c,
        Err(e3) => {
            proof {
                if lone_name_window(t, i) && plain_indication_at(t, i + 3) {
                    let i3 = i + 3;
                    let (j, n) = choose|j: int, n: SelectedName|
                        parsed_selected_name(t, i3, j, n) && plain_follow(t, j);
                    assert(gm1 == i + 3);
                    let e2 = sel_end(i + 3, type_mark.name);
                    assert(parsed_selected_name(t, i + 3, e2, type_mark.name));
                    lemma_name_parse_unique(t, i + 3, j, n, e2, type_mark.name);
                    if type_mark.subtype_attr {
                        assert(t[e2].kind == Kind::Tick);
                        assert(false);
                    }
                    assert(m2 == e2);
                    assert(false);
                }
                if elem_name_window(t, i) && plain_indication_at(t, i + 4) {
                    let i4 = i + 4;
                    let (j, n) = choose|j: int, n: SelectedName|
                        parsed_selected_name(t, i4, j, n) && plain_follow(t, j);
                    assert(gm1 == i + 4);
                    let e2 = sel_end(i + 4, type_mark.name);
                    assert(parsed_selected_name(t, i + 4, e2, type_mark.name));
                    lemma_name_parse_unique(t, i + 4, j, n, e2, type_mark.name);
                    if type_mark.subtype_attr {
                        assert(t[e2].kind == Kind::Tick);
                        assert(false);
                    }
                    assert(m2 == e2);
                    assert(false);
                }
                if i < t.len() && t[i].kind == Kind::Identifier && plain_indication_at(t, i + 1) {
                    let i1 = i + 1;
                    let (j, n) = choose|j: int, n: SelectedName|
                        parsed_selected_name(t, i1, j, n) && plain_follow(t, j);
                    assert(parsed_ident(t, i + 1, n.parts@[0]));
                    if resolution is Unresolved {
                        let e2 = sel_end(i, type_mark.name);
                        if type_mark.name.parts@.len() >= 2 {
                            assert(parsed_ident(t, i, type_mark.name.parts@[0]));
                            assert(t[i + 1].kind == Kind::Dot);
                            assert(false);
                        }
                        assert(e2 == i + 1);
                        assert(t[e2].kind != Kind::Identifier);
                        assert(false);
                    } else if resolution is FunctionName {
                        let rn = resolution->FunctionName_0;
                        assert(parsed_selected_name(t, i, gm1, rn));
                        if rn.parts@.len() >= 2 {
                            assert(parsed_ident(t, i, rn.parts@[0]));
                            assert(t[i + 1].kind == Kind::Dot);
                            assert(false);
                        }
                        assert(gm1 == i + 1);
                        let e2 = sel_end(i + 1, type_mark.name);
                        assert(parsed_selected_name(t, i + 1, e2, type_mark.name));
                        lemma_name_parse_unique(t, i + 1, j, n, e2, type_mark.name);
                        if type_mark.subtype_attr {
                            assert(t[e2].kind == Kind::Tick);
                            assert(false);
                        }
                        assert(m2 == e2);
                        assert(false);
                    } else {
                        assert(parsed_element_resolution(t, i, gm1, resolution));
                        assert(false);
                    }
                }
                if attr_indication_at(t, i) {
                    let (j, n) = choose|j: int, n: SelectedName|
                        parsed_selected_name(t, i, j, n) && j + 1 < t.len() && t[j].kind
                            == Kind::Tick && t[j + 1].kind == Kind::KwSubtype && plain_follow(
                            t,
                            j + 2,
                        );
                    assert(parsed_ident(t, i, n.parts@[0]));
                    if resolution is Unresolved {
                        let e2 = sel_end(i, type_mark.name);
                        assert(parsed_selected_name(t, i, e2, type_mark.name));
                        lemma_name_parse_unique(t, i, j, n, e2, type_mark.name);
                        if !type_mark.subtype_attr {
                            assert(t[e2].kind != Kind::Tick);
                            assert(false);
                        }
                        assert(m2 == e2 + 2);
                        assert(false);
                    } else {
                        assert(false);
                    }
                }
                if array_indication_at(t, i) {
                    let (j, n) = choose|j: int, n: SelectedName|
                        parsed_selected_name(t, i, j, n) && simple_array_window(t, j);
                    assert(parsed_ident(t, i, n.parts@[0]));
                    if resolution is Unresolved {
                        let e2 = sel_end(i, type_mark.name);
                        assert(parsed_selected_name(t, i, e2, type_mark.name));
                        lemma_name_parse_unique(t, i, j, n, e2, type_mark.name);
                        if type_mark.subtype_attr {
                            assert(t[e2].kind == Kind::Tick);
                            assert(false);
                        }
                        assert(m2 == e2);
                        assert(false);
                    } else {
                        assert(false);
                    }
                }
                if open_indication_at(t, i) {
                    let (j, n) = choose|j: int, n: SelectedName|
                        parsed_selected_name(t, i, j, n) && open_constraint_window(t, j);
                    assert(parsed_ident(t, i, n.parts@[0]));
                    if resolution is Unresolved {
                        let e2 = sel_end(i, type_mark.name);
                        assert(parsed_selected_name(t, i, e2, type_mark.name));
                        lemma_name_parse_unique(t, i, j, n, e2, type_mark.name);
                        if type_mark.subtype_attr {
                            assert(t[e2].kind == Kind::Tick);
                            assert(false);
                        }
                        assert(m2 == e2);
                        assert(false);
                    } else if resolution is FunctionName {
                        let rn = resolution->FunctionName_0;
                        assert(parsed_selected_name(t, i, gm1, rn));
                        assert(parsed_ident(t, gm1, type_mark.name.parts@[0]));
                        lemma_name_parse_unique(t, i, j, n, gm1, rn);
                        assert(false);
                    } else {
                        assert(parsed_element_resolution(t, i, gm1, resolution));
                        assert(false);
                    }
                }
                if plain_indication_at(t, i) {
                    let (j, n) = choose|j: int, n: SelectedName|
                        parsed_selected_name(t, i, j, n) && plain_follow(t, j);
                    assert(parsed_ident(t, i, n.parts@[0]));
                    // With an identifier at the cursor only the two
                    // name-first readings are live, and the premise was
                    // refuted on the resolution-function one.
                    if resolution is Unresolved {
                        let e2 = sel_end(i, type_mark.name);
                        lemma_name_parse_unique(t, i, j, n, e2, type_mark.name);
                        if type_mark.subtype_attr {
                            assert(t[e2].kind == Kind::Tick);
                            assert(false);
                        }
                        assert(m2 == e2);
                        assert(m2 < t.len() && (t[m2].kind == Kind::KwRange || t[m2].kind
                            == Kind::LeftPar));
                        assert(false);
                    } else {
                        assert(false);
                    }
                }
            }
            return Err(e3);
        },
    };
    let s = SubtypeIndication { resolution, type_mark, constraint };
    proof {
        assert(parsed_type_mark(t, gm1, m2, s.type_mark));
        if s.constraint is Some {
            let c = s.constraint->Some_0;
            assert(parsed_constraint(t, m2, stream.at(), c));
            lemma_parsed_constraint_len(t, m2, stream.at(), c);
        } else {
            assert(stream.at() == m2);
        }
        assert(parsed_subtype_indication(t, i, stream.at(), s));
    }
    Ok(s)
}

} // verus!
