//! Sub-parsers for dotted selected names and type marks.
use crate::ast::{Ident, SelectedName, TypeMark};
use crate::grammar::{
    lemma_name_parse_unique, parsed_selected_name, parsed_type_mark, sel_end,
};
use crate::tokens::{Kind, ParseError, TokenStream};
use vstd::prelude::*;

verus! {

/// There is a parse of a selected name at `i` that is not followed by a
/// dot: the one the greedy parser is owed to find.
pub open spec fn name_parse_exists(t: Seq<crate::tokens::Token>, i: int) -> bool {
    exists|j: int, n: SelectedName|
        parsed_selected_name(t, i, j, n) && (j == t.len() || t[j].kind != Kind::Dot)
}

/// There is a parse of a type mark at `i` after which the name could not
/// be continued (no dot) and no attribute is left unread (no tick).
pub open spec fn type_mark_parse_exists(t: Seq<crate::tokens::Token>, i: int) -> bool {
    exists|j: int, m: TypeMark|
        parsed_type_mark(t, i, j, m) && (j == t.len() || (t[j].kind != Kind::Dot && t[j].kind
            != Kind::Tick))
}

/// A dotted identifier run stands at `p`: an identifier, and after every
/// dot another identifier with the run going on. Acceptance is owed.
pub open spec fn name_run_window(t: Seq<crate::tokens::Token>, p: int) -> bool
    decreases t.len() - p,
{
    &&& 0 <= p < t.len()
    &&& t[p].kind == Kind::Identifier
    &&& ((p + 1 < t.len() && t[p + 1].kind == Kind::Dot) ==> (p + 2 < t.len() && t[p + 2].kind
        == Kind::Identifier && name_run_window(t, p + 2)))
}

/// Where the dotted identifier run starting at `p` ends (exclusive).
pub open spec fn name_run_end(t: Seq<crate::tokens::Token>, p: int) -> int
    decreases t.len() - p,
{
    if p + 1 < t.len() && t[p + 1].kind == Kind::Dot {
        name_run_end(t, p + 2)
    } else {
        p + 1
    }
}

/// Parse a dotted qualified name: `ident (. ident)*`. It fails exactly
/// when no dot-complete selected name stands at the cursor.
#[verifier::loop_isolation(false)]
pub fn parse_selected_name(stream: &mut TokenStream) -> (r: Result<SelectedName, ParseError>)
    requires
        old(stream).wf(),
    ensures
        final(stream).wf(),
        final(stream).toks() == old(stream).toks(),
        old(stream).at() <= final(stream).at(),
        r matches Err(e) ==> e.expected@.len() >= 1,
        r is Ok ==> old(stream).at() < final(stream).at(),
        r matches Ok(n) ==> parsed_selected_name(
            old(stream).toks(),
            old(stream).at(),
            final(stream).at(),
            n,
        ),
        r matches Ok(n) ==> (final(stream).at() == final(stream).toks().len()
            || final(stream).toks()[final(stream).at()].kind != Kind::Dot),
        (old(stream).at() == old(stream).toks().len() || old(stream).toks()[old(stream).at()].kind
            != Kind::Identifier) ==> r is Err,
        r is Err ==> !name_parse_exists(old(stream).toks(), old(stream).at()),
        (old(stream).at() < old(stream).toks().len() && old(stream).toks()[old(stream).at()].kind
            == Kind::Identifier && (old(stream).at() + 1 == old(stream).toks().len() || old(
            stream,
        ).toks()[old(stream).at() + 1].kind != Kind::Dot)) ==> r is Ok,
        name_run_window(old(stream).toks(), old(stream).at()) ==> (r is Ok
            && final(stream).at() == name_run_end(old(stream).toks(), old(stream).at())),
    {
    let ghost t = old(stream).toks();
    let ghost i0 = old(stream).at();
    let first = match stream.expect_ident() {
        Ok(id) => id,
        Err(e) => {
            proof {
                assert forall|j: int, n: SelectedName|
                    !(parsed_selected_name(t, i0, j, n) && (j == t.len() || t[j].kind
                        != Kind::Dot)) by {
                    if parsed_selected_name(t, i0, j, n) {
                        assert(crate::grammar::parsed_ident(t, i0, n.parts@[0]));
                        assert(false);
                    }
                }
            }
            return Err(e);
        },
    };
    let mut parts: Vec<Ident> = Vec::new();
    parts.push(first);
    let mut last = first;
    while stream.skip_if_kind(Kind::Dot)
        invariant
            stream.wf(),
            stream.toks() == t,
            parts@.len() >= 1,
            stream.at() == i0 + 2 * parts@.len() - 1,
            parts@[0] == first,
            parts@[parts@.len() - 1] == last,
            crate::grammar::parsed_name_parts(t, i0, parts@),
            name_run_window(t, i0) ==> {
                &&& name_run_window(t, stream.at() - 1)
                &&& name_run_end(t, stream.at() - 1) == name_run_end(t, i0)
            },
        decreases t.len() - stream.at(),
    {
        let ghost old_parts = parts@;
        let id = match stream.expect_ident() {
            Ok(id) => id,
            Err(e) => {
                proof {
                    let ll = old_parts.len() as int;
                    assert forall|j: int, n: SelectedName|
                        !(parsed_selected_name(t, i0, j, n) && (j == t.len() || t[j].kind
                            != Kind::Dot)) by {
                        if parsed_selected_name(t, i0, j, n) {
                            let k = n.parts@.len() as int;
                            if k > ll {
                                assert(crate::grammar::parsed_ident(t, i0 + 2 * ll, n.parts@[ll]));
                                assert(false);
                            } else {
                                if k < ll {
                                    assert(crate::grammar::parsed_ident(
                                        t,
                                        i0 + 2 * k,
                                        old_parts[k],
                                    ));
                                    assert(crate::grammar::parsed_ident(
                                        t,
                                        i0 + 2 * (k - 1),
                                        old_parts[k - 1],
                                    ));
                                    assert(t[i0 + 2 * (k - 1) + 1].kind == Kind::Dot);
                                } else {
                                    assert(t[i0 + 2 * ll - 1].kind == Kind::Dot);
                                }
                                assert(j < t.len());
                                assert(t[j].kind == Kind::Dot);
                            }
                        }
                    }
                }
                return Err(e);
            },
        };
        parts.push(id);
        last = id;
        proof {
            assert forall|m: int| 0 <= m < parts@.len() implies {
                &&& crate::grammar::parsed_ident(t, i0 + 2 * m, #[trigger] parts@[m])
                &&& (m < parts@.len() - 1 ==> t[i0 + 2 * m + 1].kind == Kind::Dot)
            } by {
                if m < old_parts.len() {
                    assert(parts@[m] == old_parts[m]);
                    if m == old_parts.len() - 1 {
                        assert(t[i0 + 2 * m + 1].kind == Kind::Dot);
                    }
                } else {
                    assert(parts@[m] == id);
                    assert(crate::grammar::parsed_ident(t, i0 + 2 * m, id));
                }
            }
            assert(crate::grammar::parsed_name_parts(t, i0, parts@));
        }
    }
    let pos = first.pos.combine(last.pos);
    let n = SelectedName { parts, pos };
    proof {
        assert(n.parts@[0] == first);
        assert(n.parts@[n.parts@.len() - 1] == last);
    }
    Ok(n)
}

/// Finish parsing a type mark whose selected name has already been
/// consumed: accept an optional `'subtype` attribute suffix. It fails
/// exactly when a tick stands at the cursor without `subtype` after it.
pub fn parse_type_mark_starting_with_name(stream: &mut TokenStream, name: SelectedName) -> (r:
    Result<TypeMark, ParseError>)
    requires
        old(stream).wf(),
    ensures
        final(stream).wf(),
        final(stream).toks() == old(stream).toks(),
        old(stream).at() <= final(stream).at(),
        r matches Err(e) ==> e.expected@.len() >= 1,
        r is Err <==> (old(stream).at() < old(stream).toks().len() && old(stream).toks()[old(
            stream,
        ).at()].kind == Kind::Tick && !(old(stream).at() + 1 < old(stream).toks().len() && old(
            stream,
        ).toks()[old(stream).at() + 1].kind == Kind::KwSubtype)),
        r matches Ok(m) ==> {
            &&& m.name.parts@ == name.parts@
            &&& m.name.pos == name.pos
            &&& if m.subtype_attr {
                &&& old(stream).at() + 1 < old(stream).toks().len()
                &&& old(stream).toks()[old(stream).at()].kind == Kind::Tick
                &&& old(stream).toks()[old(stream).at() + 1].kind == Kind::KwSubtype
                &&& final(stream).at() == old(stream).at() + 2
                &&& m.pos == name.pos.combine_spec(
                    old(stream).toks()[old(stream).at() + 1].pos,
                )
            } else {
                &&& final(stream).at() == old(stream).at()
                &&& m.pos == name.pos
                &&& (old(stream).at() == old(stream).toks().len()
                    || old(stream).toks()[old(stream).at()].kind != Kind::Tick)
            }
        },
    {
    if stream.skip_if_kind(Kind::Tick) {
        let ti = stream.expect_kind(Kind::KwSubtype)?;
        let attr_pos = stream.get_pos(ti);
        let pos = name.pos.combine(attr_pos);
        Ok(TypeMark { name, subtype_attr: true, pos })
    } else {
        let pos = name.pos;
        Ok(TypeMark { name, subtype_attr: false, pos })
    }
}

/// Parse a type mark: a selected name, optionally with `'subtype`. It
/// fails exactly when no complete type mark stands at the cursor.
pub fn parse_type_mark(stream: &mut TokenStream) -> (r: Result<TypeMark, ParseError>)
    requires
        old(stream).wf(),
    ensures
        final(stream).wf(),
        final(stream).toks() == old(stream).toks(),
        old(stream).at() <= final(stream).at(),
        r matches Err(e) ==> e.expected@.len() >= 1,
        r is Ok ==> old(stream).at() < final(stream).at(),
        r matches Ok(m) ==> parsed_type_mark(
            old(stream).toks(),
            old(stream).at(),
            final(stream).at(),
            m,
        ),
        r is Err ==> !type_mark_parse_exists(old(stream).toks(), old(stream).at()),
        r matches Ok(m) ==> (sel_end(old(stream).at(), m.name) == old(stream).toks().len()
            || old(stream).toks()[sel_end(old(stream).at(), m.name)].kind != Kind::Dot),
        r matches Ok(m) ==> (!m.subtype_attr ==> final(stream).at() == sel_end(
            old(stream).at(),
            m.name,
        )),
        r matches Ok(m) ==> (!m.subtype_attr ==> (final(stream).at() == final(stream).toks().len()
            || final(stream).toks()[final(stream).at()].kind != Kind::Tick)),
    {
    let ghost t = old(stream).toks();
    let ghost i0 = old(stream).at();
    let name = match parse_selected_name(stream) {
        Ok(n) => n,
        Err(e) => {
            proof {
                assert forall|j: int, m: TypeMark|
                    !(parsed_type_mark(t, i0, j, m) && (j == t.len() || (t[j].kind != Kind::Dot
                        && t[j].kind != Kind::Tick))) by {
                    if parsed_type_mark(t, i0, j, m) && (j == t.len() || (t[j].kind != Kind::Dot
                        && t[j].kind != Kind::Tick)) {
                        let e2 = sel_end(i0, m.name);
                        if m.subtype_attr {
                            assert(parsed_selected_name(t, i0, e2, m.name) && (e2 == t.len()
                                || t[e2].kind != Kind::Dot));
                        } else {
                            assert(parsed_selected_name(t, i0, j, m.name) && (j == t.len()
                                || t[j].kind != Kind::Dot));
                        }
                        assert(name_parse_exists(t, i0));
                        assert(false);
                    }
                }
            }
            return Err(e);
        },
    };
    let ghost sn = name;
    let ghost e0 = stream.at();
    let m = match parse_type_mark_starting_with_name(stream, name) {
        Ok(m) => m,
        Err(e) => {
            proof {
                // The cursor stands on a tick with no `subtype` after it.
                assert(t[e0].kind == Kind::Tick);
                assert forall|j: int, m2: TypeMark|
                    !(parsed_type_mark(t, i0, j, m2) && (j == t.len() || (t[j].kind != Kind::Dot
                        && t[j].kind != Kind::Tick))) by {
                    if parsed_type_mark(t, i0, j, m2) && (j == t.len() || (t[j].kind != Kind::Dot
                        && t[j].kind != Kind::Tick))  {
                        let e2 = sel_end(i0, m2.name);
                        if m2.subtype_attr {
                            lemma_name_parse_unique(t, i0, e2, m2.name, e0, sn);
                            assert(t[e0 + 1].kind == Kind::KwSubtype);
                            assert(false);
                        } else {
                            lemma_name_parse_unique(t, i0, j, m2.name, e0, sn);
                            assert(t[j].kind == Kind::Tick);
                            assert(false);
                        }
                    }
                }
            }
            return Err(e);
        },
    };
    proof {
        assert(parsed_selected_name(t, i0, e0, m.name));
        assert(e0 == sel_end(i0, m.name));
    }
    Ok(m)
}

} // verus!
