//! The token stream adapter: a peekable, position-marking, speculatively
//! rewindable cursor over a fixed token vector.
use vstd::prelude::*;

verus! {

/// A source span: byte offsets into the analyzed text, `start <= end`.
#[derive(Clone, Copy, Debug, PartialEq, Eq, Structural)]
pub struct Span {
    pub start: usize,
    pub end: usize,
}

impl Span {
    /// Two spans of the same source combine to the minimum start and maximum end.
    pub open spec fn combine_spec(self, other: Span) -> Span {
        Span {
            start: if self.start <= other.start {
                self.start
            } else {
                other.start
            },
            end: if self.end >= other.end {
                self.end
            } else {
                other.end
            },
        }
    }

    /// Whether `other` lies inside `self`.
    pub open spec fn contains_spec(self, other: Span) -> bool {
        self.start <= other.start && other.end <= self.end
    }

    pub fn combine(self, other: Span) -> (r: Span)
        ensures
            r == self.combine_spec(other),
    {
        Span {
            start: if self.start <= other.start {
                self.start
            } else {
                other.start
            },
            end: if self.end >= other.end {
                self.end
            } else {
                other.end
            },
        }
    }
}

/// The token kinds the subtype-indication grammar and its sub-grammars use.
#[derive(Clone, Copy, Debug, PartialEq, Eq, Structural)]
pub enum Kind {
    LeftPar,
    RightPar,
    Comma,
    Dot,
    Tick,
    Plus,
    Minus,
    KwTo,
    KwDownto,
    KwRange,
    KwOpen,
    KwSubtype,
    Identifier,
    Number,
}

/// An immutable token. `value` is the interned symbol for `Identifier`
/// tokens, the numeric value for `Number` tokens, and zero otherwise.
#[derive(Clone, Copy, Debug, PartialEq, Eq, Structural)]
pub struct Token {
    pub kind: Kind,
    pub value: u64,
    pub pos: Span,
}

/// A parse failure: the offending position and the kinds that were expected
/// there, optionally scoped to a parsing phase.
#[derive(Debug)]
pub struct ParseError {
    pub pos: Span,
    pub expected: Vec<Kind>,
    pub context: Option<&'static str>,
}

/// A cursor over a fixed token vector. Snapshot and restore copy the index
/// alone, so speculation is O(1) and has no side effect besides the index.
pub struct TokenStream {
    pub tokens: Vec<Token>,
    pub idx: usize,
}

impl TokenStream {
    /// The token sequence the stream walks.
    pub open spec fn toks(self) -> Seq<Token> {
        self.tokens@
    }

    /// The cursor.
    pub open spec fn at(self) -> int {
        self.idx as int
    }

    /// The cursor never passes the end of the vector.
    pub open spec fn wf(self) -> bool {
        self.idx <= self.tokens@.len()
    }

    /// The position a failure at the current cursor reports: the current
    /// token's span, or the last token's at the end of the input.
    pub open spec fn err_pos_spec(self) -> Span {
        if self.at() < self.toks().len() {
            self.toks()[self.at()].pos
        } else if self.toks().len() > 0 {
            self.toks()[self.toks().len() - 1].pos
        } else {
            Span { start: 0, end: 0 }
        }
    }

    pub fn new(tokens: Vec<Token>) -> (s: Self)
        ensures
            s.toks() == tokens@,
            s.at() == 0,
            s.wf(),
    {
        TokenStream { tokens, idx: 0 }
    }

    /// The position reported for a failure at the current cursor: the current
    /// token's span, or an empty span at the very end of the input.
    fn err_pos(&self) -> (r: Span)
        requires
            self.wf(),
        ensures
            r == self.err_pos_spec(),
    {
        if self.idx < self.tokens.len() {
            self.tokens[self.idx].pos
        } else if self.tokens.len() > 0 {
            self.tokens[self.tokens.len() - 1].pos
        } else {
            Span { start: 0, end: 0 }
        }
    }

    pub fn peek(&self) -> (r: Option<Token>)
        requires
            self.wf(),
        ensures
            r == if self.at() < self.toks().len() {
                Some(self.toks()[self.at()])
            } else {
                None::<Token>
            },
    {
        if self.idx < self.tokens.len() {
            Some(self.tokens[self.idx])
        } else {
            None
        }
    }

    pub fn peek_kind(&self) -> (r: Option<Kind>)
        requires
            self.wf(),
        ensures
            r == if self.at() < self.toks().len() {
                Some(self.toks()[self.at()].kind)
            } else {
                None::<Kind>
            },
    {
        if self.idx < self.tokens.len() {
            Some(self.tokens[self.idx].kind)
        } else {
            None
        }
    }

    /// Advance over the current token.
    pub fn skip(&mut self)
        requires
            old(self).wf(),
            old(self).at() < old(self).toks().len(),
        ensures
            final(self).wf(),
            final(self).toks() == old(self).toks(),
            final(self).at() == old(self).at() + 1,
    {
        let n = self.tokens.len();
        assert(self.idx < n);
        self.idx = self.idx + 1;
    }

    /// Advance iff the current token has the given kind.
    pub fn skip_if_kind(&mut self, kind: Kind) -> (r: bool)
        requires
            old(self).wf(),
        ensures
            final(self).wf(),
            final(self).toks() == old(self).toks(),
            r == (old(self).at() < old(self).toks().len() && old(self).toks()[old(self).at()].kind
                == kind),
            final(self).at() == if r {
                old(self).at() + 1
            } else {
                old(self).at()
            },
    {
        if self.idx < self.tokens.len() && self.tokens[self.idx].kind == kind {
            self.idx = self.idx + 1;
            true
        } else {
            false
        }
    }

    /// Advance over a token of the given kind and return its index, or fail
    /// without advancing.
    pub fn expect_kind(&mut self, kind: Kind) -> (r: Result<usize, ParseError>)
        requires
            old(self).wf(),
        ensures
            final(self).wf(),
            final(self).toks() == old(self).toks(),
            r is Ok <==> (old(self).at() < old(self).toks().len() && old(self).toks()[old(
                self,
            ).at()].kind == kind),
            r matches Ok(i) ==> i == old(self).at() && final(self).at() == old(self).at() + 1,
            r is Err ==> final(self).at() == old(self).at(),
            r matches Err(e) ==> {
                &&& e.pos == old(self).err_pos_spec()
                &&& e.expected@.len() == 1
                &&& e.expected@[0] == kind
                &&& e.context is None
            },
    {
        if self.idx < self.tokens.len() && self.tokens[self.idx].kind == kind {
            let i = self.idx;
            self.idx = self.idx + 1;
            Ok(i)
        } else {
            let pos = self.err_pos();
            let mut expected: Vec<Kind> = Vec::new();
            expected.push(kind);
            Err(ParseError { pos, expected, context: None })
        }
    }

    /// Advance over an identifier token and return it as an `Ident`, or fail
    /// without advancing.
    pub fn expect_ident(&mut self) -> (r: Result<crate::ast::Ident, ParseError>)
        requires
            old(self).wf(),
        ensures
            final(self).wf(),
            final(self).toks() == old(self).toks(),
            r is Ok <==> (old(self).at() < old(self).toks().len() && old(self).toks()[old(
                self,
            ).at()].kind == Kind::Identifier),
            r matches Ok(id) ==> {
                &&& id.sym == old(self).toks()[old(self).at()].value
                &&& id.pos == old(self).toks()[old(self).at()].pos
                &&& final(self).at() == old(self).at() + 1
            },
            r is Err ==> final(self).at() == old(self).at(),
            r matches Err(e) ==> {
                &&& e.pos == old(self).err_pos_spec()
                &&& e.expected@.len() == 1
                &&& e.expected@[0] == Kind::Identifier
                &&& e.context is None
            },
    {
        if self.idx < self.tokens.len() && self.tokens[self.idx].kind == Kind::Identifier {
            let tok = self.tokens[self.idx];
            self.idx = self.idx + 1;
            Ok(crate::ast::Ident { sym: tok.value, pos: tok.pos })
        } else {
            let pos = self.err_pos();
            let mut expected: Vec<Kind> = Vec::new();
            expected.push(Kind::Identifier);
            Err(ParseError { pos, expected, context: None })
        }
    }

    /// Snapshot the stream state.
    pub fn state(&self) -> (r: usize)
        ensures
            r == self.at(),
    {
        self.idx
    }

    /// Restore the stream to an earlier snapshot.
    pub fn set_state(&mut self, s: usize)
        requires
            old(self).wf(),
            s <= old(self).toks().len(),
        ensures
            final(self).wf(),
            final(self).toks() == old(self).toks(),
            final(self).at() == s,
    {
        self.idx = s;
    }

    /// The span of the token at a given index.
    pub fn get_pos(&self, i: usize) -> (r: Span)
        requires
            i < self.toks().len(),
        ensures
            r == self.toks()[i as int].pos,
    {
        self.tokens[i].pos
    }
}

} // verus!
