//! The parser as a mathematical value, and what each step does to it.

use crate::diagnostics::DiagView;
use crate::expected::ExpectedToken;
use crate::report::{mismatch_diag, one_of_diag};
use crate::session::ParseSess;
use crate::span::Span;
use crate::symbol::SymbolInfo;
use crate::token::{Token, TokenKind};
use vstd::prelude::*;

verus! {

/// Everything that a parser holds.
pub struct ParserState {
    /// The session that the parser reads.
    pub sess: ParseSess,
    /// The current token.
    pub token: Token,
    /// The token that was current before the last advance.
    pub prev_token: Token,
    /// The tokens that were not read yet, in reading order.
    pub rest: Seq<Token>,
    /// What the probes since the last advance would have accepted.
    pub expected: Seq<ExpectedToken>,
    /// The place of the token for which an unexpected-token error was raised
    /// last.
    pub last_unexpected: Option<Span>,
    /// Whether the parser is inside an assembly block.
    pub in_yul: bool,
    /// Whether the parser is inside a contract body.
    pub in_contract: bool,
    /// The diagnostics emitted so far, in order.
    pub emitted: Seq<DiagView>,
}

impl ParserState {
    /// A parser that has read nothing of `tokens` yet.
    pub open spec fn initial(sess: ParseSess, tokens: Seq<Token>) -> ParserState {
        ParserState {
            sess,
            token: Token::spec_dummy(),
            prev_token: Token::spec_dummy(),
            rest: tokens,
            expected: Seq::empty(),
            last_unexpected: None,
            in_yul: false,
            in_contract: false,
            emitted: Seq::empty(),
        }
    }

    /// The symbols of the session.
    pub open spec fn symbols(self) -> Seq<SymbolInfo> {
        self.sess.symbols@
    }

    /// The token that the next advance makes current: the first unread one,
    /// or the end-of-input token; where it has no place of its own it takes
    /// that of the current token.
    pub open spec fn next_token(self) -> Token {
        let next = if self.rest.len() > 0 {
            self.rest[0]
        } else {
            Token::spec_eof()
        };
        if next.span.spec_is_dummy() {
            Token { kind: next.kind, span: self.token.span }
        } else {
            next
        }
    }

    /// The state after an advance onto `next` that reads nothing: the current
    /// token becomes the previous one, and the expectations registered for
    /// the old position are forgotten.
    pub open spec fn advanced_to(self, next: Token) -> ParserState {
        ParserState { token: next, prev_token: self.token, expected: Seq::empty(), ..self }
    }

    /// The state after an advance by one token.
    pub open spec fn bumped(self) -> ParserState {
        ParserState {
            rest: if self.rest.len() > 0 {
                self.rest.drop_first()
            } else {
                self.rest
            },
            ..self.advanced_to(self.next_token())
        }
    }

    /// How many tokens are left, the current one included; the end of the
    /// input does not count.
    pub open spec fn remaining(self) -> nat {
        if self.token.kind is Eof {
            self.rest.len()
        } else {
            self.rest.len() + 1
        }
    }

    /// The token `dist` tokens ahead of the current one.
    pub open spec fn look_ahead(self, dist: int) -> Token {
        if dist <= 0 {
            self.token
        } else if dist - 1 < self.rest.len() {
            self.rest[dist - 1]
        } else {
            Token::spec_eof()
        }
    }

    /// The state with one more expectation registered.
    pub open spec fn expecting(self, e: ExpectedToken) -> ParserState {
        ParserState { expected: self.expected.push(e), ..self }
    }

    /// The state after a probe for `kind`: a miss is registered.
    pub open spec fn checked(self, kind: TokenKind) -> ParserState {
        if self.token.kind == kind {
            self
        } else {
            self.expecting(ExpectedToken::Token(kind))
        }
    }

    /// The state after a probe for a category that the current token belongs
    /// to if `ok`: a miss is registered.
    pub open spec fn checked_or(self, ok: bool, e: ExpectedToken) -> ParserState {
        if ok {
            self
        } else {
            self.expecting(e)
        }
    }

    /// The state after a probe for each of `kinds` in turn, up to the first
    /// that the current token matches.
    pub open spec fn checked_any(self, kinds: Seq<TokenKind>) -> ParserState
        decreases kinds.len(),
    {
        if kinds.len() == 0 {
            self
        } else if self.token.kind == kinds[0] {
            self
        } else {
            self.checked(kinds[0]).checked_any(kinds.drop_first())
        }
    }

    /// The state after the diagnostic `d` was emitted.
    pub open spec fn emitting(self, d: DiagView) -> ParserState {
        ParserState { emitted: self.emitted.push(d), ..self }
    }

    /// Whether the current token, which is not the end of the input, stands
    /// at the place for which an unexpected-token error was raised last.
    pub open spec fn at_reported_token(self) -> bool {
        !(self.token.kind is Eof) && self.last_unexpected == Some(self.token.span)
    }

    /// Whether no place stands twice among the tokens ahead: the unread
    /// tokens have places of their own, which differ from one another, from
    /// that of the current token and from the place for which an
    /// unexpected-token error was raised last. It is so for tokens that a
    /// lexer has read from a text, before and after each step of a parser
    /// that only reads them; there no error is raised twice at one place.
    pub open spec fn places_differ(self) -> bool {
        &&& forall|i: int|
            0 <= i < self.rest.len() ==> !(#[trigger] self.rest[i]).span.spec_is_dummy()
        &&& forall|i: int|
            0 <= i < self.rest.len() ==> (#[trigger] self.rest[i]).span != self.token.span
        &&& forall|i: int, j: int|
            0 <= i < j < self.rest.len() ==> (#[trigger] self.rest[i]).span != (
            #[trigger] self.rest[j]).span
        &&& forall|i: int|
            0 <= i < self.rest.len() ==> self.last_unexpected != Some(
                (#[trigger] self.rest[i]).span,
            )
    }

    /// The state after an unexpected-token error was raised for the current
    /// token.
    pub open spec fn reported(self) -> ParserState {
        ParserState { last_unexpected: Some(self.token.span), ..self }
    }

    /// Whether an expectation of one of two sets may be tested here: the
    /// current token is in one of them, or no unexpected-token error was
    /// raised for it yet.
    pub open spec fn may_expect_one_of(self, edible: Seq<TokenKind>, inedible: Seq<TokenKind>) -> bool {
        edible.contains(self.token.kind) || inedible.contains(self.token.kind)
            || !self.at_reported_token()
    }

    /// What the expectation of one of two sets comes to: a token of the
    /// first set is read, one of the second is left where it is, and any
    /// other is an error that is recorded as raised for it.
    pub open spec fn expect_one_of(self, edible: Seq<TokenKind>, inedible: Seq<TokenKind>) -> (
        Result<bool, DiagView>,
        ParserState,
    ) {
        if edible.contains(self.token.kind) {
            (Ok(false), self.bumped())
        } else if inedible.contains(self.token.kind) {
            (Ok(false), self)
        } else {
            (
                Err(
                    one_of_diag(
                        self.sess,
                        self.prev_token,
                        self.token,
                        edible,
                        inedible,
                        self.expected,
                    ),
                ),
                self.reported(),
            )
        }
    }

    /// Whether the token `kind` may be expected here: nothing was registered
    /// since the last advance, the current token is of that kind, or no
    /// unexpected-token error was raised for it yet.
    pub open spec fn may_expect(self, kind: TokenKind) -> bool {
        self.expected.len() == 0 || self.token.kind == kind || !self.at_reported_token()
    }

    /// What the expectation of the token `kind` comes to: the token is read,
    /// or an error says what was expected; where probes have registered
    /// expectations since the last advance, the error names them too.
    pub open spec fn expect(self, kind: TokenKind) -> (Result<bool, DiagView>, ParserState) {
        if self.expected.len() == 0 {
            if self.token.kind == kind {
                (Ok(false), self.bumped())
            } else {
                (Err(mismatch_diag(self.sess, self.prev_token, self.token, kind)), self)
            }
        } else {
            self.expect_one_of(seq![kind], Seq::empty())
        }
    }

    /// The state after the keyword `kw` was looked for and, if found, read;
    /// a miss is registered.
    pub open spec fn eaten_keyword(self, kw: crate::symbol::Symbol) -> ParserState {
        if self.token.spec_is_keyword(kw) {
            self.bumped()
        } else {
            self.expecting(ExpectedToken::Keyword(kw))
        }
    }

    /// The state after the token `kind` was looked for and, if found, read.
    pub open spec fn eaten(self, kind: TokenKind) -> ParserState {
        if self.token.kind == kind {
            self.bumped()
        } else {
            self.expecting(ExpectedToken::Token(kind))
        }
    }

    /// The state with the assembly flag set to `yul`.
    pub open spec fn with_yul(self, yul: bool) -> ParserState {
        ParserState { in_yul: yul, ..self }
    }

    /// The state with the contract flag set to `contract`.
    pub open spec fn with_contract(self, contract: bool) -> ParserState {
        ParserState { in_contract: contract, ..self }
    }
}

/// Whether the tokens have places of their own that differ from one
/// another.
pub open spec fn distinct_places(tokens: Seq<Token>) -> bool {
    &&& forall|i: int| 0 <= i < tokens.len() ==> !(#[trigger] tokens[i]).span.spec_is_dummy()
    &&& forall|i: int, j: int|
        0 <= i < j < tokens.len() ==> (#[trigger] tokens[i]).span != (#[trigger] tokens[j]).span
}

/// A parser over tokens with places of their own that differ stands, after
/// its first advance, where no place stands twice among the tokens ahead.
pub proof fn lemma_initial_places(sess: ParseSess, tokens: Seq<Token>)
    requires
        distinct_places(tokens),
    ensures
        ParserState::initial(sess, tokens).places_differ(),
        ParserState::initial(sess, tokens).bumped().places_differ(),
{
    let s = ParserState::initial(sess, tokens);
    assert(s.places_differ());
    lemma_places_differ(s);
}

/// The steps of a parser that only reads what is ahead keep the places
/// apart: an advance, a probe, an error raised for the current token, a
/// diagnostic emitted, a flag set. After an advance the parser does not
/// stand at the place of the last unexpected-token error.
pub proof fn lemma_places_differ(s: ParserState)
    requires
        s.places_differ(),
    ensures
        s.bumped().places_differ(),
        !s.bumped().at_reported_token(),
        s.reported().places_differ(),
        forall|e: ExpectedToken| (#[trigger] s.expecting(e)).places_differ(),
        forall|kind: TokenKind| (#[trigger] s.checked(kind)).places_differ(),
        forall|kinds: Seq<TokenKind>| (#[trigger] s.checked_any(kinds)).places_differ(),
        forall|d: DiagView| (#[trigger] s.emitting(d)).places_differ(),
        forall|yul: bool| (#[trigger] s.with_yul(yul)).places_differ(),
        forall|contract: bool| (#[trigger] s.with_contract(contract)).places_differ(),
{
    let b = s.bumped();
    if s.rest.len() > 0 {
        assert(s.rest[0].span != s.token.span);
        assert(b.token == s.rest[0]);
        assert forall|i: int| 0 <= i < b.rest.len() implies {
            &&& !(#[trigger] b.rest[i]).span.spec_is_dummy()
            &&& b.rest[i].span != b.token.span
            &&& b.last_unexpected != Some(b.rest[i].span)
        } by {
            assert(b.rest[i] == s.rest[i + 1]);
        }
        assert forall|i: int, j: int| 0 <= i < j < b.rest.len() implies (#[trigger] b.rest[i]).span
            != (#[trigger] b.rest[j]).span by {
            assert(b.rest[i] == s.rest[i + 1]);
            assert(b.rest[j] == s.rest[j + 1]);
        }
        assert(s.last_unexpected != Some(s.rest[0].span));
    }
    assert forall|kinds: Seq<TokenKind>| (#[trigger] s.checked_any(kinds)).places_differ() by {
        lemma_checked_any(s, kinds);
    }
}

/// An advance never adds to what is left, and takes one away unless the
/// parser stands at the end of the input.
pub proof fn lemma_bumped_remaining(s: ParserState)
    ensures
        s.bumped().remaining() <= s.remaining(),
        !(s.token.kind is Eof) ==> s.bumped().remaining() < s.remaining(),
        s.bumped().expected == Seq::<ExpectedToken>::empty(),
        s.bumped().last_unexpected == s.last_unexpected,
{
}

/// A probe for a list of kinds finds one exactly if the list holds the
/// current kind, and changes nothing but what is registered.
pub proof fn lemma_checked_any(s: ParserState, kinds: Seq<TokenKind>)
    ensures
        s.checked_any(kinds) == (ParserState { expected: s.checked_any(kinds).expected, ..s }),
        s.expected.len() <= s.checked_any(kinds).expected.len(),
        !kinds.contains(s.token.kind) ==> s.checked_any(kinds).expected.len() == s.expected.len()
            + kinds.len(),
    decreases kinds.len(),
{
    if kinds.len() > 0 && s.token.kind != kinds[0] {
        let rest = kinds.drop_first();
        lemma_checked_any(s.checked(kinds[0]), rest);
        if !kinds.contains(s.token.kind) {
            if rest.len() > 0 {
                assert forall|i: int| 0 <= i < rest.len() implies rest[i] != s.token.kind by {
                    assert(rest[i] == kinds[i + 1]);
                    assert(kinds.contains(kinds[i + 1]));
                }
            }
        }
    }
}

} // verus!
