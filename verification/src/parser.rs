//! The parser: a cursor over the tokens, the expectations registered at the
//! current position, and the errors that failed expectations raise.

use crate::diagnostics::{Diag, DiagCtxt, PErr, PResult, result_view};
use crate::expected::ExpectedToken;
use crate::report::{mismatch_diag, mismatch_error, one_of_diag, one_of_error};
use crate::session::ParseSess;
use crate::span::Span;
use crate::state::{distinct_places, lemma_checked_any, lemma_initial_places, ParserState};
use crate::symbol::Symbol;
use crate::token::{Token, TokenKind};
use vstd::prelude::*;

verus! {

/// The parser.
pub struct Parser<'a> {
    /// The session.
    pub sess: &'a ParseSess,
    /// The current token.
    pub token: Token,
    /// The previous token.
    pub prev_token: Token,
    /// What the probes since the last advance would have accepted.
    expected_tokens: Vec<ExpectedToken>,
    /// The place of the token for which an unexpected-token error was raised
    /// last.
    last_unexpected_token_span: Option<Span>,
    /// Whether the parser is inside an assembly block.
    in_yul: bool,
    /// Whether the parser is inside a contract body.
    in_contract: bool,
    /// The unread tokens, the next one last.
    tokens: Vec<Token>,
    /// The diagnostics emitted so far.
    dcx: DiagCtxt,
}

/// The tokens of a stack in the order in which they will be read.
pub open spec fn unread(stack: Seq<Token>) -> Seq<Token> {
    Seq::new(stack.len(), |i: int| stack[stack.len() - 1 - i])
}

/// Whether none of the tokens is a comment.
pub open spec fn no_comments(tokens: Seq<Token>) -> bool {
    forall|i: int| 0 <= i < tokens.len() ==> !(#[trigger] tokens[i]).spec_is_comment()
}

impl<'a> View for Parser<'a> {
    type V = ParserState;

    closed spec fn view(&self) -> ParserState {
        ParserState {
            sess: *self.sess,
            token: self.token,
            prev_token: self.prev_token,
            rest: unread(self.tokens@),
            expected: self.expected_tokens@,
            last_unexpected: self.last_unexpected_token_span,
            in_yul: self.in_yul,
            in_contract: self.in_contract,
            emitted: self.dcx@,
        }
    }
}

/// Whether the parse function `f` can hand back `t`.
pub open spec fn is_element_of<'a, T, F: Fn(&mut Parser<'a>) -> PResult<T>>(f: F, t: T) -> bool {
    exists|p: &mut Parser<'a>| #[trigger] call_ensures(f, (p,), Ok::<T, Diag>(t))
}

/// Whether the list holds the kind.
pub fn contains_kind(list: &[TokenKind], kind: &TokenKind) -> (r: bool)
    ensures
        r == list@.contains(*kind),
{
    let mut i: usize = 0;
    while i < list.len()
        invariant
            i <= list@.len(),
            forall|j: int| 0 <= j < i ==> list@[j] != *kind,
        decreases list@.len() - i,
    {
        if list[i] == *kind {
            return true;
        }
        i = i + 1;
    }
    false
}

impl<'a> Parser<'a> {
    /// Creates a parser that stands on the first of the tokens.
    pub fn new(sess: &'a ParseSess, tokens: Vec<Token>) -> (parser: Parser<'a>)
        requires
            no_comments(tokens@),
        ensures
            parser@ == ParserState::initial(*sess, tokens@).bumped(),
            parser@.prev_token == Token::spec_dummy(),
            tokens@.len() > 0 ==> parser@.token == tokens@[0],
            tokens@.len() == 0 ==> parser@.token == Token::spec_eof(),
            distinct_places(tokens@) ==> parser@.places_differ(),
    {
        proof {
            if distinct_places(tokens@) {
                lemma_initial_places(*sess, tokens@);
            }
        }
        let mut source = tokens;
        let mut stack: Vec<Token> = Vec::new();
        while source.len() > 0
            invariant
                source@.len() <= tokens@.len(),
                source@ == tokens@.take(source@.len() as int),
                stack@.len() == tokens@.len() - source@.len(),
                forall|i: int|
                    0 <= i < stack@.len() ==> #[trigger] stack@[i] == tokens@[tokens@.len() - 1
                        - i],
            decreases source@.len(),
        {
            let token = source.pop().unwrap();
            stack.push(token);
        }
        assert(unread(stack@) =~= tokens@);
        let mut parser = Parser {
            sess,
            token: Token::dummy(),
            prev_token: Token::dummy(),
            expected_tokens: Vec::new(),
            last_unexpected_token_span: None,
            in_yul: false,
            in_contract: false,
            tokens: stack,
            dcx: DiagCtxt::new(),
        };
        assert(parser@ == ParserState::initial(*sess, tokens@));
        parser.bump();
        parser
    }

    /// The diagnostic context: what was emitted so far.
    pub fn dcx(&self) -> (dcx: &DiagCtxt)
        ensures
            dcx@ == self@.emitted,
    {
        &self.dcx
    }

    /// Hands the parser's diagnostics to the caller.
    pub fn into_dcx(self) -> (dcx: DiagCtxt)
        ensures
            dcx@ == self@.emitted,
    {
        self.dcx
    }

    /// The session.
    pub fn sess(&self) -> (sess: &'a ParseSess)
        ensures
            *sess == self@.sess,
    {
        self.sess
    }

    /// The current token.
    pub fn token(&self) -> (token: Token)
        ensures
            token == self@.token,
    {
        self.token
    }

    /// The previous token.
    pub fn prev_token(&self) -> (token: Token)
        ensures
            token == self@.prev_token,
    {
        self.prev_token
    }

    /// Emits a diagnostic: the user will see it.
    pub fn emit(&mut self, diag: Diag)
        ensures
            final(self)@ == old(self)@.emitting(diag@),
    {
        self.dcx.emit(diag);
    }

    /// Whether the parser is inside an assembly block.
    pub fn is_in_yul(&self) -> (r: bool)
        ensures
            r == self@.in_yul,
    {
        self.in_yul
    }

    /// Whether the parser is inside a contract body.
    pub fn is_in_contract(&self) -> (r: bool)
        ensures
            r == self@.in_contract,
    {
        self.in_contract
    }

    /// What the probes since the last advance would have accepted.
    pub fn expected_tokens(&self) -> (list: &Vec<ExpectedToken>)
        ensures
            list@ == self@.expected,
    {
        &self.expected_tokens
    }

    /// Whether the current token, which is not the end of the input, stands
    /// at the place for which an unexpected-token error was raised last.
    pub fn at_reported_token(&self) -> (r: bool)
        ensures
            r == self@.at_reported_token(),
    {
        match self.last_unexpected_token_span {
            Some(span) => !self.token.is_eof() && span == self.token.span,
            None => false,
        }
    }

    /// Advances the parser by one token.
    pub fn bump(&mut self)
        ensures
            final(self)@ == old(self)@.bumped(),
            final(self)@.expected.len() == 0,
            final(self)@.prev_token == old(self)@.token,
    {
        let ghost before = self.tokens@;
        let mut next = match self.tokens.pop() {
            Some(token) => token,
            None => Token::eof(),
        };
        if next.span.is_dummy() {
            next.span = self.token.span;
        }
        proof {
            if before.len() > 0 {
                assert(unread(before)[0] == before[before.len() - 1]);
                assert(unread(self.tokens@) =~= unread(before).drop_first());
            } else {
                assert(unread(self.tokens@) =~= unread(before));
            }
        }
        self.inlined_bump_with(next);
    }

    /// Advances the parser onto the given token, which is not taken from the
    /// unread ones.
    pub fn bump_with(&mut self, next: Token)
        ensures
            final(self)@ == old(self)@.advanced_to(next),
    {
        self.inlined_bump_with(next);
    }

    #[inline(always)]
    fn inlined_bump_with(&mut self, next_token: Token)
        ensures
            final(self)@ == old(self)@.advanced_to(next_token),
            final(self).tokens == old(self).tokens,
            final(self).sess == old(self).sess,
            final(self).prev_token == old(self).token,
    {
        self.prev_token = self.token;
        self.token = next_token;
        self.expected_tokens.clear();
    }

    /// Returns the token `dist` tokens ahead of the current one: the current
    /// one for 0, the end-of-input token past the last one.
    pub fn look_ahead(&self, dist: usize) -> (token: Token)
        ensures
            token == self@.look_ahead(dist as int),
            dist == 0 ==> token == self@.token,
            dist > self@.rest.len() ==> token == Token::spec_eof(),
    {
        if dist == 0 {
            self.token
        } else if dist <= self.tokens.len() {
            self.tokens[self.tokens.len() - dist]
        } else {
            Token::eof()
        }
    }

    /// Calls `f` with the token `dist` tokens ahead of the current one.
    pub fn look_ahead_with<R>(&self, dist: usize, f: impl FnOnce(&Token) -> R) -> (r: R)
        requires
            call_requires(f, (&self@.look_ahead(dist as int),)),
        ensures
            call_ensures(f, (&self@.look_ahead(dist as int),), r),
    {
        let token = self.look_ahead(dist);
        f(&token)
    }

    /// Whether the current token is `tok`; nothing is registered.
    pub fn check_noexpect(&self, tok: &TokenKind) -> (r: bool)
        ensures
            r == (self@.token.kind == *tok),
    {
        self.token.kind == *tok
    }

    /// Whether the current token is `tok`. A miss registers `tok` as
    /// expected.
    pub fn check(&mut self, tok: &TokenKind) -> (r: bool)
        ensures
            r == (old(self)@.token.kind == *tok),
            final(self)@ == old(self)@.checked(*tok),
    {
        let is_present = self.check_noexpect(tok);
        if !is_present {
            self.expected_tokens.push(ExpectedToken::Token(*tok));
        }
        is_present
    }

    /// Reads the token `tok` if it is the current one, and says whether it
    /// was; nothing is registered.
    pub fn eat_noexpect(&mut self, tok: &TokenKind) -> (r: bool)
        ensures
            r == (old(self)@.token.kind == *tok),
            final(self)@ == (if r {
                old(self)@.bumped()
            } else {
                old(self)@
            }),
    {
        let is_present = self.check_noexpect(tok);
        if is_present {
            self.bump()
        }
        is_present
    }

    /// Reads the token `tok` if it is the current one, and says whether it
    /// was. A miss registers `tok` as expected.
    pub fn eat(&mut self, tok: &TokenKind) -> (r: bool)
        ensures
            r == (old(self)@.token.kind == *tok),
            final(self)@ == old(self)@.eaten(*tok),
            r ==> final(self)@.expected.len() == 0,
    {
        let is_present = self.check(tok);
        if is_present {
            self.bump()
        }
        is_present
    }

    /// Whether the current token is the keyword `kw`. A miss registers `kw`
    /// as expected.
    pub fn check_keyword(&mut self, kw: Symbol) -> (r: bool)
        ensures
            r == old(self)@.token.spec_is_keyword(kw),
            final(self)@ == old(self)@.checked_or(r, ExpectedToken::Keyword(kw)),
    {
        let is_present = self.token.is_keyword(kw);
        if !is_present {
            self.expected_tokens.push(ExpectedToken::Keyword(kw));
        }
        is_present
    }

    /// Reads the keyword `kw` if it is the current token, and says whether it
    /// was. A miss registers `kw` as expected.
    pub fn eat_keyword(&mut self, kw: Symbol) -> (r: bool)
        ensures
            r == old(self)@.token.spec_is_keyword(kw),
            final(self)@ == old(self)@.eaten_keyword(kw),
            r ==> final(self)@.expected.len() == 0,
    {
        if self.check_keyword(kw) {
            self.bump();
            true
        } else {
            false
        }
    }

    /// Registers `t` as expected unless `ok`, and hands `ok` back.
    pub fn check_or_expected(&mut self, ok: bool, t: ExpectedToken) -> (r: bool)
        ensures
            r == ok,
            final(self)@ == old(self)@.checked_or(ok, t),
    {
        if !ok {
            self.expected_tokens.push(t);
        }
        ok
    }

    /// Whether the current token is an identifier, reserved or not.
    pub fn check_ident(&mut self) -> (r: bool)
        ensures
            r == old(self)@.token.spec_is_ident(),
            final(self)@ == old(self)@.checked_or(r, ExpectedToken::Ident),
    {
        let ok = self.token.is_ident();
        self.check_or_expected(ok, ExpectedToken::Ident)
    }

    /// Whether the current token is an identifier that is not reserved here.
    pub fn check_any_ident(&mut self) -> (r: bool)
        ensures
            r == old(self)@.token.spec_is_non_reserved_ident(
                old(self)@.symbols(),
                old(self)@.in_yul,
            ),
            final(self)@ == old(self)@.checked_or(r, ExpectedToken::Ident),
    {
        let ok = self.token.is_non_reserved_ident(&self.sess.symbols, self.in_yul);
        self.check_or_expected(ok, ExpectedToken::Ident)
    }

    /// Whether a path can start at the current token.
    pub fn check_path(&mut self) -> (r: bool)
        ensures
            r == old(self)@.token.spec_is_ident(),
            final(self)@ == old(self)@.checked_or(r, ExpectedToken::Path),
    {
        let ok = self.token.is_ident();
        self.check_or_expected(ok, ExpectedToken::Path)
    }

    /// Whether the current token is a literal.
    pub fn check_lit(&mut self) -> (r: bool)
        ensures
            r == old(self)@.token.spec_is_lit(),
            final(self)@ == old(self)@.checked_or(r, ExpectedToken::Lit),
    {
        let ok = self.token.is_lit();
        self.check_or_expected(ok, ExpectedToken::Lit)
    }

    /// Whether the current token is a string literal.
    pub fn check_str_lit(&mut self) -> (r: bool)
        ensures
            r == old(self)@.token.spec_is_str_lit(),
            final(self)@ == old(self)@.checked_or(r, ExpectedToken::StrLit),
    {
        let ok = self.token.is_str_lit();
        self.check_or_expected(ok, ExpectedToken::StrLit)
    }

    /// Whether the current token names an elementary type.
    pub fn check_elementary_type(&mut self) -> (r: bool)
        ensures
            r == old(self)@.token.spec_is_elementary_type(old(self)@.symbols()),
            final(self)@ == old(self)@.checked_or(r, ExpectedToken::ElementaryType),
    {
        let ok = self.token.is_elementary_type(&self.sess.symbols);
        self.check_or_expected(ok, ExpectedToken::ElementaryType)
    }

    /// Whether the current token is one of `kets`. Each of them that was
    /// tried in vain is registered as expected.
    pub fn expect_any(&mut self, kets: &[TokenKind]) -> (r: bool)
        ensures
            r == kets@.contains(old(self)@.token.kind),
            final(self)@ == old(self)@.checked_any(kets@),
    {
        let mut i: usize = 0;
        assert(kets@.skip(0) =~= kets@);
        while i < kets.len()
            invariant
                i <= kets@.len(),
                self@.checked_any(kets@.skip(i as int)) == old(self)@.checked_any(kets@),
                self@.token == old(self)@.token,
                forall|j: int| 0 <= j < i ==> kets@[j] != self@.token.kind,
            decreases kets@.len() - i,
        {
            proof {
                assert(kets@.skip(i as int).drop_first() =~= kets@.skip(i + 1));
                assert(kets@.skip(i as int)[0] == kets@[i as int]);
            }
            if self.check(&kets[i]) {
                return true;
            }
            i = i + 1;
        }
        assert(kets@.skip(i as int) =~= Seq::<TokenKind>::empty());
        false
    }

    /// Builds the error for the expected token `t` that was not found. The
    /// parser does not change.
    pub fn unexpected_error_with(&self, t: &TokenKind) -> (err: PErr)
        ensures
            err@ == mismatch_diag(self@.sess, self@.prev_token, self@.token, *t),
    {
        mismatch_error(self.sess, &self.prev_token, &self.token, t)
    }

    /// Raises the error for a token that is none of what was expected, and
    /// records that it was raised for the current token.
    pub fn expected_one_of_not_found(&mut self, edible: &[TokenKind], inedible: &[TokenKind]) -> (r:
        PResult<bool>)
        ensures
            r is Err,
            r->Err_0@ == one_of_diag(
                old(self)@.sess,
                old(self)@.prev_token,
                old(self)@.token,
                edible@,
                inedible@,
                old(self)@.expected,
            ),
            final(self)@ == old(self)@.reported(),
    {
        let err = one_of_error(
            self.sess,
            &self.prev_token,
            &self.token,
            edible,
            inedible,
            &self.expected_tokens,
        );
        self.last_unexpected_token_span = Some(self.token.span);
        Err(err)
    }

    /// Expects the current token to be one of two sets: a token of `edible`
    /// is read, one of `inedible` is left where it is, and any other is an
    /// error.
    ///
    /// A second unexpected-token error at the place of the last one is a
    /// fault of the caller, who can test for it with
    /// [`Parser::at_reported_token`].
    pub fn expect_one_of(&mut self, edible: &[TokenKind], inedible: &[TokenKind]) -> (r: PResult<
        bool,
    >)
        requires
            old(self)@.may_expect_one_of(edible@, inedible@),
        ensures
            (result_view(r), final(self)@) == old(self)@.expect_one_of(edible@, inedible@),
    {
        if contains_kind(edible, &self.token.kind) {
            self.bump();
            Ok(false)
        } else if contains_kind(inedible, &self.token.kind) {
            Ok(false)
        } else {
            self.expected_one_of_not_found(edible, inedible)
        }
    }

    /// Expects the token `tok` and reads it; any other token is an error.
    pub fn expect(&mut self, tok: &TokenKind) -> (r: PResult<bool>)
        requires
            old(self)@.may_expect(*tok),
        ensures
            (result_view(r), final(self)@) == old(self)@.expect(*tok),
    {
        if self.expected_tokens.len() == 0 {
            if self.check_noexpect(tok) {
                self.bump();
                Ok(false)
            } else {
                Err(self.unexpected_error_with(tok))
            }
        } else {
            let edible = vec![*tok];
            let inedible: Vec<TokenKind> = Vec::new();
            assert(edible@ =~= seq![*tok]);
            assert(edible@.contains(*tok) <==> true) by {
                assert(edible@[0] == *tok);
            }
            assert(inedible@ =~= Seq::<TokenKind>::empty());
            assert(seq![*tok].contains(self@.token.kind) <==> self@.token.kind == *tok) by {
                if self@.token.kind == *tok {
                    assert(seq![*tok][0] == *tok);
                }
            }
            self.expect_one_of(edible.as_slice(), inedible.as_slice())
        }
    }

    /// Expects a semicolon and reads it.
    pub fn expect_semi(&mut self) -> (r: PResult<()>)
        requires
            old(self)@.may_expect(TokenKind::Semi),
        ensures
            r is Ok <==> old(self)@.expect(TokenKind::Semi).0 is Ok,
            r is Err ==> Err::<bool, _>(r->Err_0@) == old(self)@.expect(TokenKind::Semi).0,
            final(self)@ == old(self)@.expect(TokenKind::Semi).1,
    {
        match self.expect(&TokenKind::Semi) {
            Ok(_) => Ok(()),
            Err(e) => Err(e),
        }
    }

    /// Raises the error for the current token where nothing more specific
    /// can be said than what the probes have registered.
    pub fn unexpected_error(&mut self) -> (err: PErr)
        requires
            !old(self)@.at_reported_token(),
        ensures
            err@ == one_of_diag(
                old(self)@.sess,
                old(self)@.prev_token,
                old(self)@.token,
                Seq::empty(),
                Seq::empty(),
                old(self)@.expected,
            ),
            final(self)@ == old(self)@.reported(),
    {
        let none: Vec<TokenKind> = Vec::new();
        assert(none@ =~= Seq::<TokenKind>::empty());
        match self.expected_one_of_not_found(none.as_slice(), none.as_slice()) {
            Ok(_) => {
                proof {
                    assert(false);
                }
                Diag::error(String::new())
            },
            Err(e) => e,
        }
    }

    /// Fails with the error for the current token.
    pub fn unexpected<T>(&mut self) -> (r: PResult<T>)
        requires
            !old(self)@.at_reported_token(),
        ensures
            r is Err,
            r->Err_0@ == one_of_diag(
                old(self)@.sess,
                old(self)@.prev_token,
                old(self)@.token,
                Seq::empty(),
                Seq::empty(),
                old(self)@.expected,
            ),
            final(self)@ == old(self)@.reported(),
    {
        Err(self.unexpected_error())
    }

    /// Expects the keyword `kw` and reads it; any other token is an error
    /// that names `kw` among what was expected.
    pub fn expect_keyword(&mut self, kw: Symbol) -> (r: PResult<()>)
        requires
            old(self)@.token.spec_is_keyword(kw) || !old(self)@.at_reported_token(),
        ensures
            old(self)@.token.spec_is_keyword(kw) ==> r is Ok && final(self)@ == old(
                self,
            )@.bumped(),
            !old(self)@.token.spec_is_keyword(kw) ==> r is Err && r->Err_0@ == one_of_diag(
                old(self)@.sess,
                old(self)@.prev_token,
                old(self)@.token,
                Seq::empty(),
                Seq::empty(),
                old(self)@.expected.push(ExpectedToken::Keyword(kw)),
            ) && final(self)@ == old(self)@.expecting(ExpectedToken::Keyword(kw)).reported(),
    {
        if !self.eat_keyword(kw) {
            self.unexpected()
        } else {
            Ok(())
        }
    }

    /// Runs `f` with the parser inside a contract body. The flag is set for
    /// the call and put back to what it was when `f` returns, whatever `f`
    /// returns.
    pub fn in_contract<R>(&mut self, f: impl FnOnce(&mut Self) -> R) -> (r: R)
        requires
            forall|p: &mut Parser<'a>|
                p@ == old(self)@.with_contract(true) ==> #[trigger] call_requires(f, (p,)),
        ensures
            final(self)@.in_contract == old(self)@.in_contract,
            exists|p: &mut Parser<'a>|
                p@ == old(self)@.with_contract(true) && call_ensures(f, (p,), r) && final(self)@
                    == final(p)@.with_contract(old(self)@.in_contract),
    {
        let prior = self.in_contract;
        self.in_contract = true;
        assert(self@ == old(self)@.with_contract(true));
        let res = f(self);
        self.in_contract = prior;
        res
    }

    /// Runs `f` with the parser inside an assembly block. The flag is set
    /// for the call and put back to what it was when `f` returns, whatever
    /// `f` returns.
    pub fn in_yul<R>(&mut self, f: impl FnOnce(&mut Self) -> R) -> (r: R)
        requires
            forall|p: &mut Parser<'a>|
                p@ == old(self)@.with_yul(true) ==> #[trigger] call_requires(f, (p,)),
        ensures
            final(self)@.in_yul == old(self)@.in_yul,
            exists|p: &mut Parser<'a>|
                p@ == old(self)@.with_yul(true) && call_ensures(f, (p,), r) && final(self)@
                    == final(p)@.with_yul(old(self)@.in_yul),
    {
        let prior = self.in_yul;
        self.in_yul = true;
        assert(self@ == old(self)@.with_yul(true));
        let res = f(self);
        self.in_yul = prior;
        res
    }
}

} // verus!
