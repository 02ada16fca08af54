//! Identifiers and dotted paths.

use crate::ast::Path;
use crate::diagnostics::{DiagView, PErr, PResult, result_view};
use crate::expected::ExpectedToken;
use crate::parser::{is_element_of, Parser};
use crate::report::{ident_diag, ident_error};
use crate::span::Span;
use crate::state::{lemma_bumped_remaining, lemma_places_differ, ParserState};
use crate::symbol::{symbol_class, Ident};
use crate::token::TokenKind;
use vstd::prelude::*;

verus! {

/// The result of a path parse as a mathematical value.
pub open spec fn path_result_view(r: PResult<Path>) -> Result<Seq<Ident>, DiagView> {
    match r {
        Ok(path) => Ok(path@),
        Err(e) => Err(e@),
    }
}

impl ParserState {
    /// Whether the parser stands on a comma with an identifier behind it.
    pub open spec fn at_stray_comma(self) -> bool {
        self.token.kind == TokenKind::Comma && self.look_ahead(1).spec_is_ident()
    }

    /// Whether the identifier is reserved where the parser stands.
    pub open spec fn is_reserved(self, ident: Ident) -> bool {
        symbol_class(self.symbols(), ident.name).spec_is_reserved(self.in_yul)
    }

    /// The error for the current token where an identifier was expected. In
    /// front of a stray comma it advises to remove the comma.
    pub open spec fn not_ident_diag(self) -> DiagView {
        if self.at_stray_comma() {
            ident_diag(self.sess, self.token).with_help(self.token.span, "remove this comma"@)
        } else {
            ident_diag(self.sess, self.token)
        }
    }

    /// What becomes of a token that is no identifier: an error, unless the
    /// parser may recover and stands on a stray comma. Then the comma is
    /// read, the error is emitted, and the identifier behind the comma is
    /// handed back, still unread.
    pub open spec fn expected_ident_found(self, recover: bool) -> (
        Result<Ident, DiagView>,
        ParserState,
    ) {
        if recover && self.at_stray_comma() {
            match self.bumped().token.spec_ident() {
                Some(ident) => (Ok(ident), self.bumped().emitting(self.not_ident_diag())),
                None => (Err(self.not_ident_diag()), self.bumped()),
            }
        } else {
            (Err(self.not_ident_diag()), self)
        }
    }

    /// The identifier that the parser stands on, left unread, or what
    /// becomes of a token that is none.
    pub open spec fn ident_or_err(self, recover: bool) -> (Result<Ident, DiagView>, ParserState) {
        match self.token.spec_ident() {
            Some(ident) => (Ok(ident), self),
            None => self.expected_ident_found(recover),
        }
    }

    /// What parsing an identifier that must not be reserved comes to. A
    /// reserved one is an error, which a parser that may recover emits
    /// before it reads the identifier all the same.
    pub open spec fn parse_ident_common(self, recover: bool) -> (
        Result<Ident, DiagView>,
        ParserState,
    ) {
        let (found, s) = self.ident_or_err(recover);
        match found {
            Err(e) => (Err(e), s),
            Ok(ident) => if s.is_reserved(ident) {
                if recover {
                    (Ok(ident), s.emitting(s.not_ident_diag()).bumped())
                } else {
                    (Err(s.not_ident_diag()), s)
                }
            } else {
                (Ok(ident), s.bumped())
            },
        }
    }

    /// What parsing an identifier comes to.
    pub open spec fn parse_ident(self) -> (Result<Ident, DiagView>, ParserState) {
        self.parse_ident_common(true)
    }

    /// What parsing an identifier comes to where reserved words are
    /// accepted too.
    pub open spec fn parse_ident_any(self) -> (Result<Ident, DiagView>, ParserState) {
        let (found, s) = self.ident_or_err(true);
        match found {
            Err(e) => (Err(e), s),
            Ok(ident) => (Ok(ident), s.bumped()),
        }
    }

    /// What parsing an identifier comes to where none needs to stand.
    pub open spec fn parse_ident_opt(self) -> (Result<Option<Ident>, DiagView>, ParserState) {
        if self.token.spec_is_ident() {
            match self.parse_ident().0 {
                Ok(ident) => (Ok(Some(ident)), self.parse_ident().1),
                Err(e) => (Err(e), self.parse_ident().1),
            }
        } else {
            (Ok(None), self)
        }
    }

    /// The rest of a path whose segments so far are `acc`: as long as a dot
    /// follows, the dot is read and `step` parses one more segment. The
    /// dot that does not follow in the end is registered as expected. A
    /// step that leaves more tokens than it found ends the path.
    pub open spec fn path_tail(
        self,
        step: spec_fn(ParserState) -> (Result<Ident, DiagView>, ParserState),
        acc: Seq<Ident>,
    ) -> (Result<Seq<Ident>, DiagView>, ParserState)
        decreases self.remaining(),
    {
        if self.token.kind != TokenKind::Dot {
            (Ok(acc), self.expecting(ExpectedToken::Token(TokenKind::Dot)))
        } else {
            let (segment, s) = step(self.bumped());
            match segment {
                Err(e) => (Err(e), s),
                Ok(ident) => if s.remaining() < self.remaining() {
                    s.path_tail(step, acc.push(ident))
                } else {
                    (Ok(acc.push(ident)), s)
                },
            }
        }
    }

    /// The path that starts with `first`, which was read already: `first`
    /// alone where no dot follows it.
    pub open spec fn path_with(
        self,
        step: spec_fn(ParserState) -> (Result<Ident, DiagView>, ParserState),
        first: Ident,
    ) -> (Result<Seq<Ident>, DiagView>, ParserState) {
        if self.token.kind != TokenKind::Dot {
            (Ok(seq![first]), self)
        } else {
            self.path_tail(step, seq![first])
        }
    }

    /// The path that starts where the parser stands.
    pub open spec fn parse_path(self) -> (Result<Seq<Ident>, DiagView>, ParserState) {
        match self.parse_ident().0 {
            Ok(first) => self.parse_ident().1.path_with(plain_ident_step(), first),
            Err(e) => (Err(e), self.parse_ident().1),
        }
    }

    /// The path that starts where the parser stands, with reserved words
    /// accepted as segments.
    pub open spec fn parse_path_any(self) -> (Result<Seq<Ident>, DiagView>, ParserState) {
        match self.parse_ident_any().0 {
            Ok(first) => self.parse_ident_any().1.path_with(any_ident_step(), first),
            Err(e) => (Err(e), self.parse_ident_any().1),
        }
    }
}

/// The result of a parse with the span that it covers: a success is paired
/// with the span, and an error that has no place yet is put there.
pub open spec fn spanned_view<T>(r: Result<T, DiagView>, span: Span) -> Result<(Span, T), DiagView> {
    match r {
        Ok(t) => Ok((span, t)),
        Err(e) => if e.span.spec_is_dummy() {
            Err(e.with_span(span))
        } else {
            Err(e)
        },
    }
}

/// The result of a spanned parse as a mathematical value.
pub open spec fn spanned_result_view<T>(r: PResult<(Span, T)>) -> Result<(Span, T), DiagView> {
    match r {
        Ok(pair) => Ok(pair),
        Err(e) => Err(e@),
    }
}

/// The step of a path whose segments must not be reserved.
pub open spec fn plain_ident_step() -> spec_fn(ParserState) -> (
    Result<Ident, DiagView>,
    ParserState,
) {
    |s: ParserState| s.parse_ident()
}

/// The step of a path whose segments may be reserved words.
pub open spec fn any_ident_step() -> spec_fn(ParserState) -> (Result<Ident, DiagView>, ParserState) {
    |s: ParserState| s.parse_ident_any()
}

/// Parsing an identifier never adds to what is left of the input, and a
/// success takes from it; no unexpected-token error is recorded. Where no
/// place stands twice among the tokens ahead, that stays so, and a success
/// leaves the parser off the place of the last unexpected-token error.
pub proof fn lemma_parse_ident_remaining(s: ParserState, recover: bool)
    ensures
        s.parse_ident_common(recover).1.remaining() <= s.remaining(),
        s.parse_ident_common(recover).0 is Ok ==> s.parse_ident_common(recover).1.remaining()
            < s.remaining(),
        s.parse_ident_common(recover).1.last_unexpected == s.last_unexpected,
        s.parse_ident_any().1.remaining() <= s.remaining(),
        s.parse_ident_any().0 is Ok ==> s.parse_ident_any().1.remaining() < s.remaining(),
        s.parse_ident_any().1.last_unexpected == s.last_unexpected,
        s.places_differ() ==> s.parse_ident_common(recover).1.places_differ()
            && s.parse_ident_any().1.places_differ(),
        s.places_differ() && s.parse_ident_common(recover).0 is Ok ==> !s.parse_ident_common(
            recover,
        ).1.at_reported_token(),
        s.places_differ() && s.parse_ident_any().0 is Ok
            ==> !s.parse_ident_any().1.at_reported_token(),
{
    if s.places_differ() {
        lemma_places_differ(s);
        lemma_places_differ(s.bumped());
        lemma_places_differ(s.bumped().emitting(s.not_ident_diag()));
        lemma_places_differ(s.emitting(s.not_ident_diag()));
        lemma_places_differ(
            s.bumped().emitting(s.not_ident_diag()).emitting(
                s.bumped().emitting(s.not_ident_diag()).not_ident_diag(),
            ),
        );
    }
    lemma_bumped_remaining(s);
    lemma_bumped_remaining(s.bumped());
    lemma_bumped_remaining(s.bumped().emitting(s.not_ident_diag()));
    lemma_bumped_remaining(s.emitting(s.not_ident_diag()));
}

/// The rest of a path never adds to what is left of the input and records
/// no unexpected-token error. Where no place stands twice among the tokens
/// ahead, that stays so, and a path that ends well leaves the parser off
/// the place of the last such error if it started off it.
pub proof fn lemma_path_tail(
    s: ParserState,
    step: spec_fn(ParserState) -> (Result<Ident, DiagView>, ParserState),
    acc: Seq<Ident>,
)
    requires
        step == plain_ident_step() || step == any_ident_step(),
    ensures
        s.path_tail(step, acc).1.remaining() <= s.remaining(),
        s.path_tail(step, acc).1.last_unexpected == s.last_unexpected,
        s.places_differ() ==> s.path_tail(step, acc).1.places_differ(),
        s.places_differ() && s.path_tail(step, acc).0 is Ok && !s.at_reported_token()
            ==> !s.path_tail(step, acc).1.at_reported_token(),
    decreases s.remaining(),
{
    if s.places_differ() {
        lemma_places_differ(s);
    }
    if s.token.kind == TokenKind::Dot {
        lemma_bumped_remaining(s);
        lemma_parse_ident_remaining(s.bumped(), true);
        let (segment, next) = step(s.bumped());
        if segment is Ok {
            lemma_path_tail(next, step, acc.push(segment->Ok_0));
        }
    }
}

impl<'a> Parser<'a> {
    /// Builds the error for the current token where an identifier was
    /// expected, recovering from a stray comma if `recover`.
    pub fn expected_ident_found(&mut self, recover: bool) -> (r: PResult<Ident>)
        ensures
            (result_view(r), final(self)@) == old(self)@.expected_ident_found(recover),
    {
        let token = self.token();
        let span = token.span;
        let mut err = ident_error(self.sess(), &token);
        let mut recovered_ident: Option<Ident> = None;
        let suggest_remove_comma = token.kind == TokenKind::Comma && self.look_ahead(1).is_ident();
        if suggest_remove_comma {
            if recover {
                self.bump();
                recovered_ident = self.token().ident();
            }
            err = err.span_help(span, String::from_str("remove this comma"));
        }
        if recover {
            if let Some(ident) = recovered_ident {
                self.emit(err);
                return Ok(ident);
            }
        }
        Err(err)
    }

    /// Builds the error for the current token where an identifier was
    /// expected. The parser does not change.
    pub fn expected_ident_found_err(&mut self) -> (err: PErr)
        ensures
            err@ == old(self)@.not_ident_diag(),
            final(self)@ == old(self)@,
    {
        match self.expected_ident_found(false) {
            Ok(_) => {
                proof {
                    assert(false);
                }
                ident_error(self.sess(), &self.token())
            },
            Err(e) => e,
        }
    }

    /// Returns the identifier that the parser stands on, without reading
    /// it, or the error for a token that is none.
    pub fn ident_or_err(&mut self, recover: bool) -> (r: PResult<Ident>)
        ensures
            (result_view(r), final(self)@) == old(self)@.ident_or_err(recover),
    {
        match self.token().ident() {
            Some(ident) => Ok(ident),
            None => self.expected_ident_found(recover),
        }
    }

    /// Parses an identifier that must not be reserved. A reserved one is an
    /// error, which the parser emits before it goes on with the identifier
    /// if `recover`, and returns if not.
    pub fn parse_ident_common(&mut self, recover: bool) -> (r: PResult<Ident>)
        ensures
            (result_view(r), final(self)@) == old(self)@.parse_ident_common(recover),
            final(self)@.remaining() <= old(self)@.remaining(),
            r is Ok ==> final(self)@.remaining() < old(self)@.remaining(),
            final(self)@.last_unexpected == old(self)@.last_unexpected,
            old(self)@.places_differ() ==> final(self)@.places_differ(),
            old(self)@.places_differ() && r is Ok ==> !final(self)@.at_reported_token(),
    {
        proof {
            lemma_parse_ident_remaining(self@, recover);
        }
        let ident = match self.ident_or_err(recover) {
            Ok(ident) => ident,
            Err(e) => {
                return Err(e);
            },
        };
        if self.sess().symbols.class(ident.name).is_reserved(self.is_in_yul()) {
            let err = self.expected_ident_found_err();
            if recover {
                self.emit(err);
            } else {
                return Err(err);
            }
        }
        self.bump();
        Ok(ident)
    }

    /// Parses an identifier.
    pub fn parse_ident(&mut self) -> (r: PResult<Ident>)
        ensures
            (result_view(r), final(self)@) == old(self)@.parse_ident(),
            final(self)@.remaining() <= old(self)@.remaining(),
            r is Ok ==> final(self)@.remaining() < old(self)@.remaining(),
            final(self)@.last_unexpected == old(self)@.last_unexpected,
            old(self)@.places_differ() ==> final(self)@.places_differ(),
            old(self)@.places_differ() && r is Ok ==> !final(self)@.at_reported_token(),
    {
        self.parse_ident_common(true)
    }

    /// Parses an identifier, reserved or not.
    pub fn parse_ident_any(&mut self) -> (r: PResult<Ident>)
        ensures
            (result_view(r), final(self)@) == old(self)@.parse_ident_any(),
            final(self)@.remaining() <= old(self)@.remaining(),
            r is Ok ==> final(self)@.remaining() < old(self)@.remaining(),
            final(self)@.last_unexpected == old(self)@.last_unexpected,
            old(self)@.places_differ() ==> final(self)@.places_differ(),
            old(self)@.places_differ() && r is Ok ==> !final(self)@.at_reported_token(),
    {
        proof {
            lemma_parse_ident_remaining(self@, true);
        }
        let ident = match self.ident_or_err(true) {
            Ok(ident) => ident,
            Err(e) => {
                return Err(e);
            },
        };
        self.bump();
        Ok(ident)
    }

    /// Parses an identifier if the parser stands on one.
    pub fn parse_ident_opt(&mut self) -> (r: PResult<Option<Ident>>)
        ensures
            (result_view(r), final(self)@) == old(self)@.parse_ident_opt(),
    {
        if self.token().is_ident() {
            match self.parse_ident() {
                Ok(ident) => Ok(Some(ident)),
                Err(e) => Err(e),
            }
        } else {
            Ok(None)
        }
    }

    /// Runs `f` and pairs its result with the span from the token that
    /// was current before the call to the last token that `f` read. An
    /// error of `f` that has no place yet is put at that span.
    pub fn parse_spanned<T>(&mut self, f: impl FnOnce(&mut Self) -> PResult<T>) -> (r: PResult<
        (Span, T),
    >)
        requires
            forall|p: &mut Parser<'a>| p@ == old(self)@ ==> #[trigger] call_requires(f, (p,)),
        ensures
            exists|p: &mut Parser<'a>, fr: PResult<T>|
                p@ == old(self)@ && #[trigger] call_ensures(f, (p,), fr)
                    && final(self)@ == final(p)@
                    && spanned_result_view(r) == spanned_view(
                    result_view(fr),
                    old(self)@.token.span.spec_to(final(self)@.prev_token.span),
                ),
    {
        let lo = self.token().span;
        assert(self@ == old(self)@);
        let res = f(self);
        let span = lo.to(self.prev_token().span);
        let ghost res_view = result_view(res);
        let r = match res {
            Ok(t) => Ok((span, t)),
            Err(e) => if e.span.is_dummy() {
                Err(e.span(span))
            } else {
                Err(e)
            },
        };
        assert(spanned_result_view(r) == spanned_view(res_view, span));
        r
    }

    /// Parses the rest of a path that starts with `first`, which was read
    /// already: as long as a dot follows, the dot is read and `f` parses one
    /// more segment. `first` alone is the path where no dot follows it.
    ///
    /// `f` is called behind a dot that was read, and must not hand back a
    /// parser with more input left than it was given. Whatever else `f`
    /// does, the path starts with `first` and goes
    /// on with segments that `f` handed back; and if `f` does to every
    /// parser what a function `step` says, the result is what
    /// [`ParserState::path_with`] gives for `step`.
    pub fn parse_path_with_f(
        &mut self,
        first: Ident,
        f: impl Fn(&mut Self) -> PResult<Ident>,
    ) -> (r: PResult<Path>)
        requires
            old(self)@.token.kind != TokenKind::Dot || ({
                &&& forall|p: &mut Parser<'a>|
                    p@.prev_token.kind == TokenKind::Dot ==> #[trigger] call_requires(f, (p,))
                &&& forall|p: &mut Parser<'a>, fr: PResult<Ident>|
                    p@.prev_token.kind == TokenKind::Dot && #[trigger] call_ensures(f, (p,), fr)
                        ==> final(p)@.remaining() <= p@.remaining()
            }),
        ensures
            old(self)@.token.kind != TokenKind::Dot ==> path_result_view(r) == Ok::<
                Seq<Ident>,
                DiagView,
            >(seq![first]) && final(self)@ == old(self)@,
            r is Ok ==> r->Ok_0@.len() > 0 && r->Ok_0@[0] == first,
            r is Ok ==> forall|i: int|
                1 <= i < r->Ok_0@.len() ==> is_element_of(f, #[trigger] r->Ok_0@[i]),
            forall|step: spec_fn(ParserState) -> (Result<Ident, DiagView>, ParserState)|
                (forall|p: &mut Parser<'a>, fr: PResult<Ident>| #[trigger]
                    call_ensures(f, (p,), fr) ==> (result_view(fr), final(p)@) == step(p@))
                    ==> (path_result_view(r), final(self)@) == #[trigger] old(self)@.path_with(
                    step,
                    first,
                ),
    {
        if !self.check_noexpect(&TokenKind::Dot) {
            return Ok(Path::new_single(first));
        }
        let ghost start = self@;
        let mut path: Vec<Ident> = Vec::new();
        path.push(first);
        assert(path@ =~= seq![first]);
        loop
            invariant
                start == old(self)@,
                start.token.kind == TokenKind::Dot,
                path@.len() > 0,
                path@[0] == first,
                forall|i: int| 1 <= i < path@.len() ==> is_element_of(f, #[trigger] path@[i]),
                forall|p: &mut Parser<'a>|
                    p@.prev_token.kind == TokenKind::Dot ==> #[trigger] call_requires(f, (p,)),
                forall|p: &mut Parser<'a>, fr: PResult<Ident>|
                    p@.prev_token.kind == TokenKind::Dot && #[trigger] call_ensures(f, (p,), fr)
                        ==> final(p)@.remaining() <= p@.remaining(),
                forall|step: spec_fn(ParserState) -> (Result<Ident, DiagView>, ParserState)|
                    #![trigger self@.path_tail(step, path@)]
                    #![trigger start.path_tail(step, seq![first])]
                    (forall|p: &mut Parser<'a>, fr: PResult<Ident>| #[trigger]
                        call_ensures(f, (p,), fr) ==> (result_view(fr), final(p)@) == step(p@))
                        ==> self@.path_tail(step, path@) == start.path_tail(step, seq![first]),
            decreases self@.remaining(),
        {
            proof {
                lemma_bumped_remaining(self@);
            }
            if !self.eat(&TokenKind::Dot) {
                return Ok(Path::new(path));
            }
            match f(self) {
                Ok(ident) => {
                    assert(is_element_of(f, ident));
                    path.push(ident);
                },
                Err(e) => {
                    return Err(e);
                },
            }
        }
    }

    /// Parses the rest of a path that starts with `first`, which was read
    /// already.
    pub fn parse_path_with(&mut self, first: Ident) -> (r: PResult<Path>)
        ensures
            (path_result_view(r), final(self)@) == old(self)@.path_with(plain_ident_step(), first),
            final(self)@.remaining() <= old(self)@.remaining(),
            final(self)@.last_unexpected == old(self)@.last_unexpected,
            old(self)@.places_differ() ==> final(self)@.places_differ(),
            old(self)@.places_differ() && r is Ok && !old(self)@.at_reported_token()
                ==> !final(self)@.at_reported_token(),
    {
        proof {
            lemma_path_tail(self@, plain_ident_step(), seq![first]);
        }
        self.parse_path_with_f(first, Self::parse_ident)
    }

    /// Parses a path: identifiers joined by dots.
    pub fn parse_path(&mut self) -> (r: PResult<Path>)
        ensures
            (path_result_view(r), final(self)@) == old(self)@.parse_path(),
            final(self)@.remaining() <= old(self)@.remaining(),
            r is Ok ==> final(self)@.remaining() < old(self)@.remaining(),
            final(self)@.last_unexpected == old(self)@.last_unexpected,
            old(self)@.places_differ() ==> final(self)@.places_differ(),
            old(self)@.places_differ() && r is Ok ==> !final(self)@.at_reported_token(),
    {
        let first = match self.parse_ident() {
            Ok(ident) => ident,
            Err(e) => {
                return Err(e);
            },
        };
        self.parse_path_with(first)
    }

    /// Parses a path whose segments may be reserved words.
    pub fn parse_path_any(&mut self) -> (r: PResult<Path>)
        ensures
            (path_result_view(r), final(self)@) == old(self)@.parse_path_any(),
            final(self)@.remaining() <= old(self)@.remaining(),
            r is Ok ==> final(self)@.remaining() < old(self)@.remaining(),
            final(self)@.last_unexpected == old(self)@.last_unexpected,
            old(self)@.places_differ() ==> final(self)@.places_differ(),
            old(self)@.places_differ() && r is Ok ==> !final(self)@.at_reported_token(),
    {
        let first = match self.parse_ident_any() {
            Ok(ident) => ident,
            Err(e) => {
                return Err(e);
            },
        };
        proof {
            lemma_path_tail(self@, any_ident_step(), seq![first]);
        }
        let r = self.parse_path_with_f(first, Self::parse_ident_any);
        assert((path_result_view(r), self@) == old(self)@.parse_ident_any().1.path_with(
            any_ident_step(),
            first,
        ));
        r
    }
}

} // verus!
