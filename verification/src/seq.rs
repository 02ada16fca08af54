//! Delimited, separated sequences of elements.

use crate::diagnostics::{Diag, DiagView, PResult, result_view};
use crate::parser::{is_element_of, Parser};
use crate::state::{lemma_bumped_remaining, lemma_checked_any, lemma_places_differ, ParserState};
use crate::span::Span;
use crate::text::backticked;
use crate::token::{kind_text, Delimiter, TokenKind};
use vstd::prelude::*;
use vstd::string::*;

verus! {

/// The separator policy of a sequence.
#[derive(Clone, Copy, Debug, PartialEq, Eq, Structural)]
pub struct SeqSep {
    /// The separator token, if the elements are separated at all.
    pub sep: Option<TokenKind>,
    /// Whether a separator may stand behind the last element.
    pub trailing_sep_allowed: bool,
    /// Whether a separator must stand behind every element.
    pub trailing_sep_required: bool,
}

impl SeqSep {
    /// Elements that each end in the separator.
    pub fn trailing_enforced(t: TokenKind) -> (sep: SeqSep)
        ensures
            sep == (SeqSep { sep: Some(t), trailing_sep_allowed: true, trailing_sep_required: true }),
    {
        SeqSep { sep: Some(t), trailing_sep_required: true, trailing_sep_allowed: true }
    }

    /// Elements joined by the separator, which may also follow the last.
    pub fn trailing_allowed(t: TokenKind) -> (sep: SeqSep)
        ensures
            sep == (SeqSep {
                sep: Some(t),
                trailing_sep_allowed: true,
                trailing_sep_required: false,
            }),
    {
        SeqSep { sep: Some(t), trailing_sep_required: false, trailing_sep_allowed: true }
    }

    /// Elements joined by the separator, which may not follow the last.
    pub fn trailing_disallowed(t: TokenKind) -> (sep: SeqSep)
        ensures
            sep == (SeqSep {
                sep: Some(t),
                trailing_sep_allowed: false,
                trailing_sep_required: false,
            }),
    {
        SeqSep { sep: Some(t), trailing_sep_required: false, trailing_sep_allowed: false }
    }

    /// Elements with nothing between them.
    pub fn none() -> (sep: SeqSep)
        ensures
            sep == (SeqSep { sep: None, trailing_sep_allowed: false, trailing_sep_required: false }),
    {
        SeqSep { sep: None, trailing_sep_required: false, trailing_sep_allowed: false }
    }
}

/// What stands at the place of the next element of a sequence.
#[derive(Debug)]
pub enum SeqSlot {
    /// The sequence ends here.
    End { trailing: bool, recovered: bool },
    /// An element is due.
    Element,
    /// The separator is missing: the error for it, and the gap in which the
    /// separator would stand.
    MissingSep(Diag, Span),
    /// The error is handed up.
    Fail(Diag),
}

/// A [`SeqSlot`] as a mathematical value.
pub enum SeqSlotView {
    End { trailing: bool, recovered: bool },
    Element,
    MissingSep(DiagView, Span),
    Fail(DiagView),
}

/// What stands at the place of the next element, as a mathematical value.
pub open spec fn slot_view(slot: SeqSlot) -> SeqSlotView {
    match slot {
        SeqSlot::End { trailing, recovered } => SeqSlotView::End { trailing, recovered },
        SeqSlot::Element => SeqSlotView::Element,
        SeqSlot::MissingSep(e, gap) => SeqSlotView::MissingSep(e@, gap),
        SeqSlot::Fail(e) => SeqSlotView::Fail(e@),
    }
}

/// What a separator that is missing in front of a token leads to.
#[derive(Debug)]
pub enum SepRecovery<T> {
    /// The element behind the gap was parsed: the sequence goes on with it.
    Element(T),
    /// The error is handed up, unemitted.
    Fail(Diag),
    /// The error was emitted and the sequence ends early.
    Stop,
}

/// A [`SepRecovery`] as a mathematical value.
pub enum SepRecoveryView<T> {
    Element(T),
    Fail(DiagView),
    Stop,
}

/// The outcome of a recovery as a mathematical value.
pub open spec fn recovery_view<T>(r: SepRecovery<T>) -> SepRecoveryView<T> {
    match r {
        SepRecovery::Element(t) => SepRecoveryView::Element(t),
        SepRecovery::Fail(e) => SepRecoveryView::Fail(e@),
        SepRecovery::Stop => SepRecoveryView::Stop,
    }
}

/// The result of a sequence parse as a mathematical value.
pub open spec fn seq_result_view<T>(r: PResult<(Vec<T>, bool, bool)>) -> Result<
    (Seq<T>, bool, bool),
    DiagView,
> {
    match r {
        Ok((v, trailing, recovered)) => Ok((v@, trailing, recovered)),
        Err(e) => Err(e@),
    }
}

/// The result of a delimited sequence parse as a mathematical value.
pub open spec fn list_result_view<T>(r: PResult<(Vec<T>, bool)>) -> Result<(Seq<T>, bool), DiagView> {
    match r {
        Ok((v, trailing)) => Ok((v@, trailing)),
        Err(e) => Err(e@),
    }
}

/// What a parse leaves of its result when the value handed back is set
/// aside: that it succeeded, or its error.
pub open spec fn outcome_view<T>(r: PResult<T>) -> Result<(), DiagView> {
    match r {
        Ok(_) => Ok(()),
        Err(e) => Err(e@),
    }
}

/// The element parser that does to the parser what `effect` says and hands
/// back the state in which it was called.
pub open spec fn traced(
    effect: spec_fn(ParserState) -> (Result<(), DiagView>, ParserState),
) -> spec_fn(ParserState) -> (Result<ParserState, DiagView>, ParserState) {
    |s: ParserState|
        (
            match effect(s).0 {
                Ok(_) => Ok(s),
                Err(e) => Err(e),
            },
            effect(s).1,
        )
}

/// Whether `f`, called in the state `s`, can hand back `t`.
pub open spec fn is_element_at<'a, T, F: Fn(&mut Parser<'a>) -> PResult<T>>(
    f: F,
    s: ParserState,
    t: T,
) -> bool {
    exists|p: &mut Parser<'a>| p@ == s && #[trigger] call_ensures(f, (p,), Ok::<T, Diag>(t))
}

/// Whether the result `r`, with the parser left as `after`, is what the run
/// `run` of a sequence comes to, whose elements are the states in which the
/// elements were parsed: the same error or the same flags, the same parser,
/// as many elements as the run has, and each of them handed back by `f` in
/// the state that the run names for it.
pub open spec fn seq_follows<'a, T, F: Fn(&mut Parser<'a>) -> PResult<T>>(
    f: F,
    r: Result<(Seq<T>, bool, bool), DiagView>,
    after: ParserState,
    run: (Result<(Seq<ParserState>, bool, bool), DiagView>, ParserState),
) -> bool {
    &&& after == run.1
    &&& match run.0 {
        Err(e) => r is Err && r->Err_0 == e,
        Ok((states, trailing, recovered)) => {
            &&& r is Ok
            &&& r->Ok_0.0.len() == states.len()
            &&& r->Ok_0.1 == trailing
            &&& r->Ok_0.2 == recovered
            &&& forall|i: int|
                0 <= i < states.len() ==> is_element_at(f, #[trigger] states[i], r->Ok_0.0[i])
        },
    }
}

/// [`seq_follows`] for a sequence that does not say whether it ended early.
pub open spec fn list_follows<'a, T, F: Fn(&mut Parser<'a>) -> PResult<T>>(
    f: F,
    r: Result<(Seq<T>, bool), DiagView>,
    after: ParserState,
    run: (Result<(Seq<ParserState>, bool), DiagView>, ParserState),
) -> bool {
    &&& after == run.1
    &&& match run.0 {
        Err(e) => r is Err && r->Err_0 == e,
        Ok((states, trailing)) => {
            &&& r is Ok
            &&& r->Ok_0.0.len() == states.len()
            &&& r->Ok_0.1 == trailing
            &&& forall|i: int|
                0 <= i < states.len() ==> is_element_at(f, #[trigger] states[i], r->Ok_0.0[i])
        },
    }
}

/// Commas between the elements and none behind the last.
pub open spec fn comma_separated() -> SeqSep {
    SeqSep { sep: Some(TokenKind::Comma), trailing_sep_allowed: false, trailing_sep_required: false }
}

/// Whether the only terminator is a closing parenthesis.
pub open spec fn sole_close_paren(kets: Seq<TokenKind>) -> bool {
    kets.len() == 1 && kets[0] == TokenKind::CloseDelim(Delimiter::Parenthesis)
}

/// The help that a separator error gets when the element behind the gap
/// parses.
pub open spec fn missing_sep_text(sess: crate::session::ParseSess, sep: TokenKind) -> Seq<char> {
    "missing "@ + backticked(kind_text(sep, sess.symbols@))
}

impl ParserState {
    /// Whether a sequence ends in front of the current token: it is one of
    /// the terminators, some closing bracket, or the end of the input.
    pub open spec fn at_seq_end(self, kets: Seq<TokenKind>) -> bool {
        kets.contains(self.token.kind) || self.token.kind is CloseDelim || self.token.kind is Eof
    }

    /// Whether a sequence between `bra` and `ket` has no element to parse
    /// here: `bra` is missing, or the sequence ends right behind it.
    pub open spec fn parses_no_element(self, bra: TokenKind, ket: TokenKind) -> bool {
        self.expect(bra).0 is Err || self.expect(bra).1.at_seq_end(seq![ket])
    }

    /// Whether the separator may be expected at the place of the next
    /// element, if it is not the first, without an unexpected-token error
    /// being raised twice at one place: no separator is due, or the sequence
    /// ends there, or nothing is registered nor will be, or the separator
    /// stands there, or the parser does not stand at the place of the last
    /// such error.
    pub open spec fn may_expect_separator(self, kets: Seq<TokenKind>, sep: SeqSep) -> bool {
        ||| sep.sep is None
        ||| self.at_seq_end(kets)
        ||| (self.expected.len() == 0 && kets.len() == 0)
        ||| self.token.kind == sep.sep->Some_0
        ||| !self.at_reported_token()
    }

    /// What a missing separator leads to once the element behind the gap
    /// was tried, where `self` is the parser after the attempt.
    ///
    /// A parsed element shows that only the separator was left out: the
    /// separator error is emitted with a note of what is missing, and the
    /// sequence goes on. A failed attempt hands its children to the
    /// separator error and is dropped. The separator error is then handed
    /// up unemitted in front of a colon or where `sole_paren` holds, and
    /// is emitted otherwise, which ends the sequence.
    pub open spec fn missing_sep_outcome<T>(
        self,
        expect_err: DiagView,
        sep: TokenKind,
        gap: Span,
        attempt: Result<T, DiagView>,
        sole_paren: bool,
    ) -> (SepRecoveryView<T>, ParserState) {
        match attempt {
            Ok(t) => (
                SepRecoveryView::Element(t),
                self.emitting(expect_err.with_help(gap, missing_sep_text(self.sess, sep))),
            ),
            Err(e) => {
                let combined = expect_err.with_children(e.children);
                if self.token.kind == TokenKind::Colon || sole_paren {
                    (SepRecoveryView::Fail(combined), self)
                } else {
                    (SepRecoveryView::Stop, self.emitting(combined))
                }
            },
        }
    }

    /// What stands at the place of the next element, and the parser once it
    /// has found out; `first` says that no element was parsed yet.
    ///
    /// In front of a terminator, a closing bracket or the end of the input
    /// the sequence ends. In front of each element but the first the
    /// separator is expected; where it is missing, that is an error if the
    /// separator must stand behind every element, and a gap to recover from
    /// if not. Behind a separator that may trail, a terminator ends the
    /// sequence.
    pub open spec fn seq_slot(self, kets: Seq<TokenKind>, sep: SeqSep, first: bool) -> (
        SeqSlotView,
        ParserState,
    ) {
        let probed = self.checked_any(kets);
        if self.at_seq_end(kets) {
            (SeqSlotView::End { trailing: false, recovered: false }, probed)
        } else if sep.sep is Some && !first {
            let (separator, s) = probed.expect(sep.sep->Some_0);
            match separator {
                Ok(recovered) => if recovered {
                    (SeqSlotView::End { trailing: false, recovered: true }, s)
                } else {
                    s.seq_slot_behind_sep(kets, sep)
                },
                Err(e) => if sep.trailing_sep_required {
                    (SeqSlotView::Fail(e), s)
                } else {
                    (SeqSlotView::MissingSep(e, s.prev_token.span.spec_shrink_to_hi()), s)
                },
            }
        } else {
            probed.seq_slot_behind_sep(kets, sep)
        }
    }

    /// What stands behind a separator, or where none is due: an element,
    /// unless the separator may trail and a terminator follows.
    pub open spec fn seq_slot_behind_sep(self, kets: Seq<TokenKind>, sep: SeqSep) -> (
        SeqSlotView,
        ParserState,
    ) {
        if !sep.trailing_sep_allowed {
            (SeqSlotView::Element, self)
        } else if kets.contains(self.token.kind) {
            (SeqSlotView::End { trailing: true, recovered: false }, self.checked_any(kets))
        } else {
            (SeqSlotView::Element, self.checked_any(kets))
        }
    }

    /// The elements of a sequence up to one of the terminators `kets`, which
    /// is not read: the elements, whether a separator follows the last one,
    /// and whether the sequence ended early after an error was emitted.
    /// `step` parses one element, `acc` holds the elements so far, and
    /// `first` says that none was parsed yet.
    ///
    /// Each round looks at the place of the next element
    /// ([`ParserState::seq_slot`]) and parses an element where one is due.
    /// Where the separator is missing, the element is tried without it
    /// ([`ParserState::missing_sep_outcome`]). An element that takes
    /// nothing from the input is the last.
    pub open spec fn seq_before<T>(
        self,
        step: spec_fn(ParserState) -> (Result<T, DiagView>, ParserState),
        kets: Seq<TokenKind>,
        sep: SeqSep,
        first: bool,
        acc: Seq<T>,
    ) -> (Result<(Seq<T>, bool, bool), DiagView>, ParserState)
        decreases self.remaining(),
    {
        let (slot, s) = self.seq_slot(kets, sep, first);
        match slot {
            SeqSlotView::End { trailing, recovered } => (Ok((acc, trailing, recovered)), s),
            SeqSlotView::Fail(e) => (Err(e), s),
            SeqSlotView::Element => {
                let (element, next) = step(s);
                match element {
                    Err(e) => (Err(e), next),
                    Ok(t) => if next.remaining() < self.remaining() {
                        next.seq_before(step, kets, sep, false, acc.push(t))
                    } else {
                        (Ok((acc.push(t), false, false)), next)
                    },
                }
            },
            SeqSlotView::MissingSep(expect_err, gap) => {
                let (attempt, after) = step(s);
                let (outcome, next) = after.missing_sep_outcome(
                    expect_err,
                    sep.sep->Some_0,
                    gap,
                    attempt,
                    sole_close_paren(kets),
                );
                match outcome {
                    SepRecoveryView::Fail(e) => (Err(e), next),
                    SepRecoveryView::Stop => (Ok((acc, false, true)), next),
                    SepRecoveryView::Element(t) => if next.remaining() < self.remaining() {
                        next.seq_before(step, kets, sep, false, acc.push(t))
                    } else {
                        (Ok((acc.push(t), false, false)), next)
                    },
                }
            },
        }
    }

    /// A sequence and its terminator `ket`, which is read unless the
    /// sequence ended early.
    pub open spec fn seq_to_end<T>(
        self,
        step: spec_fn(ParserState) -> (Result<T, DiagView>, ParserState),
        ket: TokenKind,
        sep: SeqSep,
    ) -> (Result<(Seq<T>, bool), DiagView>, ParserState) {
        let (r, s) = self.seq_before(step, seq![ket], sep, true, Seq::empty());
        match r {
            Err(e) => (Err(e), s),
            Ok((v, trailing, recovered)) => if recovered {
                (Ok((v, trailing)), s)
            } else {
                (Ok((v, trailing)), s.eaten(ket))
            },
        }
    }

    /// A sequence between the delimiters `bra` and `ket`. A missing `bra` is
    /// an error.
    pub open spec fn unspanned_seq<T>(
        self,
        step: spec_fn(ParserState) -> (Result<T, DiagView>, ParserState),
        bra: TokenKind,
        ket: TokenKind,
        sep: SeqSep,
    ) -> (Result<(Seq<T>, bool), DiagView>, ParserState) {
        let (opened, s) = self.expect(bra);
        match opened {
            Err(e) => (Err(e), s),
            Ok(_) => s.seq_to_end(step, ket, sep),
        }
    }

    /// A sequence between the two brackets of `delim`.
    pub open spec fn delim_seq<T>(
        self,
        step: spec_fn(ParserState) -> (Result<T, DiagView>, ParserState),
        delim: Delimiter,
        sep: SeqSep,
    ) -> (Result<(Seq<T>, bool), DiagView>, ParserState) {
        self.unspanned_seq(step, TokenKind::OpenDelim(delim), TokenKind::CloseDelim(delim), sep)
    }

    /// A sequence up to the token `stop`, with commas between the elements
    /// and none behind the last.
    pub open spec fn nodelim_comma_seq<T>(
        self,
        step: spec_fn(ParserState) -> (Result<T, DiagView>, ParserState),
        stop: TokenKind,
    ) -> (Result<(Seq<T>, bool), DiagView>, ParserState) {
        let (r, s) = self.seq_before(step, seq![stop], comma_separated(), true, Seq::empty());
        match r {
            Err(e) => (Err(e), s),
            Ok((v, trailing, _)) => (Ok((v, trailing)), s),
        }
    }
}

/// The separator may be expected exactly where the expectation behind the
/// probes for the terminators is none that the parser must not raise.
pub proof fn lemma_may_expect_separator(s: ParserState, kets: Seq<TokenKind>, sep: SeqSep)
    ensures
        s.may_expect_separator(kets, sep) == (sep.sep is None || s.at_seq_end(kets)
            || s.checked_any(kets).may_expect(sep.sep->Some_0)),
{
    lemma_checked_any(s, kets);
}

/// Looking at the place of the next element takes no more than the
/// separator from the input, emits nothing and keeps the places of the
/// tokens ahead apart. The sequence goes on only where it does not stand at
/// its end, and ends regularly only where it does; a trailing separator is
/// found only where a separator was read.
pub proof fn lemma_seq_slot(s: ParserState, kets: Seq<TokenKind>, sep: SeqSep, first: bool)
    ensures
        s.seq_slot(kets, sep, first).1.remaining() <= s.remaining(),
        s.seq_slot(kets, sep, first).1.emitted == s.emitted,
        s.places_differ() ==> s.seq_slot(kets, sep, first).1.places_differ(),
        s.at_seq_end(kets) ==> s.seq_slot(kets, sep, first) == (
            SeqSlotView::End { trailing: false, recovered: false },
            s.checked_any(kets),
        ),
        match s.seq_slot(kets, sep, first).0 {
            SeqSlotView::End { trailing, recovered } => {
                &&& recovered || s.seq_slot(kets, sep, first).1.at_seq_end(kets)
                &&& trailing ==> sep.trailing_sep_allowed && !recovered && kets.contains(
                    s.seq_slot(kets, sep, first).1.token.kind,
                )
                &&& trailing ==> sep.sep is Some && !first
            },
            SeqSlotView::Element => !s.at_seq_end(kets),
            SeqSlotView::MissingSep(_, _) => !s.at_seq_end(kets) && !first && sep.sep is Some,
            SeqSlotView::Fail(_) => !s.at_seq_end(kets),
        },
{
    lemma_checked_any(s, kets);
    let probed = s.checked_any(kets);
    lemma_bumped_remaining(probed);
    if s.places_differ() {
        lemma_places_differ(s);
        lemma_places_differ(probed);
        lemma_places_differ(probed.bumped());
        lemma_places_differ(probed.reported());
    }
    if sep.sep is Some {
        let (_, behind) = probed.expect(sep.sep->Some_0);
        lemma_checked_any(behind, kets);
    }
    lemma_checked_any(probed, kets);
}

impl<'a> Parser<'a> {
    /// Decides what a missing separator leads to, once the element behind
    /// the gap was tried with the result `attempt`.
    pub fn recover_missing_sep<T>(
        &mut self,
        expect_err: Diag,
        sep: &TokenKind,
        gap: Span,
        attempt: PResult<T>,
        sole_paren: bool,
    ) -> (r: SepRecovery<T>)
        ensures
            (recovery_view(r), final(self)@) == old(self)@.missing_sep_outcome(
                expect_err@,
                *sep,
                gap,
                result_view(attempt),
                sole_paren,
            ),
    {
        match attempt {
            Ok(t) => {
                let mut help = String::from_str("missing ");
                let token_str = sep.render(&self.sess().symbols);
                help.append(crate::text::backtick(token_str.as_str()).as_str());
                self.emit(expect_err.span_help(gap, help));
                SepRecovery::Element(t)
            },
            Err(e) => {
                let combined = expect_err.absorb_children(e);
                if self.token().kind == TokenKind::Colon || sole_paren {
                    SepRecovery::Fail(combined)
                } else {
                    self.emit(combined);
                    SepRecovery::Stop
                }
            },
        }
    }

    /// Looks at the place of the next element of a sequence: probes for the
    /// terminators, and expects the separator in front of each element but
    /// the first.
    pub fn seq_slot(&mut self, kets: &[TokenKind], sep: SeqSep, first: bool) -> (slot: SeqSlot)
        requires
            first || old(self)@.may_expect_separator(kets@, sep),
        ensures
            (slot_view(slot), final(self)@) == old(self)@.seq_slot(kets@, sep, first),
    {
        proof {
            lemma_checked_any(self@, kets@);
            lemma_may_expect_separator(self@, kets@, sep);
        }
        if self.expect_any(kets) {
            return SeqSlot::End { trailing: false, recovered: false };
        }
        if self.token().is_close_delim() || self.token().is_eof() {
            return SeqSlot::End { trailing: false, recovered: false };
        }
        if let Some(tk) = sep.sep {
            if !first {
                match self.expect(&tk) {
                    Ok(recovered) => {
                        if recovered {
                            return SeqSlot::End { trailing: false, recovered: true };
                        }
                    },
                    Err(expect_err) => {
                        if sep.trailing_sep_required {
                            return SeqSlot::Fail(expect_err);
                        }
                        let gap = self.prev_token().span.shrink_to_hi();
                        return SeqSlot::MissingSep(expect_err, gap);
                    },
                }
            }
        }
        if sep.trailing_sep_allowed && self.expect_any(kets) {
            return SeqSlot::End { trailing: true, recovered: false };
        }
        SeqSlot::Element
    }

    /// Parses the elements of a sequence up to one of the terminators
    /// `kets`, which is not read. Returns the elements, whether a separator
    /// follows the last one, and whether the sequence ended early after an
    /// error was emitted.
    ///
    /// `f` parses one element. Nothing is asked of it where the sequence
    /// ends at once. Else, where it succeeds it must have taken from the
    /// input and must leave the parser where the separator may be expected
    /// ([`ParserState::may_expect_separator`]). It has to do so in every
    /// state; or, where no place stands twice among the tokens ahead
    /// ([`ParserState::places_differ`]), in the states of which that
    /// holds, and must then keep it so. [`Parser::parse_ident`] is such an
    /// element parser.
    ///
    /// In front of a terminator, a closing bracket or the end of the input
    /// the sequence is empty, whatever `f` is. If what `f` does to the
    /// parser, and whether it succeeds, is a function `effect` of the
    /// parser's state, the result follows the run that
    /// [`ParserState::seq_before`] gives for `effect`: the number of
    /// elements, the flags, the error and the parser left behind are those
    /// of the run, and each element is one that `f` handed back in the
    /// state that the run names for it. If the elements too are a function
    /// `step` of the state, the result is what `seq_before` gives for
    /// `step`.
    pub fn parse_seq_to_before_tokens<T>(
        &mut self,
        kets: &[TokenKind],
        sep: SeqSep,
        f: impl Fn(&mut Self) -> PResult<T>,
    ) -> (r: PResult<(Vec<T>, bool, bool)>)
        requires
            old(self)@.at_seq_end(kets@) || ({
                &&& old(self)@.places_differ()
                &&& forall|p: &mut Parser<'a>|
                    p@.places_differ() ==> #[trigger] call_requires(f, (p,))
                &&& forall|p: &mut Parser<'a>, fr: PResult<T>|
                    p@.places_differ() && #[trigger] call_ensures(f, (p,), fr) ==> {
                        &&& final(p)@.places_differ()
                        &&& fr is Ok ==> final(p)@.remaining() < p@.remaining()
                        &&& fr is Ok ==> final(p)@.may_expect_separator(kets@, sep)
                    }
            }) || ({
                &&& forall|p: &mut Parser<'a>| #[trigger] call_requires(f, (p,))
                &&& forall|p: &mut Parser<'a>, fr: PResult<T>| #[trigger]
                    call_ensures(f, (p,), fr) && fr is Ok ==> {
                        &&& final(p)@.remaining() < p@.remaining()
                        &&& final(p)@.may_expect_separator(kets@, sep)
                    }
            }),
        ensures
            old(self)@.at_seq_end(kets@) ==> seq_result_view(r) == Ok::<
                (Seq<T>, bool, bool),
                DiagView,
            >((Seq::empty(), false, false)) && final(self)@ == old(self)@.checked_any(kets@),
            old(self)@.at_seq_end(kets@) ==> final(self)@ == (ParserState {
                expected: final(self)@.expected,
                ..old(self)@
            }),
            r is Ok ==> (r->Ok_0.2 || final(self)@.at_seq_end(kets@)),
            r is Ok && r->Ok_0.1 ==> sep.sep is Some && sep.trailing_sep_allowed && !r->Ok_0.2
                && kets@.contains(final(self)@.token.kind),
            r is Ok ==> forall|i: int|
                0 <= i < r->Ok_0.0@.len() ==> is_element_of(f, #[trigger] r->Ok_0.0@[i]),
            forall|step: spec_fn(ParserState) -> (Result<T, DiagView>, ParserState)|
                (forall|p: &mut Parser<'a>, fr: PResult<T>| #[trigger]
                    call_ensures(f, (p,), fr) ==> (result_view(fr), final(p)@) == step(p@))
                    ==> (seq_result_view(r), final(self)@) == #[trigger] old(self)@.seq_before(
                        step,
                        kets@,
                        sep,
                        true,
                        Seq::empty(),
                    ),
            forall|effect: spec_fn(ParserState) -> (Result<(), DiagView>, ParserState)|
                (forall|p: &mut Parser<'a>, fr: PResult<T>| #[trigger]
                    call_ensures(f, (p,), fr) ==> (outcome_view(fr), final(p)@) == effect(p@))
                    ==> seq_follows(
                    f,
                    seq_result_view(r),
                    final(self)@,
                    #[trigger] old(self)@.seq_before(
                        traced(effect),
                        kets@,
                        sep,
                        true,
                        Seq::empty(),
                    ),
                ),
    {
        let ghost start = self@;
        let ghost mut states: Seq<ParserState> = Seq::empty();
        let mut first = true;
        let mut v: Vec<T> = Vec::new();
        let sole_paren = kets.len() == 1 && kets[0] == TokenKind::CloseDelim(
            Delimiter::Parenthesis,
        );
        loop
            invariant
                start == old(self)@,
                sole_paren == sole_close_paren(kets@),
                first ==> self@ == start && v@ == Seq::<T>::empty(),
                first || self@.may_expect_separator(kets@, sep),
                !first ==> !start.at_seq_end(kets@),
                states.len() == v@.len(),
                forall|i: int| 0 <= i < v@.len() ==> is_element_of(f, #[trigger] v@[i]),
                forall|i: int| 0 <= i < v@.len() ==> is_element_at(f, #[trigger] states[i], v@[i]),
                (first && self@.at_seq_end(kets@)) || ({
                    &&& self@.places_differ()
                    &&& forall|p: &mut Parser<'a>|
                        p@.places_differ() ==> #[trigger] call_requires(f, (p,))
                    &&& forall|p: &mut Parser<'a>, fr: PResult<T>|
                        p@.places_differ() && #[trigger] call_ensures(f, (p,), fr) ==> {
                            &&& final(p)@.places_differ()
                            &&& fr is Ok ==> final(p)@.remaining() < p@.remaining()
                            &&& fr is Ok ==> final(p)@.may_expect_separator(kets@, sep)
                        }
                }) || ({
                    &&& forall|p: &mut Parser<'a>| #[trigger] call_requires(f, (p,))
                    &&& forall|p: &mut Parser<'a>, fr: PResult<T>| #[trigger]
                        call_ensures(f, (p,), fr) && fr is Ok ==> {
                            &&& final(p)@.remaining() < p@.remaining()
                            &&& final(p)@.may_expect_separator(kets@, sep)
                        }
                }),
                forall|step: spec_fn(ParserState) -> (Result<T, DiagView>, ParserState)|
                    #![trigger self@.seq_before(step, kets@, sep, first, v@)]
                    #![trigger start.seq_before(step, kets@, sep, true, Seq::empty())]
                    (forall|p: &mut Parser<'a>, fr: PResult<T>| #[trigger]
                    call_ensures(f, (p,), fr) ==> (result_view(fr), final(p)@) == step(p@))
                        ==> self@.seq_before(step, kets@, sep, first, v@) == start.seq_before(
                        step,
                        kets@,
                        sep,
                        true,
                        Seq::empty(),
                    ),
                forall|effect: spec_fn(ParserState) -> (Result<(), DiagView>, ParserState)|
                    #![trigger self@.seq_before(traced(effect), kets@, sep, first, states)]
                    #![trigger start.seq_before(traced(effect), kets@, sep, true, Seq::empty())]
                    (forall|p: &mut Parser<'a>, fr: PResult<T>| #[trigger]
                    call_ensures(f, (p,), fr) ==> (outcome_view(fr), final(p)@) == effect(p@))
                        ==> self@.seq_before(traced(effect), kets@, sep, first, states)
                        == start.seq_before(traced(effect), kets@, sep, true, Seq::empty()),
            decreases self@.remaining(),
        {
            let ghost before = self@;
            proof {
                lemma_seq_slot(before, kets@, sep, first);
                lemma_checked_any(before, kets@);
            }
            match self.seq_slot(kets, sep, first) {
                SeqSlot::End { trailing, recovered } => {
                    return Ok((v, trailing, recovered));
                },
                SeqSlot::Fail(e) => {
                    return Err(e);
                },
                SeqSlot::Element => {
                    let ghost ready = self@;
                    match f(self) {
                        Ok(t) => {
                            assert(is_element_at(f, ready, t));
                            v.push(t);
                            proof {
                                states = states.push(ready);
                            }
                        },
                        Err(e) => {
                            return Err(e);
                        },
                    }
                },
                SeqSlot::MissingSep(expect_err, gap) => {
                    let ghost ready = self@;
                    let tk = sep.sep.unwrap();
                    let attempt = f(self);
                    assert(attempt is Ok ==> is_element_at(f, ready, attempt->Ok_0));
                    proof {
                        if self@.places_differ() {
                            lemma_places_differ(self@);
                        }
                    }
                    match self.recover_missing_sep(expect_err, &tk, gap, attempt, sole_paren) {
                        SepRecovery::Element(t) => {
                            v.push(t);
                            proof {
                                states = states.push(ready);
                            }
                        },
                        SepRecovery::Fail(e) => {
                            return Err(e);
                        },
                        SepRecovery::Stop => {
                            return Ok((v, false, true));
                        },
                    }
                },
            }
            first = false;
        }
    }

    /// Parses the elements of a sequence up to the terminator `ket`, which
    /// is not read. See [`Parser::parse_seq_to_before_tokens`].
    pub fn parse_seq_to_before_end<T>(
        &mut self,
        ket: &TokenKind,
        sep: SeqSep,
        f: impl Fn(&mut Self) -> PResult<T>,
    ) -> (r: PResult<(Vec<T>, bool, bool)>)
        requires
            old(self)@.at_seq_end(seq![*ket]) || ({
                &&& old(self)@.places_differ()
                &&& forall|p: &mut Parser<'a>|
                    p@.places_differ() ==> #[trigger] call_requires(f, (p,))
                &&& forall|p: &mut Parser<'a>, fr: PResult<T>|
                    p@.places_differ() && #[trigger] call_ensures(f, (p,), fr) ==> {
                        &&& final(p)@.places_differ()
                        &&& fr is Ok ==> final(p)@.remaining() < p@.remaining()
                        &&& fr is Ok ==> final(p)@.may_expect_separator(seq![*ket], sep)
                    }
            }) || ({
                &&& forall|p: &mut Parser<'a>| #[trigger] call_requires(f, (p,))
                &&& forall|p: &mut Parser<'a>, fr: PResult<T>| #[trigger]
                    call_ensures(f, (p,), fr) && fr is Ok ==> {
                        &&& final(p)@.remaining() < p@.remaining()
                        &&& final(p)@.may_expect_separator(seq![*ket], sep)
                    }
            }),
        ensures
            old(self)@.at_seq_end(seq![*ket]) ==> seq_result_view(r) == Ok::<
                (Seq<T>, bool, bool),
                DiagView,
            >((Seq::empty(), false, false)) && final(self)@ == old(self)@.checked(*ket),
            r is Ok ==> (r->Ok_0.2 || final(self)@.at_seq_end(seq![*ket])),
            r is Ok && r->Ok_0.1 ==> sep.sep is Some && sep.trailing_sep_allowed && !r->Ok_0.2
                && final(self)@.token.kind == *ket,
            r is Ok ==> forall|i: int|
                0 <= i < r->Ok_0.0@.len() ==> is_element_of(f, #[trigger] r->Ok_0.0@[i]),
            forall|step: spec_fn(ParserState) -> (Result<T, DiagView>, ParserState)|
                (forall|p: &mut Parser<'a>, fr: PResult<T>| #[trigger]
                    call_ensures(f, (p,), fr) ==> (result_view(fr), final(p)@) == step(p@))
                    ==> (seq_result_view(r), final(self)@) == #[trigger] old(self)@.seq_before(
                        step,
                        seq![*ket],
                        sep,
                        true,
                        Seq::empty(),
                    ),
            forall|effect: spec_fn(ParserState) -> (Result<(), DiagView>, ParserState)|
                (forall|p: &mut Parser<'a>, fr: PResult<T>| #[trigger]
                    call_ensures(f, (p,), fr) ==> (outcome_view(fr), final(p)@) == effect(p@))
                    ==> seq_follows(
                    f,
                    seq_result_view(r),
                    final(self)@,
                    #[trigger] old(self)@.seq_before(
                        traced(effect),
                        seq![*ket],
                        sep,
                        true,
                        Seq::empty(),
                    ),
                ),
    {
        let kets = vec![*ket];
        assert(kets@ =~= seq![*ket]);
        proof {
            let one = seq![*ket];
            assert(one.drop_first() =~= Seq::<TokenKind>::empty());
            assert(self@.checked_any(one) == self@.checked(*ket)) by {
                assert(self@.checked(*ket).checked_any(one.drop_first()) == self@.checked(*ket));
            }
        }
        self.parse_seq_to_before_tokens(kets.as_slice(), sep, f)
    }

    /// Parses a sequence and its terminator `ket`. The terminator is read
    /// unless the sequence ended early after an error was emitted.
    pub fn parse_seq_to_end<T>(
        &mut self,
        ket: &TokenKind,
        sep: SeqSep,
        f: impl Fn(&mut Self) -> PResult<T>,
    ) -> (r: PResult<(Vec<T>, bool)>)
        requires
            old(self)@.at_seq_end(seq![*ket]) || ({
                &&& old(self)@.places_differ()
                &&& forall|p: &mut Parser<'a>|
                    p@.places_differ() ==> #[trigger] call_requires(f, (p,))
                &&& forall|p: &mut Parser<'a>, fr: PResult<T>|
                    p@.places_differ() && #[trigger] call_ensures(f, (p,), fr) ==> {
                        &&& final(p)@.places_differ()
                        &&& fr is Ok ==> final(p)@.remaining() < p@.remaining()
                        &&& fr is Ok ==> final(p)@.may_expect_separator(seq![*ket], sep)
                    }
            }) || ({
                &&& forall|p: &mut Parser<'a>| #[trigger] call_requires(f, (p,))
                &&& forall|p: &mut Parser<'a>, fr: PResult<T>| #[trigger]
                    call_ensures(f, (p,), fr) && fr is Ok ==> {
                        &&& final(p)@.remaining() < p@.remaining()
                        &&& final(p)@.may_expect_separator(seq![*ket], sep)
                    }
            }),
        ensures
            old(self)@.at_seq_end(seq![*ket]) ==> list_result_view(r) == Ok::<
                (Seq<T>, bool),
                DiagView,
            >((Seq::empty(), false)) && final(self)@ == old(self)@.checked(*ket).eaten(*ket),
            r is Ok && r->Ok_0.1 ==> sep.sep is Some && sep.trailing_sep_allowed,
            r is Ok ==> forall|i: int|
                0 <= i < r->Ok_0.0@.len() ==> is_element_of(f, #[trigger] r->Ok_0.0@[i]),
            forall|step: spec_fn(ParserState) -> (Result<T, DiagView>, ParserState)|
                (forall|p: &mut Parser<'a>, fr: PResult<T>| #[trigger]
                    call_ensures(f, (p,), fr) ==> (result_view(fr), final(p)@) == step(p@))
                    ==> (list_result_view(r), final(self)@) == #[trigger] old(self)@.seq_to_end(
                        step,
                        *ket,
                        sep,
                    ),
            forall|effect: spec_fn(ParserState) -> (Result<(), DiagView>, ParserState)|
                (forall|p: &mut Parser<'a>, fr: PResult<T>| #[trigger]
                    call_ensures(f, (p,), fr) ==> (outcome_view(fr), final(p)@) == effect(p@))
                    ==> list_follows(
                    f,
                    list_result_view(r),
                    final(self)@,
                    #[trigger] old(self)@.seq_to_end(traced(effect), *ket, sep),
                ),
    {
        let (val, trailing, recovered) = match self.parse_seq_to_before_end(ket, sep, f) {
            Ok(parsed) => parsed,
            Err(e) => {
                return Err(e);
            },
        };
        if !recovered {
            self.eat(ket);
        }
        Ok((val, trailing))
    }

    /// Parses a sequence between the delimiters `bra` and `ket`. A missing
    /// `bra` is an error, whatever follows.
    pub fn parse_unspanned_seq<T>(
        &mut self,
        bra: &TokenKind,
        ket: &TokenKind,
        sep: SeqSep,
        f: impl Fn(&mut Self) -> PResult<T>,
    ) -> (r: PResult<(Vec<T>, bool)>)
        requires
            old(self)@.may_expect(*bra),
            old(self)@.parses_no_element(*bra, *ket) || ({
                &&& old(self)@.places_differ()
                &&& forall|p: &mut Parser<'a>|
                    p@.places_differ() ==> #[trigger] call_requires(f, (p,))
                &&& forall|p: &mut Parser<'a>, fr: PResult<T>|
                    p@.places_differ() && #[trigger] call_ensures(f, (p,), fr) ==> {
                        &&& final(p)@.places_differ()
                        &&& fr is Ok ==> final(p)@.remaining() < p@.remaining()
                        &&& fr is Ok ==> final(p)@.may_expect_separator(seq![*ket], sep)
                    }
            }) || ({
                &&& forall|p: &mut Parser<'a>| #[trigger] call_requires(f, (p,))
                &&& forall|p: &mut Parser<'a>, fr: PResult<T>| #[trigger]
                    call_ensures(f, (p,), fr) && fr is Ok ==> {
                        &&& final(p)@.remaining() < p@.remaining()
                        &&& final(p)@.may_expect_separator(seq![*ket], sep)
                    }
            }),
        ensures
            ({
                let (opened, s) = old(self)@.expect(*bra);
                opened is Err ==> list_result_view(r) == Err::<(Seq<T>, bool), DiagView>(
                    opened->Err_0,
                ) && final(self)@ == s
            }),
            r is Ok && r->Ok_0.1 ==> sep.sep is Some && sep.trailing_sep_allowed,
            r is Ok ==> forall|i: int|
                0 <= i < r->Ok_0.0@.len() ==> is_element_of(f, #[trigger] r->Ok_0.0@[i]),
            forall|step: spec_fn(ParserState) -> (Result<T, DiagView>, ParserState)|
                (forall|p: &mut Parser<'a>, fr: PResult<T>| #[trigger]
                    call_ensures(f, (p,), fr) ==> (result_view(fr), final(p)@) == step(p@))
                    ==> (list_result_view(r), final(self)@) == #[trigger] old(self)@.unspanned_seq(
                        step,
                        *bra,
                        *ket,
                        sep,
                    ),
            forall|effect: spec_fn(ParserState) -> (Result<(), DiagView>, ParserState)|
                (forall|p: &mut Parser<'a>, fr: PResult<T>| #[trigger]
                    call_ensures(f, (p,), fr) ==> (outcome_view(fr), final(p)@) == effect(p@))
                    ==> list_follows(
                    f,
                    list_result_view(r),
                    final(self)@,
                    #[trigger] old(self)@.unspanned_seq(traced(effect), *bra, *ket, sep),
                ),
    {
        match self.expect(bra) {
            Ok(_) => {},
            Err(e) => {
                return Err(e);
            },
        }
        self.parse_seq_to_end(ket, sep, f)
    }

    /// Parses a sequence between the two brackets of `delim`.
    pub fn parse_delim_seq<T>(
        &mut self,
        delim: Delimiter,
        sep: SeqSep,
        f: impl Fn(&mut Self) -> PResult<T>,
    ) -> (r: PResult<(Vec<T>, bool)>)
        requires
            old(self)@.may_expect(TokenKind::OpenDelim(delim)),
            old(self)@.parses_no_element(
                TokenKind::OpenDelim(delim),
                TokenKind::CloseDelim(delim),
            ) || ({
                &&& old(self)@.places_differ()
                &&& forall|p: &mut Parser<'a>|
                    p@.places_differ() ==> #[trigger] call_requires(f, (p,))
                &&& forall|p: &mut Parser<'a>, fr: PResult<T>|
                    p@.places_differ() && #[trigger] call_ensures(f, (p,), fr) ==> {
                        &&& final(p)@.places_differ()
                        &&& fr is Ok ==> final(p)@.remaining() < p@.remaining()
                        &&& fr is Ok ==> final(p)@.may_expect_separator(
                            seq![TokenKind::CloseDelim(delim)],
                            sep,
                        )
                    }
            }) || ({
                &&& forall|p: &mut Parser<'a>| #[trigger] call_requires(f, (p,))
                &&& forall|p: &mut Parser<'a>, fr: PResult<T>| #[trigger]
                    call_ensures(f, (p,), fr) && fr is Ok ==> {
                        &&& final(p)@.remaining() < p@.remaining()
                        &&& final(p)@.may_expect_separator(seq![TokenKind::CloseDelim(delim)], sep)
                    }
            }),
        ensures
            ({
                let (opened, s) = old(self)@.expect(TokenKind::OpenDelim(delim));
                opened is Err ==> list_result_view(r) == Err::<(Seq<T>, bool), DiagView>(
                    opened->Err_0,
                ) && final(self)@ == s
            }),
            r is Ok && r->Ok_0.1 ==> sep.sep is Some && sep.trailing_sep_allowed,
            r is Ok ==> forall|i: int|
                0 <= i < r->Ok_0.0@.len() ==> is_element_of(f, #[trigger] r->Ok_0.0@[i]),
            forall|step: spec_fn(ParserState) -> (Result<T, DiagView>, ParserState)|
                (forall|p: &mut Parser<'a>, fr: PResult<T>| #[trigger]
                    call_ensures(f, (p,), fr) ==> (result_view(fr), final(p)@) == step(p@))
                    ==> (list_result_view(r), final(self)@) == #[trigger] old(self)@.delim_seq(
                        step,
                        delim,
                        sep,
                    ),
            forall|effect: spec_fn(ParserState) -> (Result<(), DiagView>, ParserState)|
                (forall|p: &mut Parser<'a>, fr: PResult<T>| #[trigger]
                    call_ensures(f, (p,), fr) ==> (outcome_view(fr), final(p)@) == effect(p@))
                    ==> list_follows(
                    f,
                    list_result_view(r),
                    final(self)@,
                    #[trigger] old(self)@.delim_seq(traced(effect), delim, sep),
                ),
    {
        self.parse_unspanned_seq(
            &TokenKind::OpenDelim(delim),
            &TokenKind::CloseDelim(delim),
            sep,
            f,
        )
    }

    /// Parses a sequence between the two brackets of `delim`, with commas
    /// between the elements and none behind the last.
    pub fn parse_delim_comma_seq<T>(
        &mut self,
        delim: Delimiter,
        f: impl Fn(&mut Self) -> PResult<T>,
    ) -> (r: PResult<(Vec<T>, bool)>)
        requires
            old(self)@.may_expect(TokenKind::OpenDelim(delim)),
            old(self)@.parses_no_element(
                TokenKind::OpenDelim(delim),
                TokenKind::CloseDelim(delim),
            ) || ({
                &&& old(self)@.places_differ()
                &&& forall|p: &mut Parser<'a>|
                    p@.places_differ() ==> #[trigger] call_requires(f, (p,))
                &&& forall|p: &mut Parser<'a>, fr: PResult<T>|
                    p@.places_differ() && #[trigger] call_ensures(f, (p,), fr) ==> {
                        &&& final(p)@.places_differ()
                        &&& fr is Ok ==> final(p)@.remaining() < p@.remaining()
                        &&& fr is Ok ==> final(p)@.may_expect_separator(
                            seq![TokenKind::CloseDelim(delim)],
                            comma_separated(),
                        )
                    }
            }) || ({
                &&& forall|p: &mut Parser<'a>| #[trigger] call_requires(f, (p,))
                &&& forall|p: &mut Parser<'a>, fr: PResult<T>| #[trigger]
                    call_ensures(f, (p,), fr) && fr is Ok ==> {
                        &&& final(p)@.remaining() < p@.remaining()
                        &&& final(p)@.may_expect_separator(
                            seq![TokenKind::CloseDelim(delim)],
                            comma_separated(),
                        )
                    }
            }),
        ensures
            ({
                let (opened, s) = old(self)@.expect(TokenKind::OpenDelim(delim));
                opened is Err ==> list_result_view(r) == Err::<(Seq<T>, bool), DiagView>(
                    opened->Err_0,
                ) && final(self)@ == s
            }),
            r is Ok ==> !r->Ok_0.1,
            r is Ok ==> forall|i: int|
                0 <= i < r->Ok_0.0@.len() ==> is_element_of(f, #[trigger] r->Ok_0.0@[i]),
            forall|step: spec_fn(ParserState) -> (Result<T, DiagView>, ParserState)|
                (forall|p: &mut Parser<'a>, fr: PResult<T>| #[trigger]
                    call_ensures(f, (p,), fr) ==> (result_view(fr), final(p)@) == step(p@))
                    ==> (list_result_view(r), final(self)@) == #[trigger] old(self)@.delim_seq(
                        step,
                        delim,
                        comma_separated(),
                    ),
            forall|effect: spec_fn(ParserState) -> (Result<(), DiagView>, ParserState)|
                (forall|p: &mut Parser<'a>, fr: PResult<T>| #[trigger]
                    call_ensures(f, (p,), fr) ==> (outcome_view(fr), final(p)@) == effect(p@))
                    ==> list_follows(
                    f,
                    list_result_view(r),
                    final(self)@,
                    #[trigger] old(self)@.delim_seq(traced(effect), delim, comma_separated()),
                ),
    {
        self.parse_delim_seq(delim, SeqSep::trailing_disallowed(TokenKind::Comma), f)
    }

    /// Parses a sequence in parentheses, with commas between the elements
    /// and none behind the last, such as `(x, y)`.
    pub fn parse_paren_comma_seq<T>(&mut self, f: impl Fn(&mut Self) -> PResult<T>) -> (r: PResult<
        (Vec<T>, bool),
    >)
        requires
            old(self)@.may_expect(TokenKind::OpenDelim(Delimiter::Parenthesis)),
            old(self)@.parses_no_element(
                TokenKind::OpenDelim(Delimiter::Parenthesis),
                TokenKind::CloseDelim(Delimiter::Parenthesis),
            ) || ({
                &&& old(self)@.places_differ()
                &&& forall|p: &mut Parser<'a>|
                    p@.places_differ() ==> #[trigger] call_requires(f, (p,))
                &&& forall|p: &mut Parser<'a>, fr: PResult<T>|
                    p@.places_differ() && #[trigger] call_ensures(f, (p,), fr) ==> {
                        &&& final(p)@.places_differ()
                        &&& fr is Ok ==> final(p)@.remaining() < p@.remaining()
                        &&& fr is Ok ==> final(p)@.may_expect_separator(
                            seq![TokenKind::CloseDelim(Delimiter::Parenthesis)],
                            comma_separated(),
                        )
                    }
            }) || ({
                &&& forall|p: &mut Parser<'a>| #[trigger] call_requires(f, (p,))
                &&& forall|p: &mut Parser<'a>, fr: PResult<T>| #[trigger]
                    call_ensures(f, (p,), fr) && fr is Ok ==> {
                        &&& final(p)@.remaining() < p@.remaining()
                        &&& final(p)@.may_expect_separator(
                            seq![TokenKind::CloseDelim(Delimiter::Parenthesis)],
                            comma_separated(),
                        )
                    }
            }),
        ensures
            ({
                let (opened, s) = old(self)@.expect(TokenKind::OpenDelim(Delimiter::Parenthesis));
                opened is Err ==> list_result_view(r) == Err::<(Seq<T>, bool), DiagView>(
                    opened->Err_0,
                ) && final(self)@ == s
            }),
            r is Ok ==> !r->Ok_0.1,
            r is Ok ==> forall|i: int|
                0 <= i < r->Ok_0.0@.len() ==> is_element_of(f, #[trigger] r->Ok_0.0@[i]),
            forall|step: spec_fn(ParserState) -> (Result<T, DiagView>, ParserState)|
                (forall|p: &mut Parser<'a>, fr: PResult<T>| #[trigger]
                    call_ensures(f, (p,), fr) ==> (result_view(fr), final(p)@) == step(p@))
                    ==> (list_result_view(r), final(self)@) == #[trigger] old(self)@.delim_seq(
                        step,
                        Delimiter::Parenthesis,
                        comma_separated(),
                    ),
            forall|effect: spec_fn(ParserState) -> (Result<(), DiagView>, ParserState)|
                (forall|p: &mut Parser<'a>, fr: PResult<T>| #[trigger]
                    call_ensures(f, (p,), fr) ==> (outcome_view(fr), final(p)@) == effect(p@))
                    ==> list_follows(
                    f,
                    list_result_view(r),
                    final(self)@,
                    #[trigger] old(self)@.delim_seq(
                        traced(effect),
                        Delimiter::Parenthesis,
                        comma_separated(),
                    ),
                ),
    {
        self.parse_delim_comma_seq(Delimiter::Parenthesis, f)
    }

    /// Parses a sequence without delimiters up to the token `stop`, which
    /// is not read, with commas between the elements and none behind the
    /// last.
    pub fn parse_nodelim_comma_seq<T>(
        &mut self,
        stop: &TokenKind,
        f: impl Fn(&mut Self) -> PResult<T>,
    ) -> (r: PResult<(Vec<T>, bool)>)
        requires
            old(self)@.at_seq_end(seq![*stop]) || ({
                &&& old(self)@.places_differ()
                &&& forall|p: &mut Parser<'a>|
                    p@.places_differ() ==> #[trigger] call_requires(f, (p,))
                &&& forall|p: &mut Parser<'a>, fr: PResult<T>|
                    p@.places_differ() && #[trigger] call_ensures(f, (p,), fr) ==> {
                        &&& final(p)@.places_differ()
                        &&& fr is Ok ==> final(p)@.remaining() < p@.remaining()
                        &&& fr is Ok ==> final(p)@.may_expect_separator(
                            seq![*stop],
                            comma_separated(),
                        )
                    }
            }) || ({
                &&& forall|p: &mut Parser<'a>| #[trigger] call_requires(f, (p,))
                &&& forall|p: &mut Parser<'a>, fr: PResult<T>| #[trigger]
                    call_ensures(f, (p,), fr) && fr is Ok ==> {
                        &&& final(p)@.remaining() < p@.remaining()
                        &&& final(p)@.may_expect_separator(seq![*stop], comma_separated())
                    }
            }),
        ensures
            old(self)@.at_seq_end(seq![*stop]) ==> list_result_view(r) == Ok::<
                (Seq<T>, bool),
                DiagView,
            >((Seq::empty(), false)) && final(self)@ == old(self)@.checked(*stop),
            r is Ok ==> !r->Ok_0.1,
            r is Ok ==> forall|i: int|
                0 <= i < r->Ok_0.0@.len() ==> is_element_of(f, #[trigger] r->Ok_0.0@[i]),
            forall|step: spec_fn(ParserState) -> (Result<T, DiagView>, ParserState)|
                (forall|p: &mut Parser<'a>, fr: PResult<T>| #[trigger]
                    call_ensures(f, (p,), fr) ==> (result_view(fr), final(p)@) == step(p@))
                    ==> (list_result_view(r), final(self)@) == #[trigger] old(self)@.nodelim_comma_seq(
                        step,
                        *stop,
                    ),
            forall|effect: spec_fn(ParserState) -> (Result<(), DiagView>, ParserState)|
                (forall|p: &mut Parser<'a>, fr: PResult<T>| #[trigger]
                    call_ensures(f, (p,), fr) ==> (outcome_view(fr), final(p)@) == effect(p@))
                    ==> list_follows(
                    f,
                    list_result_view(r),
                    final(self)@,
                    #[trigger] old(self)@.nodelim_comma_seq(traced(effect), *stop),
                ),
    {
        match self.parse_seq_to_before_end(
            stop,
            SeqSep::trailing_disallowed(TokenKind::Comma),
            f,
        ) {
            Ok((v, trailing, _recovered)) => Ok((v, trailing)),
            Err(e) => Err(e),
        }
    }
}

} // verus!
