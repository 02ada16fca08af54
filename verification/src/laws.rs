//! What holds of the parser in every state.

use crate::diagnostics::DiagView;
use crate::expected::ExpectedToken;
use crate::ident::{any_ident_step, lemma_parse_ident_remaining, plain_ident_step};
use crate::report::ident_diag;
use crate::seq::{missing_sep_text, SeqSep};
use crate::session::ParseSess;
use crate::state::{lemma_bumped_remaining, lemma_checked_any, ParserState};
use crate::symbol::Ident;
use crate::token::{Token, TokenKind};
use vstd::prelude::*;

verus! {

/// A parser that has advanced once over its input stands on the first token,
/// with the placeholder as the previous one; over an empty input it stands
/// at the end of the input.
pub proof fn law_first_advance(sess: ParseSess, tokens: Seq<Token>)
    ensures
        ParserState::initial(sess, tokens).bumped().prev_token == Token::spec_dummy(),
        tokens.len() > 0 ==> ParserState::initial(sess, tokens).bumped().token == tokens[0],
        tokens.len() > 0 ==> ParserState::initial(sess, tokens).bumped().rest == tokens.drop_first(),
        tokens.len() == 0 ==> ParserState::initial(sess, tokens).bumped().token
            == Token::spec_eof(),
{
}

/// Tokens are read in order and never given back: what is unread after an
/// advance, or after an identifier was parsed, is an end piece of what was
/// unread before.
pub proof fn law_tokens_are_read_in_order(s: ParserState)
    ensures
        s.bumped().rest == s.rest.skip(if s.rest.len() > 0 {
            1int
        } else {
            0int
        }),
        exists|n: int| 0 <= n <= 2 && n <= s.rest.len() && s.parse_ident().1.rest == s.rest.skip(n),
        exists|n: int|
            0 <= n <= 2 && n <= s.rest.len() && s.parse_ident_any().1.rest == s.rest.skip(n),
{
    assert(s.rest.skip(0) =~= s.rest);
    if s.rest.len() > 0 {
        assert(s.rest.skip(1) =~= s.rest.drop_first());
        let once = s.bumped();
        if once.rest.len() > 0 {
            assert(once.rest.skip(1) =~= once.rest.drop_first());
            assert(s.rest.skip(2) =~= s.rest.skip(1).skip(1));
        }
    }
    let after = s.parse_ident().1.rest;
    assert(after == s.rest || after == s.bumped().rest || after == s.bumped().bumped().rest);
    let after_any = s.parse_ident_any().1.rest;
    assert(after_any == s.rest || after_any == s.bumped().rest || after_any
        == s.bumped().bumped().rest);
    if s.rest.len() == 0 {
        assert(after == s.rest.skip(0));
        assert(after_any == s.rest.skip(0));
    } else if s.rest.len() == 1 {
        assert(s.bumped().bumped().rest == s.rest.skip(1));
        assert(after == s.rest.skip(0) || after == s.rest.skip(1));
        assert(after_any == s.rest.skip(0) || after_any == s.rest.skip(1));
    } else {
        assert(after == s.rest.skip(0) || after == s.rest.skip(1) || after == s.rest.skip(2));
        assert(after_any == s.rest.skip(0) || after_any == s.rest.skip(1) || after_any
            == s.rest.skip(2));
    }
}

/// An advance changes the tokens and forgets the expectations, and nothing
/// else: the flags, the diagnostics and the record of the last
/// unexpected-token error stay as they are, also where an expected token is
/// read.
pub proof fn law_advance_keeps_the_rest(
    s: ParserState,
    next: Token,
    edible: Seq<TokenKind>,
    inedible: Seq<TokenKind>,
)
    ensures
        s.bumped().prev_token == s.token,
        s.bumped().last_unexpected == s.last_unexpected,
        s.bumped().in_yul == s.in_yul && s.bumped().in_contract == s.in_contract,
        s.bumped().emitted == s.emitted && s.bumped().sess == s.sess,
        s.advanced_to(next) == (ParserState {
            token: next,
            prev_token: s.token,
            expected: Seq::empty(),
            ..s
        }),
        edible.contains(s.token.kind) ==> s.expect_one_of(edible, inedible) == (
            Ok::<bool, DiagView>(false),
            s.bumped(),
        ),
        !edible.contains(s.token.kind) && inedible.contains(s.token.kind) ==> s.expect_one_of(
            edible,
            inedible,
        ) == (Ok::<bool, DiagView>(false), s),
{
}

/// Looking ahead by nothing gives the current token, and looking past the
/// unread tokens gives the end of the input.
pub proof fn law_look_ahead(s: ParserState, dist: nat)
    ensures
        s.look_ahead(0) == s.token,
        0 < dist <= s.rest.len() ==> s.look_ahead(dist as int) == s.rest[dist - 1],
        dist > s.rest.len() ==> s.look_ahead(dist as int) == Token::spec_eof(),
{
}

/// However many probes have registered expectations, an advance leaves none
/// of them: after a token or keyword was found and read, or the parser
/// advanced by itself, nothing is registered.
pub proof fn law_advance_clears_expectations(
    s: ParserState,
    probes: Seq<TokenKind>,
    kind: TokenKind,
    kw: crate::symbol::Symbol,
    next: Token,
)
    ensures
        s.checked_any(probes).bumped().expected.len() == 0,
        s.checked_any(probes).advanced_to(next).expected.len() == 0,
        s.token.kind == kind ==> s.checked_any(probes).eaten(kind).expected.len() == 0,
        s.token.spec_is_keyword(kw) ==> s.checked_any(probes).eaten_keyword(kw).expected.len()
            == 0,
        s.token.kind == kind ==> s.checked_any(probes).expect(kind).0 is Ok && s.checked_any(
            probes,
        ).expect(kind).1.expected.len() == 0,
{
    lemma_checked_any(s, probes);
    let probed = s.checked_any(probes);
    assert(seq![kind].contains(kind)) by {
        assert(seq![kind][0] == kind);
    }
}

/// An identifier that is not reserved and has no dot behind it is a path of
/// one segment.
pub proof fn law_single_segment_path(s: ParserState, ident: Ident)
    requires
        s.token.spec_ident() == Some(ident),
        !s.is_reserved(ident),
        s.bumped().token.kind != TokenKind::Dot,
    ensures
        s.parse_ident() == (Ok::<Ident, DiagView>(ident), s.bumped()),
        s.parse_path() == (Ok::<Seq<Ident>, DiagView>(seq![ident]), s.bumped()),
        s.parse_path_any() == (Ok::<Seq<Ident>, DiagView>(seq![ident]), s.bumped()),
{
}

/// A reserved word where an identifier is expected is an error. A parser
/// that may recover emits the error and hands back the word as the
/// identifier all the same, having read it; one that may not returns the
/// error and reads nothing.
pub proof fn law_reserved_identifier(s: ParserState, ident: Ident)
    requires
        s.token.spec_ident() == Some(ident),
        s.is_reserved(ident),
    ensures
        s.parse_ident() == (
            Ok::<Ident, DiagView>(ident),
            s.emitting(ident_diag(s.sess, s.token)).bumped(),
        ),
        s.parse_ident_common(false) == (Err::<Ident, DiagView>(ident_diag(s.sess, s.token)), s),
        s.parse_ident_any() == (Ok::<Ident, DiagView>(ident), s.bumped()),
{
}

/// A comma in front of an identifier, where an identifier is expected, is
/// taken for a slip: the comma is read, an error that advises to remove it
/// is emitted, and the identifier behind it is parsed.
pub proof fn law_stray_comma_is_recovered(s: ParserState, ident: Ident)
    requires
        s.at_stray_comma(),
        s.bumped().token.spec_ident() == Some(ident),
        !s.bumped().is_reserved(ident),
    ensures
        s.parse_ident() == (
            Ok::<Ident, DiagView>(ident),
            s.bumped().emitting(
                ident_diag(s.sess, s.token).with_help(s.token.span, "remove this comma"@),
            ).bumped(),
        ),
        s.parse_ident_common(false) == (
            Err::<Ident, DiagView>(
                ident_diag(s.sess, s.token).with_help(s.token.span, "remove this comma"@),
            ),
            s,
        ),
{
}

/// Behind a stray comma there is an identifier to recover.
pub proof fn law_stray_comma_has_identifier(s: ParserState)
    requires
        s.at_stray_comma(),
    ensures
        s.bumped().token.spec_ident() is Some,
        s.parse_ident().0 is Ok,
{
}

/// A path goes on behind a dot with what parsing one identifier gives: the
/// segments of `a.b.c` are those that parsing `a`, then `b` behind a dot,
/// then `c` behind a dot hands back, and an identifier that fails to parse
/// fails the path.
pub proof fn law_path_is_repeated_identifiers(s: ParserState, acc: Seq<Ident>)
    requires
        s.token.kind == TokenKind::Dot,
    ensures
        s.path_tail(plain_ident_step(), acc) == (match s.bumped().parse_ident().0 {
            Ok(ident) => s.bumped().parse_ident().1.path_tail(plain_ident_step(), acc.push(ident)),
            Err(e) => (Err::<Seq<Ident>, DiagView>(e), s.bumped().parse_ident().1),
        }),
        s.path_tail(any_ident_step(), acc) == (match s.bumped().parse_ident_any().0 {
            Ok(ident) => s.bumped().parse_ident_any().1.path_tail(
                any_ident_step(),
                acc.push(ident),
            ),
            Err(e) => (Err::<Seq<Ident>, DiagView>(e), s.bumped().parse_ident_any().1),
        }),
{
    lemma_bumped_remaining(s);
    lemma_parse_ident_remaining(s.bumped(), true);
}

/// Where no dot follows, a path ends, and the dot is registered as what
/// could have followed.
pub proof fn law_path_ends_without_dot(s: ParserState, acc: Seq<Ident>)
    requires
        s.token.kind != TokenKind::Dot,
    ensures
        s.path_tail(plain_ident_step(), acc) == (
            Ok::<Seq<Ident>, DiagView>(acc),
            s.expecting(ExpectedToken::Token(TokenKind::Dot)),
        ),
{
}

/// In front of a terminator, a closing bracket or the end of the input a
/// sequence has no further elements, whatever parses the elements.
pub proof fn law_sequence_ends_at_terminator<T>(
    s: ParserState,
    step: spec_fn(ParserState) -> (Result<T, DiagView>, ParserState),
    kets: Seq<TokenKind>,
    sep: SeqSep,
    first: bool,
    acc: Seq<T>,
)
    requires
        s.at_seq_end(kets),
    ensures
        s.seq_before(step, kets, sep, first, acc) == (
            Ok::<(Seq<T>, bool, bool), DiagView>((acc, false, false)),
            s.checked_any(kets),
        ),
{
}

/// A separator that may trail ends the sequence where a terminator follows
/// it: the elements so far are the result, and the trailing separator is
/// reported.
pub proof fn law_trailing_separator_ends_sequence<T>(
    s: ParserState,
    step: spec_fn(ParserState) -> (Result<T, DiagView>, ParserState),
    kets: Seq<TokenKind>,
    sep: SeqSep,
    acc: Seq<T>,
)
    requires
        !s.at_seq_end(kets),
        sep.sep == Some(s.token.kind),
        sep.trailing_sep_allowed,
        kets.contains(s.bumped().token.kind),
    ensures
        s.seq_before(step, kets, sep, false, acc) == (
            Ok::<(Seq<T>, bool, bool), DiagView>((acc, true, false)),
            s.bumped().checked_any(kets),
        ),
{
    lemma_checked_any(s, kets);
    let probed = s.checked_any(kets);
    let kind = s.token.kind;
    assert(seq![kind].contains(kind)) by {
        assert(seq![kind][0] == kind);
    }
    assert(probed.bumped() == s.bumped());
    assert(probed.expect(kind) == (Ok::<bool, DiagView>(false), s.bumped()));
}

/// A separator that is missing in front of an element that parses is
/// recovered from: the separator error is emitted with a note of what is
/// missing, the element is kept, and the sequence goes on behind it.
pub proof fn law_missing_separator_is_recovered<T>(
    s: ParserState,
    step: spec_fn(ParserState) -> (Result<T, DiagView>, ParserState),
    kets: Seq<TokenKind>,
    sep: SeqSep,
    acc: Seq<T>,
    element: T,
)
    requires
        !s.at_seq_end(kets),
        sep.sep is Some,
        sep.sep->Some_0 != s.token.kind,
        !sep.trailing_sep_required,
        step(s.checked_any(kets).expect(sep.sep->Some_0).1).0 == Ok::<T, DiagView>(element),
        step(s.checked_any(kets).expect(sep.sep->Some_0).1).1.remaining() < s.remaining(),
    ensures
        s.checked_any(kets).expect(sep.sep->Some_0).0 is Err,
        s.seq_before(step, kets, sep, false, acc) == ({
            let (separator, failed) = s.checked_any(kets).expect(sep.sep->Some_0);
            let after = step(failed).1;
            after.emitting(
                separator->Err_0.with_help(
                    failed.prev_token.span.spec_shrink_to_hi(),
                    missing_sep_text(after.sess, sep.sep->Some_0),
                ),
            ).seq_before(step, kets, sep, false, acc.push(element))
        }),
{
    lemma_checked_any(s, kets);
    let kind = sep.sep->Some_0;
    assert(!seq![kind].contains(s.token.kind)) by {
        if seq![kind].contains(s.token.kind) {
            let i = choose|i: int| 0 <= i < seq![kind].len() && seq![kind][i] == s.token.kind;
            assert(seq![kind][i] == kind);
        }
    }
    assert(!Seq::<TokenKind>::empty().contains(s.token.kind));
}

/// The parser after it has left the scopes that have saved the flags `saved`
/// on entering, the innermost last: each puts back what it has saved.
pub open spec fn left_yul_scopes(s: ParserState, saved: Seq<bool>) -> ParserState
    decreases saved.len(),
{
    if saved.len() == 0 {
        s
    } else {
        left_yul_scopes(s.with_yul(saved.last()), saved.drop_last())
    }
}

/// However deep the scopes of a nested parse are, and in whatever state the
/// innermost ends, leaving them all puts the flag back to what the
/// outermost has found, and changes nothing else.
pub proof fn law_nested_scopes_restore(s: ParserState, saved: Seq<bool>)
    requires
        saved.len() > 0,
    ensures
        left_yul_scopes(s, saved) == s.with_yul(saved[0]),
    decreases saved.len(),
{
    if saved.len() > 1 {
        let rest = saved.drop_last();
        law_nested_scopes_restore(s.with_yul(saved.last()), rest);
        assert(rest[0] == saved[0]);
    } else {
        assert(left_yul_scopes(s.with_yul(saved.last()), saved.drop_last()) == s.with_yul(
            saved.last(),
        ));
    }
}

/// The flags that scope a nested parse do not touch one another, and
/// setting a flag and putting back the old value leaves the state as it was.
pub proof fn law_flags_are_restored(s: ParserState, t: ParserState)
    ensures
        s.with_yul(true).with_yul(s.in_yul) == s,
        s.with_contract(true).with_contract(s.in_contract) == s,
        t.with_yul(s.in_yul).in_yul == s.in_yul,
        t.with_contract(s.in_contract).in_contract == s.in_contract,
        s.with_yul(true).in_contract == s.in_contract,
        s.with_contract(true).in_yul == s.in_yul,
{
}

} // verus!
