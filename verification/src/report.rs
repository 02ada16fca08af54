//! The diagnostics that a failed expectation gives rise to.

use crate::diagnostics::{Diag, DiagView};
use crate::expected::{candidate_texts, is_candidate_list, lemma_candidate_list_unique,
    merged_expectations, string_views, ExpectedToken};
use crate::session::ParseSess;
use crate::source_map::{crosses_line, SourceMap};
use crate::span::Span;
use crate::text::{backticked, decimal_string, decimal_text, or_list_text};
use crate::token::{kind_text, Token, TokenKind};
use vstd::prelude::*;
use vstd::string::*;

verus! {

/// How a found token is written in a message.
pub open spec fn found_text(sess: ParseSess, token: Token) -> Seq<char> {
    backticked(kind_text(token.kind, sess.symbols@))
}

/// Where the label that says what was expected is anchored when it does not
/// stand on the found token itself: at the end of the previous token, or on
/// the whole of it at the end of the input or where `whole` asks for it.
pub open spec fn expectation_anchor(prev: Token, token: Token, whole: bool) -> Span {
    if whole || token.kind is Eof {
        prev.span
    } else {
        prev.span.spec_shrink_to_hi()
    }
}

/// The gap between the end of the previous token and the start of the found
/// one.
pub open spec fn gap_before(prev: Token, token: Token) -> Span {
    prev.span.spec_shrink_to_hi().spec_until(token.span)
}

/// The diagnostic with its labels: one label on the found token where the
/// previous token has no place or the gap between the two tokens lies on
/// one line; else the label at the anchor and a second one, "unexpected
/// token", on the found token.
pub open spec fn labeled(
    d: DiagView,
    lines: Seq<u32>,
    prev: Token,
    token: Token,
    anchor: Span,
    label: Seq<char>,
) -> DiagView {
    if prev.span.spec_is_dummy() || !crosses_line(lines, gap_before(prev, token)) {
        d.with_label(token.span, label)
    } else {
        d.with_label(anchor, label).with_label(token.span, "unexpected token"@)
    }
}

/// The error for one expected token kind that was not found.
pub open spec fn mismatch_diag(
    sess: ParseSess,
    prev: Token,
    token: Token,
    expected: TokenKind,
) -> DiagView {
    let label = "expected "@ + backticked(kind_text(expected, sess.symbols@));
    let message = label + ", found "@ + found_text(sess, token);
    labeled(
        DiagView::error(message).with_span(token.span),
        sess.source_map@,
        prev,
        token,
        expectation_anchor(prev, token, false),
        label,
    )
}

/// The candidates that a failed expectation names: the suggestions among the
/// explicit sets and the registered expectations, as they are written, each
/// once, in dictionary order.
pub open spec fn candidates(
    sess: ParseSess,
    token: Token,
    edible: Seq<TokenKind>,
    inedible: Seq<TokenKind>,
    registered: Seq<ExpectedToken>,
) -> Seq<Seq<char>> {
    choose|texts: Seq<Seq<char>>|
        is_candidate_list(
            texts,
            merged_expectations(edible, inedible, registered),
            token.kind,
            sess.symbols@,
        )
}

/// The candidates of a failed expectation are well defined: they are the
/// suggestions among what was expected, as they are written, each once, in
/// dictionary order.
pub proof fn lemma_candidates(
    sess: ParseSess,
    token: Token,
    edible: Seq<TokenKind>,
    inedible: Seq<TokenKind>,
    registered: Seq<ExpectedToken>,
)
    ensures
        is_candidate_list(
            candidates(sess, token, edible, inedible, registered),
            merged_expectations(edible, inedible, registered),
            token.kind,
            sess.symbols@,
        ),
{
    let merged = merged_expectations(edible, inedible, registered);
    crate::expected::lemma_candidate_list_exists(merged, merged.len(), token.kind, sess.symbols@);
    assert(merged.take(merged.len() as int) =~= merged);
}

/// The message of an unexpected-token error with the given candidates.
pub open spec fn one_of_message(texts: Seq<Seq<char>>, actual: Seq<char>) -> Seq<char> {
    if texts.len() == 0 {
        "unexpected token: "@ + actual
    } else if texts.len() == 1 {
        "expected "@ + or_list_text(texts) + ", found "@ + actual
    } else {
        "expected one of "@ + or_list_text(texts) + ", found "@ + actual
    }
}

/// The label of an unexpected-token error with the given candidates; more
/// than six of them are counted, not listed.
pub open spec fn one_of_label(texts: Seq<Seq<char>>) -> Seq<char> {
    if texts.len() == 0 {
        "unexpected token after this"@
    } else if texts.len() == 1 {
        "expected "@ + or_list_text(texts)
    } else if texts.len() > 6 {
        "expected one of "@ + decimal_text(texts.len()) + " possible tokens"@
    } else {
        "expected one of "@ + or_list_text(texts)
    }
}

/// The error for a token that is none of what was expected.
pub open spec fn one_of_diag(
    sess: ParseSess,
    prev: Token,
    token: Token,
    edible: Seq<TokenKind>,
    inedible: Seq<TokenKind>,
    registered: Seq<ExpectedToken>,
) -> DiagView {
    let texts = candidates(sess, token, edible, inedible, registered);
    labeled(
        DiagView::error(one_of_message(texts, found_text(sess, token))).with_span(token.span),
        sess.source_map@,
        prev,
        token,
        expectation_anchor(prev, token, texts.len() == 0),
        one_of_label(texts),
    )
}

/// The error for a token that is no identifier, before any help is added.
pub open spec fn ident_diag(sess: ParseSess, token: Token) -> DiagView {
    DiagView::error("expected identifier, found "@ + found_text(sess, token)).with_span(
        token.span,
    )
}

/// Computes where the label that says what was expected is anchored.
pub fn anchor_of(prev: &Token, token: &Token, whole: bool) -> (anchor: Span)
    ensures
        anchor == expectation_anchor(*prev, *token, whole),
{
    if whole || token.is_eof() {
        prev.span
    } else {
        prev.span.shrink_to_hi()
    }
}

/// Puts the labels on an unexpected-token error.
pub fn attach_labels(
    err: Diag,
    source_map: &SourceMap,
    prev: &Token,
    token: &Token,
    anchor: Span,
    label: String,
) -> (d: Diag)
    ensures
        d@ == labeled(err@, source_map@, *prev, *token, anchor, label@),
{
    if prev.span.is_dummy() || !source_map.is_multiline(
        prev.span.shrink_to_hi().until(token.span),
    ) {
        err.span_label(token.span, label)
    } else {
        err.span_label(anchor, label).span_label(
            token.span,
            String::from_str("unexpected token"),
        )
    }
}

/// Builds the error for one expected token kind that was not found.
pub fn mismatch_error(sess: &ParseSess, prev: &Token, token: &Token, expected: &TokenKind) -> (d:
    Diag)
    ensures
        d@ == mismatch_diag(*sess, *prev, *token, *expected),
{
    let this_token_str = token.full_description(&sess.symbols);
    let mut label = String::from_str("expected ");
    label.append(crate::text::backtick(expected.render(&sess.symbols).as_str()).as_str());
    let mut message = label.clone();
    message.append(", found ");
    message.append(this_token_str.as_str());
    let err = Diag::error(message).span(token.span);
    attach_labels(err, &sess.source_map, prev, token, anchor_of(prev, token, false), label)
}

/// Builds the error for a token that is none of what was expected.
pub fn one_of_error(
    sess: &ParseSess,
    prev: &Token,
    token: &Token,
    edible: &[TokenKind],
    inedible: &[TokenKind],
    registered: &Vec<ExpectedToken>,
) -> (d: Diag)
    ensures
        d@ == one_of_diag(*sess, *prev, *token, edible@, inedible@, registered@),
{
    let expected = candidate_texts(edible, inedible, registered, &token.kind, &sess.symbols);
    proof {
        lemma_candidate_list_unique(
            string_views(expected@),
            candidates(*sess, *token, edible@, inedible@, registered@),
            merged_expectations(edible@, inedible@, registered@),
            token.kind,
            sess.symbols@,
        );
    }
    let expect = ExpectedToken::to_string_many(&expected);
    let actual = token.full_description(&sess.symbols);
    let len = expected.len();
    let mut message: String;
    let mut label: String;
    if len == 0 {
        message = String::from_str("unexpected token: ");
        message.append(actual.as_str());
        label = String::from_str("unexpected token after this");
    } else if len == 1 {
        message = String::from_str("expected ");
        message.append(expect.as_str());
        label = message.clone();
        message.append(", found ");
        message.append(actual.as_str());
    } else {
        message = String::from_str("expected one of ");
        label = message.clone();
        message.append(expect.as_str());
        message.append(", found ");
        message.append(actual.as_str());
        if len > 6 {
            label.append(decimal_string(len).as_str());
            label.append(" possible tokens");
        } else {
            label.append(expect.as_str());
        }
    }
    let err = Diag::error(message).span(token.span);
    attach_labels(err, &sess.source_map, prev, token, anchor_of(prev, token, len == 0), label)
}

/// Builds the error for a token that is no identifier, before any help is
/// added.
pub fn ident_error(sess: &ParseSess, token: &Token) -> (d: Diag)
    ensures
        d@ == ident_diag(*sess, *token),
{
    let mut message = String::from_str("expected identifier, found ");
    message.append(token.full_description(&sess.symbols).as_str());
    Diag::error(message).span(token.span)
}

} // verus!
