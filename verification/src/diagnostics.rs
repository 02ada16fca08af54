//! Structured diagnostics and the context that collects the emitted ones.

use crate::span::Span;
use vstd::prelude::*;

verus! {

/// The rank of a message.
#[derive(Clone, Copy, Debug, PartialEq, Eq, Hash, Structural)]
pub enum Level {
    Error,
    Note,
    Help,
}

/// A label on a piece of source.
#[derive(Debug, PartialEq, Eq)]
pub struct SpanLabel {
    pub span: Span,
    pub label: String,
}

/// A message that hangs below a diagnostic.
#[derive(Debug, PartialEq, Eq)]
pub struct SubDiag {
    pub level: Level,
    pub span: Span,
    pub message: String,
}

/// A diagnostic under construction: message, place, labels and children.
/// It ends by being emitted into a [`DiagCtxt`], cancelled, or handed to the
/// caller as an error.
#[derive(Debug, PartialEq, Eq)]
pub struct Diag {
    pub message: String,
    pub span: Span,
    pub labels: Vec<SpanLabel>,
    pub children: Vec<SubDiag>,
}

/// The error type of the parser.
pub type PErr = Diag;

/// The result type of the parser.
pub type PResult<T> = Result<T, PErr>;

/// A [`SpanLabel`] as a mathematical value.
pub struct SpanLabelView {
    pub span: Span,
    pub label: Seq<char>,
}

/// A [`SubDiag`] as a mathematical value.
pub struct SubDiagView {
    pub level: Level,
    pub span: Span,
    pub message: Seq<char>,
}

/// A [`Diag`] as a mathematical value.
pub struct DiagView {
    pub message: Seq<char>,
    pub span: Span,
    pub labels: Seq<SpanLabelView>,
    pub children: Seq<SubDiagView>,
}

impl View for SpanLabel {
    type V = SpanLabelView;

    open spec fn view(&self) -> SpanLabelView {
        SpanLabelView { span: self.span, label: self.label@ }
    }
}

impl View for SubDiag {
    type V = SubDiagView;

    open spec fn view(&self) -> SubDiagView {
        SubDiagView { level: self.level, span: self.span, message: self.message@ }
    }
}

/// The labels of a diagnostic as mathematical values.
pub open spec fn labels_view(labels: Seq<SpanLabel>) -> Seq<SpanLabelView> {
    Seq::new(labels.len(), |i: int| labels[i]@)
}

/// The children of a diagnostic as mathematical values.
pub open spec fn children_view(children: Seq<SubDiag>) -> Seq<SubDiagView> {
    Seq::new(children.len(), |i: int| children[i]@)
}

/// A list of diagnostics as mathematical values.
pub open spec fn diags_view(diags: Seq<Diag>) -> Seq<DiagView> {
    Seq::new(diags.len(), |i: int| diags[i]@)
}

impl View for Diag {
    type V = DiagView;

    open spec fn view(&self) -> DiagView {
        DiagView {
            message: self.message@,
            span: self.span,
            labels: labels_view(self.labels@),
            children: children_view(self.children@),
        }
    }
}

impl DiagView {
    /// A new error with a message and nothing else.
    pub open spec fn error(message: Seq<char>) -> DiagView {
        DiagView { message, span: Span::spec_dummy(), labels: Seq::empty(), children: Seq::empty() }
    }

    pub open spec fn with_span(self, span: Span) -> DiagView {
        DiagView { span, ..self }
    }

    pub open spec fn with_label(self, span: Span, label: Seq<char>) -> DiagView {
        DiagView { labels: self.labels.push(SpanLabelView { span, label }), ..self }
    }

    pub open spec fn with_help(self, span: Span, message: Seq<char>) -> DiagView {
        DiagView {
            children: self.children.push(SubDiagView { level: Level::Help, span, message }),
            ..self
        }
    }

    pub open spec fn with_children(self, more: Seq<SubDiagView>) -> DiagView {
        DiagView { children: self.children + more, ..self }
    }
}

/// The result of a parse as a mathematical value.
pub open spec fn result_view<T>(r: PResult<T>) -> Result<T, DiagView> {
    match r {
        Ok(t) => Ok(t),
        Err(e) => Err(e@),
    }
}

impl Diag {
    /// Starts an error with the given message, at no place yet.
    pub fn error(message: String) -> (d: Diag)
        ensures
            d@ == DiagView::error(message@),
    {
        let d = Diag { message, span: Span::dummy(), labels: Vec::new(), children: Vec::new() };
        assert(d@.labels =~= Seq::empty());
        assert(d@.children =~= Seq::empty());
        d
    }

    /// Sets the place that the diagnostic is about.
    pub fn span(self, span: Span) -> (d: Diag)
        ensures
            d@ == self@.with_span(span),
    {
        Diag { message: self.message, span, labels: self.labels, children: self.children }
    }

    /// Adds a label on a piece of source.
    pub fn span_label(self, span: Span, label: String) -> (d: Diag)
        ensures
            d@ == self@.with_label(span, label@),
    {
        let mut labels = self.labels;
        labels.push(SpanLabel { span, label });
        let d = Diag { message: self.message, span: self.span, labels, children: self.children };
        assert(d@.labels =~= self@.labels.push(SpanLabelView { span, label: label@ }));
        d
    }

    /// Adds a help message on a piece of source.
    pub fn span_help(self, span: Span, message: String) -> (d: Diag)
        ensures
            d@ == self@.with_help(span, message@),
    {
        let mut children = self.children;
        children.push(SubDiag { level: Level::Help, span, message });
        let d = Diag { message: self.message, span: self.span, labels: self.labels, children };
        assert(d@.children =~= self@.children.push(
            SubDiagView { level: Level::Help, span, message: message@ },
        ));
        d
    }

    /// Moves the children of `other` below this diagnostic and cancels
    /// `other`.
    pub fn absorb_children(self, other: Diag) -> (d: Diag)
        ensures
            d@ == self@.with_children(other@.children),
    {
        let mut children = self.children;
        let mut more = other.children;
        let ghost before = children@;
        let ghost added = more@;
        children.append(&mut more);
        let d = Diag { message: self.message, span: self.span, labels: self.labels, children };
        assert(d@.children =~= self@.children + other@.children) by {
            assert(d.children@ =~= before + added);
        }
        d
    }

    /// Hands the diagnostic to the context: the user will see it.
    pub fn emit(self, dcx: &mut DiagCtxt)
        ensures
            final(dcx)@ == old(dcx)@.push(self@),
    {
        dcx.emit(self);
    }

    /// Discards the diagnostic: the user will not see it.
    pub fn cancel(self) {
    }
}

/// The diagnostic context: it holds what was emitted, in order.
#[derive(Debug)]
pub struct DiagCtxt {
    emitted: Vec<Diag>,
}

impl View for DiagCtxt {
    type V = Seq<DiagView>;

    closed spec fn view(&self) -> Seq<DiagView> {
        diags_view(self.emitted@)
    }
}

impl DiagCtxt {
    /// A context into which nothing was emitted.
    pub fn new() -> (dcx: DiagCtxt)
        ensures
            dcx@ == Seq::<DiagView>::empty(),
    {
        let dcx = DiagCtxt { emitted: Vec::new() };
        assert(dcx@ =~= Seq::<DiagView>::empty());
        dcx
    }

    /// Starts an error with the given message.
    pub fn err(&self, message: String) -> (d: Diag)
        ensures
            d@ == DiagView::error(message@),
    {
        Diag::error(message)
    }

    /// Records a diagnostic as emitted.
    pub fn emit(&mut self, diag: Diag)
        ensures
            final(self)@ == old(self)@.push(diag@),
    {
        self.emitted.push(diag);
        assert(self@ =~= old(self)@.push(diag@));
    }

    /// The number of errors emitted so far.
    pub fn err_count(&self) -> (n: usize)
        ensures
            n == self@.len(),
    {
        self.emitted.len()
    }

    /// Whether any error was emitted.
    pub fn has_errors(&self) -> (r: bool)
        ensures
            r == (self@.len() > 0),
    {
        self.emitted.len() > 0
    }

    /// The diagnostics emitted so far, in order.
    pub fn emitted(&self) -> (list: &Vec<Diag>)
        ensures
            diags_view(list@) == self@,
    {
        &self.emitted
    }
}

} // verus!
