//! Diagnostics: messages with a severity, labelled source spans and notes.

use vstd::prelude::*;
use core::ops::Range;
use crate::swipc::text::copy_bytes;

verus! {

/// A region of a source file, by byte offsets.
#[derive(Clone, Copy, PartialEq, Eq, Debug, Default, Structural)]
pub struct Span {
    pub file_id: usize,
    pub left: usize,
    pub right: usize,
}

impl Span {
    pub fn new(file_id: usize, left: usize, right: usize) -> (r: Self)
        ensures
            r == (Span { file_id, left, right }),
    {
        Self { file_id, left, right }
    }

    /// The byte range of the span.
    pub fn range(&self) -> (r: Range<usize>)
        ensures
            r.start == self.left,
            r.end == self.right,
    {
        self.left..self.right
    }
}

/// How serious a diagnostic is, from most to least.
#[derive(Clone, Copy, PartialEq, Eq, Debug, Structural)]
pub enum Severity {
    Bug,
    Error,
    Warning,
    Note,
    Help,
}

/// Whether a label marks the primary cause or a related place.
#[derive(Clone, Copy, PartialEq, Eq, Debug, Structural)]
pub enum LabelStyle {
    Primary,
    Secondary,
}

/// A span of a file with an optional message.
#[derive(Debug)]
pub struct Label {
    pub style: LabelStyle,
    pub span: Span,
    pub message: Vec<u8>,
}

/// A message about the source, with labelled spans and notes.
#[derive(Debug)]
pub struct Diagnostic {
    pub severity: Severity,
    pub message: Vec<u8>,
    pub labels: Vec<Label>,
    pub notes: Vec<Vec<u8>>,
}

/// What a label holds, by value.
pub struct LabelView {
    pub style: LabelStyle,
    pub span: Span,
    pub message: Seq<u8>,
}

/// What a diagnostic holds, by value.
pub struct DiagnosticView {
    pub severity: Severity,
    pub message: Seq<u8>,
    pub labels: Seq<LabelView>,
    pub notes: Seq<Seq<u8>>,
}

impl View for Label {
    type V = LabelView;

    open spec fn view(&self) -> LabelView {
        LabelView { style: self.style, span: self.span, message: self.message@ }
    }
}

impl View for Diagnostic {
    type V = DiagnosticView;

    open spec fn view(&self) -> DiagnosticView {
        DiagnosticView {
            severity: self.severity,
            message: self.message@,
            labels: self.labels@.map_values(|l: Label| l@),
            notes: self.notes@.map_values(|n: Vec<u8>| n@),
        }
    }
}

/// The messages of a list of diagnostics.
pub open spec fn messages(ds: Seq<Diagnostic>) -> Seq<Seq<u8>> {
    ds.map_values(|d: Diagnostic| d.message@)
}

/// An error diagnostic with a message and one primary label.
pub fn error_at(message: Vec<u8>, span: Span) -> (r: Diagnostic)
    ensures
        r.severity == Severity::Error,
        r.message@ == message@,
        r.labels@.len() == 1,
        r.labels@[0]@ == (LabelView { style: LabelStyle::Primary, span, message: Seq::empty() }),
        r.notes@.len() == 0,
        r@ == (DiagnosticView {
            severity: Severity::Error,
            message: message@,
            labels: seq![LabelView { style: LabelStyle::Primary, span, message: Seq::empty() }],
            notes: Seq::empty(),
        }),
{
    let mut labels: Vec<Label> = Vec::new();
    labels.push(Label { style: LabelStyle::Primary, span, message: Vec::new() });
    let r = Diagnostic { severity: Severity::Error, message, labels, notes: Vec::new() };
    proof {
        assert(r.labels@.map_values(|l: Label| l@) =~= seq![LabelView { style: LabelStyle::Primary, span, message: Seq::empty() }]);
        assert(r.notes@.map_values(|n: Vec<u8>| n@) =~= Seq::<Seq<u8>>::empty());
    }
    r
}

/// A warning diagnostic with a message and one primary label.
pub fn warning_at(message: Vec<u8>, span: Span) -> (r: Diagnostic)
    ensures
        r.severity == Severity::Warning,
        r.message@ == message@,
        r.labels@.len() == 1,
        r.labels@[0]@ == (LabelView { style: LabelStyle::Primary, span, message: Seq::empty() }),
        r.notes@.len() == 0,
{
    let mut labels: Vec<Label> = Vec::new();
    labels.push(Label { style: LabelStyle::Primary, span, message: Vec::new() });
    Diagnostic { severity: Severity::Warning, message, labels, notes: Vec::new() }
}

/// A diagnostic with one more secondary label, at `span` with `message`.
pub open spec fn with_label_spec(d: DiagnosticView, span: Span, message: Seq<u8>) -> DiagnosticView {
    DiagnosticView {
        labels: d.labels.push(LabelView { style: LabelStyle::Secondary, span, message }),
        ..d
    }
}

/// Add a secondary label to a diagnostic.
pub fn with_secondary_label(d: &mut Diagnostic, span: Span, message: &[u8])
    ensures
        final(d)@ == with_label_spec(old(d)@, span, message@),
        final(d).severity == old(d).severity,
        final(d).message@ == old(d).message@,
        final(d).notes@ == old(d).notes@,
        final(d).labels@.len() == old(d).labels@.len() + 1,
        forall|i: int| 0 <= i < old(d).labels@.len() ==> final(d).labels@[i] == old(d).labels@[i],
        final(d).labels@.last()@ == (LabelView { style: LabelStyle::Secondary, span, message: message@ }),
{
    let m = copy_bytes(message);
    let ghost before = d.labels@;
    d.labels.push(Label { style: LabelStyle::Secondary, span, message: m });
    proof {
        assert(d.labels@.map_values(|l: Label| l@) =~= before.map_values(|l: Label| l@).push(
            LabelView { style: LabelStyle::Secondary, span, message: message@ },
        ));
    }
}

/// Add to every diagnostic of `ds` a secondary label at `span` with `message`,
/// saying in what context they arose.
pub fn with_context(ds: &mut Vec<Diagnostic>, span: Span, message: &[u8])
    ensures
        final(ds)@.len() == old(ds)@.len(),
        messages(final(ds)@) == messages(old(ds)@),
        forall|i: int| 0 <= i < final(ds)@.len() ==> (#[trigger] final(ds)@[i]).severity == old(ds)@[i].severity,
        forall|i: int| 0 <= i < final(ds)@.len() ==> (#[trigger] final(ds)@[i]).labels@.len() == old(ds)@[i].labels@.len() + 1,
        forall|i: int| 0 <= i < final(ds)@.len() ==> (#[trigger] final(ds)@[i]).labels@.last()@ == (LabelView {
            style: LabelStyle::Secondary,
            span,
            message: message@,
        }),
        forall|i: int| 0 <= i < final(ds)@.len() ==> (#[trigger] final(ds)@[i])@ == with_label_spec(old(ds)@[i]@, span, message@),
{
    let ghost old_ds = ds@;
    let mut i: usize = 0;
    while i < ds.len()
        invariant
            i <= ds@.len(),
            ds@.len() == old_ds.len(),
            forall|j: int| i <= j < ds@.len() ==> ds@[j] == old_ds[j],
            forall|j: int| 0 <= j < i ==> (#[trigger] ds@[j]).message@ == old_ds[j].message@,
            forall|j: int| 0 <= j < i ==> (#[trigger] ds@[j]).severity == old_ds[j].severity,
            forall|j: int| 0 <= j < i ==> (#[trigger] ds@[j]).labels@.len() == old_ds[j].labels@.len() + 1,
            forall|j: int| 0 <= j < i ==> (#[trigger] ds@[j]).labels@.last()@ == (LabelView {
                style: LabelStyle::Secondary,
                span,
                message: message@,
            }),
            forall|j: int| 0 <= j < i ==> (#[trigger] ds@[j])@ == with_label_spec(old_ds[j]@, span, message@),
        decreases ds@.len() - i,
    {
        with_secondary_label(&mut ds[i], span, message);
        i = i + 1;
    }
    assert(messages(ds@) =~= messages(old_ds));
}

/// Whether any diagnostic is an error (or worse).
pub fn is_diags_fatal(ds: &Vec<Diagnostic>) -> (r: bool)
    ensures
        r == exists|i: int| 0 <= i < ds@.len() && ((#[trigger] ds@[i]).severity == Severity::Error
            || ds@[i].severity == Severity::Bug),
{
    let mut i: usize = 0;
    while i < ds.len()
        invariant
            i <= ds@.len(),
            forall|j: int| 0 <= j < i ==> !((#[trigger] ds@[j]).severity == Severity::Error || ds@[j].severity == Severity::Bug),
        decreases ds@.len() - i,
    {
        match ds[i].severity {
            Severity::Error | Severity::Bug => {
                return true;
            },
            _ => {},
        }
        i = i + 1;
    }
    false
}

} // verus!
