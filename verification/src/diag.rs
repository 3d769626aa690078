use vstd::prelude::*;

use crate::span::Span;

verus! {

/// The mathematical content of one diagnostic: the rule code and the message
/// as character sequences, together with the span it points at.
pub struct DiagView {
    pub span: Span,
    pub code: Seq<char>,
    pub message: Seq<char>,
}

/// A reported rule violation: the code of the rule that fired, a fixed
/// human-readable message, and the span of the offending node.
pub struct Diagnostic {
    pub span: Span,
    pub code: String,
    pub message: String,
}

impl View for Diagnostic {
    type V = DiagView;

    open spec fn view(&self) -> DiagView {
        DiagView { span: self.span, code: self.code@, message: self.message@ }
    }
}

/// An ordered, append-only diagnostic sink bound to one traversal run.
/// Each rule invocation gets a fresh context of its own, so one rule's
/// output can never corrupt another's.
pub struct Context {
    diagnostics: Vec<Diagnostic>,
}

impl View for Context {
    type V = Seq<DiagView>;

    closed spec fn view(&self) -> Seq<DiagView> {
        self.diagnostics@.map_values(|d: Diagnostic| d@)
    }
}

impl Context {
    /// A fresh context holding no diagnostics.
    pub fn new() -> (ctx: Context)
        ensures
            ctx@ == Seq::<DiagView>::empty(),
    {
        let ctx = Context { diagnostics: Vec::new() };
        proof {
            assert(ctx@ =~= Seq::<DiagView>::empty());
        }
        ctx
    }

    /// Appends one diagnostic. Never fails and is not idempotent: two calls
    /// with identical arguments record two diagnostics.
    pub fn add_diagnostic(&mut self, span: Span, code: &str, message: &str)
        ensures
            final(self)@ == old(self)@.push(
                (DiagView { span, code: code@, message: message@ }),
            ),
    {
        self.diagnostics.push(Diagnostic {
            span,
            code: code.to_owned(),
            message: message.to_owned(),
        });
        proof {
            assert(self@ =~= old(self)@.push(
                (DiagView { span, code: code@, message: message@ }),
            ));
        }
    }

    /// Hands the accumulated diagnostics to the caller, in the order in
    /// which they were recorded.
    pub fn diagnostics(self) -> (out: Vec<Diagnostic>)
        ensures
            out@.map_values(|d: Diagnostic| d@) == self@,
    {
        self.diagnostics
    }

    /// The number of diagnostics recorded so far.
    pub fn len(&self) -> (n: usize)
        ensures
            n == self@.len(),
    {
        self.diagnostics.len()
    }
}

} // verus!
