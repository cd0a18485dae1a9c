use vstd::prelude::*;

use crate::errors::ErrorMessage;

verus! {

/// How serious a diagnostic is.
#[derive(Debug, Clone, Copy, PartialEq, Eq, Structural)]
pub enum DiagnosticKind {
    Warning,
    Error,
}

/// One message for the user.
#[derive(Debug, Clone)]
pub struct Diagnostic {
    pub kind: DiagnosticKind,
    pub msg: String,
}

/// What a diagnostic holds, as text.
pub ghost struct DiagnosticView {
    pub kind: DiagnosticKind,
    pub msg: Seq<char>,
}

impl View for Diagnostic {
    type V = DiagnosticView;

    open spec fn view(&self) -> DiagnosticView {
        DiagnosticView { kind: self.kind, msg: self.msg@ }
    }
}

/// The views of a list of diagnostics.
pub open spec fn diagnostics_view(s: Seq<Diagnostic>) -> Seq<DiagnosticView> {
    s.map_values(|d: Diagnostic| d@)
}

/// The diagnostics collected during one invocation, in the order they were reported.
#[derive(Debug)]
pub struct DiagnosticBag {
    diagnostics: Vec<Diagnostic>,
}

/// The warnings of `s`, in their order.
pub open spec fn warnings_of(s: Seq<DiagnosticView>) -> Seq<DiagnosticView>
    decreases s.len(),
{
    if s.len() == 0 {
        s
    } else if s.last().kind == DiagnosticKind::Warning {
        warnings_of(s.drop_last()).push(s.last())
    } else {
        warnings_of(s.drop_last())
    }
}

/// The errors of `s`, in their order.
pub open spec fn errors_of(s: Seq<DiagnosticView>) -> Seq<DiagnosticView>
    decreases s.len(),
{
    if s.len() == 0 {
        s
    } else if s.last().kind == DiagnosticKind::Error {
        errors_of(s.drop_last()).push(s.last())
    } else {
        errors_of(s.drop_last())
    }
}

/// The order in which diagnostics are shown: every warning before every error, each group in
/// the order of reporting.
pub open spec fn sorted_view(s: Seq<DiagnosticView>) -> Seq<DiagnosticView> {
    warnings_of(s) + errors_of(s)
}

/// Whether `s` holds an error.
pub open spec fn has_error(s: Seq<DiagnosticView>) -> bool {
    exists|i: int| 0 <= i < s.len() && (#[trigger] s[i]).kind == DiagnosticKind::Error
}

impl View for DiagnosticBag {
    type V = Seq<DiagnosticView>;

    closed spec fn view(&self) -> Seq<DiagnosticView> {
        diagnostics_view(self.diagnostics@)
    }
}

impl DiagnosticBag {
    /// An empty bag.
    pub fn new() -> (r: Self)
        ensures
            r@ == Seq::<DiagnosticView>::empty(),
    {
        DiagnosticBag { diagnostics: Vec::new() }
    }

    /// Records an error whose text is the message of `err`.
    pub fn report_error<E: ErrorMessage>(&mut self, err: E)
        ensures
            final(self)@ == old(self)@.push(
                DiagnosticView { kind: DiagnosticKind::Error, msg: err.message_view() },
            ),
    {
        let msg = err.message();
        self.diagnostics.push(Diagnostic { kind: DiagnosticKind::Error, msg });
        assert(self@ =~= old(self)@.push(
            DiagnosticView { kind: DiagnosticKind::Error, msg: err.message_view() },
        ));
    }

    /// Records an error with the given text.
    pub fn report_error_str(&mut self, msg: String)
        ensures
            final(self)@ == old(self)@.push(DiagnosticView { kind: DiagnosticKind::Error, msg: msg@ }),
    {
        self.diagnostics.push(Diagnostic { kind: DiagnosticKind::Error, msg });
        assert(self@ =~= old(self)@.push(DiagnosticView { kind: DiagnosticKind::Error, msg: msg@ }));
    }

    /// Records a warning with the given text.
    pub fn report_warning(&mut self, msg: String)
        ensures
            final(self)@ == old(self)@.push(DiagnosticView { kind: DiagnosticKind::Warning, msg: msg@ }),
    {
        self.diagnostics.push(Diagnostic { kind: DiagnosticKind::Warning, msg });
        assert(self@ =~= old(self)@.push(DiagnosticView { kind: DiagnosticKind::Warning, msg: msg@ }));
    }

    /// The diagnostics in display order: warnings first, then errors (a stable partition).
    pub fn get_sorted(&self) -> (r: Vec<Diagnostic>)
        ensures
            diagnostics_view(r@) == sorted_view(self@),
    {
        let mut warnings: Vec<Diagnostic> = Vec::new();
        let mut errors: Vec<Diagnostic> = Vec::new();
        let n = self.diagnostics.len();
        let mut i: usize = 0;
        while i < n
            invariant
                n == self@.len(),
                i <= n,
                diagnostics_view(warnings@) == warnings_of(self@.take(i as int)),
                diagnostics_view(errors@) == errors_of(self@.take(i as int)),
            decreases n - i,
        {
            let d = Diagnostic {
                kind: self.diagnostics[i].kind,
                msg: self.diagnostics[i].msg.clone(),
            };
            assert(self@.take(i + 1).drop_last() =~= self@.take(i as int));
            let ghost w0 = diagnostics_view(warnings@);
            let ghost e0 = diagnostics_view(errors@);
            match d.kind {
                DiagnosticKind::Warning => {
                    warnings.push(d);
                    assert(diagnostics_view(warnings@) =~= w0.push(self@[i as int]));
                },
                DiagnosticKind::Error => {
                    errors.push(d);
                    assert(diagnostics_view(errors@) =~= e0.push(self@[i as int]));
                },
            }
            i += 1;
        }
        assert(self@.take(n as int) =~= self@);
        let ghost w0 = diagnostics_view(warnings@);
        let ghost e0 = diagnostics_view(errors@);
        warnings.append(&mut errors);
        assert(diagnostics_view(warnings@) =~= w0 + e0);
        warnings
    }

    /// Takes every diagnostic out of the bag, in display order.
    pub fn take_sorted(&mut self) -> (r: Vec<Diagnostic>)
        ensures
            diagnostics_view(r@) == sorted_view(old(self)@),
            final(self)@ == Seq::<DiagnosticView>::empty(),
    {
        let r = self.get_sorted();
        self.diagnostics.clear();
        assert(self@ =~= Seq::<DiagnosticView>::empty());
        r
    }

    /// Whether an error has been recorded.
    pub fn contains_error(&self) -> (r: bool)
        ensures
            r == has_error(self@),
    {
        let n = self.diagnostics.len();
        let mut i: usize = 0;
        while i < n
            invariant
                n == self@.len(),
                i <= n,
                forall|j: int| 0 <= j < i ==> (#[trigger] self@[j]).kind != DiagnosticKind::Error,
                self@.len() == self.diagnostics@.len(),
            decreases n - i,
        {
            if self.diagnostics[i].kind == DiagnosticKind::Error {
                assert(self@[i as int].kind == DiagnosticKind::Error);
                return true;
            }
            i += 1;
        }
        false
    }
}

} // verus!
