//! Diagnostics and the ordered collection that rules append to.

use vstd::prelude::*;
use crate::config::Severity;

verus! {

/// One reported violation.
#[derive(Clone, Debug)]
pub struct Diagnostic {
    pub severity: Severity,
    pub rule: String,
    pub message: String,
    pub file: String,
    pub line: Option<usize>,
}

/// The mathematical content of a diagnostic.
pub struct DiagnosticView {
    pub severity: Severity,
    pub rule: Seq<char>,
    pub message: Seq<char>,
    pub file: Seq<char>,
    pub line: Option<usize>,
}

impl View for Diagnostic {
    type V = DiagnosticView;

    open spec fn view(&self) -> DiagnosticView {
        DiagnosticView {
            severity: self.severity,
            rule: self.rule@,
            message: self.message@,
            file: self.file@,
            line: self.line,
        }
    }
}

/// The diagnostics of one run, in the order they were produced.
#[derive(Debug)]
pub struct DiagnosticCollection {
    pub diagnostics: Vec<Diagnostic>,
}

impl View for DiagnosticCollection {
    type V = Seq<DiagnosticView>;

    open spec fn view(&self) -> Seq<DiagnosticView> {
        self.diagnostics@.map_values(|d: Diagnostic| d@)
    }
}

/// How many diagnostics of `s` have severity `sev`.
pub open spec fn count_severity(s: Seq<DiagnosticView>, sev: Severity) -> nat
    decreases s.len(),
{
    if s.len() == 0 {
        0
    } else {
        count_severity(s.drop_last(), sev) + if s.last().severity == sev {
            1nat
        } else {
            0nat
        }
    }
}

pub proof fn lemma_count_bounded(s: Seq<DiagnosticView>, sev: Severity)
    ensures
        count_severity(s, sev) <= s.len(),
        count_severity(s, sev) > 0 <==> exists|i: int| 0 <= i < s.len() && s[i].severity == sev,
    decreases s.len(),
{
    if s.len() > 0 {
        lemma_count_bounded(s.drop_last(), sev);
        if count_severity(s.drop_last(), sev) > 0 {
            let i = choose|i: int| 0 <= i < s.len() - 1 && s.drop_last()[i].severity == sev;
            assert(s[i].severity == sev);
        }
        assert forall|i: int| 0 <= i < s.len() - 1 && s[i].severity == sev implies count_severity(
            s.drop_last(),
            sev,
        ) > 0 by {
            assert(s.drop_last()[i].severity == sev);
        }
    }
}

impl DiagnosticCollection {
    pub fn new() -> (r: Self)
        ensures
            r@.len() == 0,
    {
        DiagnosticCollection { diagnostics: Vec::new() }
    }

    pub fn add(&mut self, diagnostic: Diagnostic)
        ensures
            final(self)@ == old(self)@.push(diagnostic@),
    {
        self.diagnostics.push(diagnostic);
        assert(self@ =~= old(self)@.push(diagnostic@));
    }

    fn count(&self, sev: Severity) -> (r: usize)
        ensures
            r == count_severity(self@, sev),
    {
        let mut n: usize = 0;
        let mut i: usize = 0;
        while i < self.diagnostics.len()
            invariant
                i <= self.diagnostics@.len(),
                n == count_severity(self@.take(i as int), sev),
                n <= i,
            decreases self.diagnostics@.len() - i,
        {
            assert(self@.take(i + 1).drop_last() =~= self@.take(i as int));
            if self.diagnostics[i].severity == sev {
                n += 1;
            }
            i += 1;
        }
        assert(self@.take(i as int) =~= self@);
        n
    }

    /// Whether any diagnostic is an error.
    pub fn has_errors(&self) -> (r: bool)
        ensures
            r == exists|i: int| 0 <= i < self@.len() && self@[i].severity == Severity::Error,
    {
        proof {
            lemma_count_bounded(self@, Severity::Error);
        }
        self.count(Severity::Error) > 0
    }

    pub fn error_count(&self) -> (r: usize)
        ensures
            r == count_severity(self@, Severity::Error),
    {
        self.count(Severity::Error)
    }

    pub fn warning_count(&self) -> (r: usize)
        ensures
            r == count_severity(self@, Severity::Warn),
    {
        self.count(Severity::Warn)
    }
}

} // verus!
