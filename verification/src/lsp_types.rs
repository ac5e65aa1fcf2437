use vstd::prelude::*;

verus! {

#[derive(Debug, Clone)]
pub enum DiagnosticSeverity {
    Error,
    Warning,
    Information,
    Hint,
}

/// A single point in the source text: zero-based line and zero-based
/// character offset within that line (counting characters, not bytes).
#[derive(Debug, Clone, Copy, PartialEq, Eq, Structural)]
pub struct Position {
    pub line: usize,
    pub character: usize,
}

/// The mathematical model of a `Position`.
pub struct SpecPos {
    pub line: nat,
    pub character: nat,
}

impl View for Position {
    type V = SpecPos;

    open spec fn view(&self) -> SpecPos {
        SpecPos { line: self.line as nat, character: self.character as nat }
    }
}

impl Position {
    pub fn new(line: usize, character: usize) -> (r: Position)
        ensures
            r.line == line,
            r.character == character,
    {
        Position { line, character }
    }
}

/// A half-open span over the source text. Every token and every node of the
/// syntax tree owns exactly one `Range` describing the text it was built
/// from.
#[derive(Debug, Clone, Copy, PartialEq, Eq, Structural)]
pub struct Range {
    pub start: Position,
    pub end: Position,
}

/// The mathematical model of a `Range`.
pub struct SpecRange {
    pub start: SpecPos,
    pub end: SpecPos,
}

impl View for Range {
    type V = SpecRange;

    open spec fn view(&self) -> SpecRange {
        SpecRange { start: self.start@, end: self.end@ }
    }
}

impl Range {
    pub fn new(start: Position, end: Position) -> (r: Range)
        ensures
            r.start == start,
            r.end == end,
    {
        Range { start, end }
    }
}

/// A diagnostic: an error or warning with a message and the source range it
/// applies to.
#[derive(Debug, Clone)]
pub struct Diagnostic {
    /// The range at which the message applies.
    pub range: Range,
    /// The diagnostic's severity.
    pub severity: DiagnosticSeverity,
    /// The diagnostic's message.
    pub message: String,
}

/// The mathematical model of a `Diagnostic`.
pub struct SpecDiagnostic {
    pub range: SpecRange,
    pub severity: DiagnosticSeverity,
    pub message: Seq<char>,
}

impl View for Diagnostic {
    type V = SpecDiagnostic;

    open spec fn view(&self) -> SpecDiagnostic {
        SpecDiagnostic { range: self.range@, severity: self.severity, message: self.message@ }
    }
}

impl Diagnostic {
    pub fn new(severity: DiagnosticSeverity, message: String, range: Range) -> (r: Diagnostic)
        ensures
            r.severity == severity,
            r.message == message,
            r.range == range,
    {
        Diagnostic { severity, message, range }
    }

    /// The label a reporter prints for the severity.
    pub fn severity_label(&self) -> (r: String)
        ensures
            r@ == spec_severity_label(self.severity),
    {
        match self.severity {
            DiagnosticSeverity::Error => String::from_str("Error"),
            DiagnosticSeverity::Warning => String::from_str("Warning"),
            DiagnosticSeverity::Information => String::from_str("Information"),
            DiagnosticSeverity::Hint => String::from_str("Hint"),
        }
    }

    /// The caret line a reporter prints under the offending source line:
    /// `start.character` spaces, then one caret per character of the range.
    #[verifier::loop_isolation(false)]
    pub fn caret_line(&self) -> (r: String)
        ensures
            r@ == spec_caret_line(self.range@),
    {
        let mut caret = String::new();
        let mut i: usize = 0;
        while i < self.range.start.character
            invariant
                i <= self.range.start.character,

                caret@ =~= Seq::new(i as nat, |k: int| ' '),
            decreases self.range.start.character - i,
        {
            caret.push(' ');
            i = i + 1;
        }
        let mut j: usize = self.range.start.character;
        while j < self.range.end.character
            invariant
                self.range.start.character <= j,
                j <= self.range.end.character || j == self.range.start.character,

                caret@ =~= Seq::new(self.range.start.character as nat, |k: int| ' ') + Seq::new(
                    (j - self.range.start.character) as nat,
                    |k: int| '^',
                ),
            decreases self.range.end.character - j,
        {
            caret.push('^');
            j = j + 1;
        }
        proof {
            assert(caret@ =~= spec_caret_line(self.range@));
        }
        caret
    }
}

pub open spec fn spec_severity_label(s: DiagnosticSeverity) -> Seq<char> {
    match s {
        DiagnosticSeverity::Error => "Error"@,
        DiagnosticSeverity::Warning => "Warning"@,
        DiagnosticSeverity::Information => "Information"@,
        DiagnosticSeverity::Hint => "Hint"@,
    }
}

/// What the caret line under a diagnostic holds: padding up to the start
/// column, then carets spanning the range (and none when the range is
/// reversed).
pub open spec fn spec_caret_line(r: SpecRange) -> Seq<char> {
    Seq::new(r.start.character, |k: int| ' ') + Seq::new(
        if r.end.character >= r.start.character {
            (r.end.character - r.start.character) as nat
        } else {
            0
        },
        |k: int| '^',
    )
}

} // verus!
