//! What the commands print.

use vstd::prelude::*;

verus! {

/// A line that a command prints.
#[derive(Debug, PartialEq, Eq)]
pub enum Line {
    /// A line for the standard output.
    Stdout(String),
    /// A line for the standard error output.
    Stderr(String),
}

/// The text of a line, and whether it goes to the standard output.
#[verifier::ext_equal]
pub struct LineView {
    pub to_stdout: bool,
    pub text: Seq<char>,
}

impl View for Line {
    type V = LineView;

    open spec fn view(&self) -> LineView {
        match self {
            Line::Stdout(text) => LineView { to_stdout: true, text: text@ },
            Line::Stderr(text) => LineView { to_stdout: false, text: text@ },
        }
    }
}

/// The line `text` on the standard output.
pub open spec fn out(text: Seq<char>) -> LineView {
    LineView { to_stdout: true, text }
}

/// The line `text` on the standard error output.
pub open spec fn err(text: Seq<char>) -> LineView {
    LineView { to_stdout: false, text }
}

/// What a sequence of lines says.
pub open spec fn printed(lines: Seq<Line>) -> Seq<LineView> {
    lines.map_values(|line: Line| line@)
}

/// All lines are printed, in order, each where it belongs.
pub proof fn all_lines_are_printed(lines: Seq<Line>, text: String)
    ensures
        printed(lines).len() == lines.len(),
        forall|i: int| 0 <= i < lines.len() ==> #[trigger] printed(lines)[i] == lines[i]@,
        Line::Stdout(text)@ == out(text@),
        Line::Stderr(text)@ == err(text@),
        out(text@).to_stdout && out(text@).text == text@,
        !err(text@).to_stdout && err(text@).text == text@,
{
}

} // verus!
