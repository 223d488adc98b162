//! The terminal that a progress line is drawn on, as far as the drawing
//! has to know it: whether a line is standing that must be erased before
//! other output, and how wide the terminal is.
use vstd::prelude::*;
use vstd::string::*;

verus! {

/// The width of the terminal.
#[derive(Debug, Clone, Copy, PartialEq, Eq, Structural)]
pub enum TtyWidth {
    /// The width in columns.
    Known(usize),
}

/// The state of the terminal that belongs to one renderer.
#[derive(Debug, Clone, Copy, PartialEq, Eq, Structural)]
pub struct Shell {
    /// A progress line is standing and has to be erased before other
    /// output.
    pub needs_clear: bool,
    /// Whether status headers are printed.
    pub quiet: bool,
}

/// What a call asks to be written to the terminal.
#[derive(Debug, Clone, PartialEq, Eq)]
pub struct ShellOutput {
    /// Erase the current line first.
    pub erase_line: bool,
    /// The text to print, if any.
    pub text: Option<String>,
}

/// The control sequence that erases the current line from the cursor on.
pub open spec fn erase_sequence() -> Seq<char> {
    "\x1B[K"@
}

/// A status header: the status between two pairs of equals signs, and a
/// line feed.
pub open spec fn header_spec(status: Seq<char>) -> Seq<char> {
    "=="@ + status + "==\n"@
}

impl TtyWidth {
    /// The width in columns; `_def` would stand in where none is known.
    pub fn size(self, _def: usize) -> (columns: usize)
        ensures
            self == TtyWidth::Known(columns),
    {
        match self {
            TtyWidth::Known(u) => u,
        }
    }
}

/// The width of the terminal that errors are written to: 80 columns.
pub fn err_width() -> (width: TtyWidth)
    ensures
        width == TtyWidth::Known(80),
{
    TtyWidth::Known(80)
}

impl Shell {
    /// A terminal with nothing to erase.
    pub fn new() -> (shell: Shell)
        ensures
            shell == (Shell { needs_clear: false, quiet: false }),
    {
        Shell { needs_clear: false, quiet: false }
    }

    /// Notes whether a progress line is standing.
    pub fn set_needs_clear(&mut self, needs_clear: bool)
        ensures
            *final(self) == (Shell { needs_clear, ..*old(self) }),
    {
        self.needs_clear = needs_clear;
    }

    /// No progress line is standing.
    pub fn is_cleared(&self) -> (cleared: bool)
        ensures
            cleared == !self.needs_clear,
    {
        !self.needs_clear
    }

    /// The header to print for `status`. Without the quiet flag nothing
    /// is printed and nothing changes. With it, a standing progress line
    /// is erased first and the header follows.
    pub fn status_header(&mut self, status: &str) -> (output: ShellOutput)
        ensures
            final(self).quiet == old(self).quiet,
            final(self).needs_clear == (old(self).needs_clear && !old(self).quiet),
            output.erase_line == (old(self).quiet && old(self).needs_clear),
            match output.text {
                Some(text) => old(self).quiet && text@ == header_spec(status@),
                None => !old(self).quiet,
            },
    {
        if !self.quiet {
            return ShellOutput { erase_line: false, text: None };
        }
        let erase_line = self.needs_clear;
        self.needs_clear = false;
        let mut text = String::from_str("==");
        text.append(status);
        text.append("==\n");
        ShellOutput { erase_line, text: Some(text) }
    }

    /// The width of the terminal that errors are written to.
    pub fn err_width(&self) -> (width: TtyWidth)
        ensures
            width == TtyWidth::Known(80),
    {
        err_width()
    }

    /// The control sequence to write so that the current line is erased;
    /// afterwards nothing is left to erase.
    pub fn err_erase_line(&mut self) -> (sequence: String)
        ensures
            sequence@ == erase_sequence(),
            *final(self) == (Shell { needs_clear: false, ..*old(self) }),
    {
        self.needs_clear = false;
        String::from_str("\x1B[K")
    }
}

} // verus!
