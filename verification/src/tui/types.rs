use vstd::prelude::*;

verus! {

/// How much of the tool traffic the terminal shows.
#[derive(Debug, Clone, Copy, PartialEq, Eq, Structural)]
pub enum Verbosity {
    Normal,
    Verbose,
    Trace,
}

impl Verbosity {
    pub open spec fn label_spec(self) -> Seq<char> {
        match self {
            Verbosity::Normal => "normal"@,
            Verbosity::Verbose => "verbose"@,
            Verbosity::Trace => "trace"@,
        }
    }

    pub fn label(self) -> (r: &'static str)
        ensures
            r@ == self.label_spec(),
    {
        match self {
            Verbosity::Normal => "normal",
            Verbosity::Verbose => "verbose",
            Verbosity::Trace => "trace",
        }
    }

    pub open spec fn next(self) -> Verbosity {
        match self {
            Verbosity::Normal => Verbosity::Verbose,
            Verbosity::Verbose => Verbosity::Trace,
            Verbosity::Trace => Verbosity::Normal,
        }
    }

    /// Normal, then verbose, then trace, then normal again.
    pub fn cycle(self) -> (r: Self)
        ensures
            r == self.next(),
    {
        match self {
            Verbosity::Normal => Verbosity::Verbose,
            Verbosity::Verbose => Verbosity::Trace,
            Verbosity::Trace => Verbosity::Normal,
        }
    }
}

/// Cycling three times returns to the starting verbosity.
pub proof fn lemma_cycle_period(v: Verbosity)
    ensures
        v.next().next().next() == v,
        v.next() != v,
{
}

/// A clickable stretch of a rendered line and the message it belongs to.
#[derive(Debug)]
pub struct ClickRange {
    pub line: usize,
    pub col_start: usize,
    pub col_end: usize,
    pub msg_index: usize,
}

} // verus!
