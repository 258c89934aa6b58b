//! Lines for the log. The library decides what is logged and how loudly;
//! writing the line out is left to the program around it.

use vstd::prelude::*;

verus! {

/// How loud a line is.
#[derive(Clone, Copy, Debug, PartialEq, Eq, Structural)]
pub enum Level {
    Trace,
    Info,
    Warn,
    Error,
}

/// One line for the log.
#[derive(Clone, Debug, PartialEq, Eq)]
pub struct LogLine {
    pub level: Level,
    pub text: String,
}

/// A `LogLine` as plain values.
pub struct LogLineView {
    pub level: Level,
    pub text: Seq<char>,
}

impl View for LogLine {
    type V = LogLineView;

    open spec fn view(&self) -> LogLineView {
        LogLineView { level: self.level, text: self.text@ }
    }
}

impl LogLine {
    pub fn new(level: Level, text: String) -> (line: LogLine)
        ensures
            line@ == (LogLineView { level, text: text@ }),
    {
        LogLine { level, text }
    }
}

} // verus!
