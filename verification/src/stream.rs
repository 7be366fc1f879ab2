//! The stage interface every pipeline stage implements — push a line,
//! ask whether the consumer still wants input, close — and the stage at
//! the very end of a pipeline, which prints to standard output.

use std::io::Write;
use vstd::prelude::*;

verus! {

/// One line of stream payload.
pub type Line = String;

/// The synchronous stage interface: the pipe's foreground handle presents
/// it upstream, and the sink behind a pipe forwards to the next stage
/// through it.
pub trait Stream {
    fn write_line(&mut self, line: Line);

    fn rclosed(&mut self) -> bool;

    fn close(&mut self);
}

/// A reusable recipe for a stage: each call of `stream` builds one fresh
/// stage, so a pipeline description can be run any number of times.
pub struct StreamWrapper<F>(pub F);

impl<S: Stream, F: Fn() -> S> StreamWrapper<F> {
    pub fn new(f: F) -> (r: Self)
        ensures
            r.0 == f,
    {
        StreamWrapper(f)
    }

    /// Build one stage from the recipe.
    pub fn stream(&self) -> (r: S)
        requires
            call_requires(self.0, ()),
        ensures
            call_ensures(self.0, (), r),
    {
        (self.0)()
    }
}

/// Relies on `writeln!` to `std::io::stdout`: prints the line followed by
/// a newline, reporting whether writing succeeded. Nothing can be
/// promised of the attempt itself.
#[verifier::external_body]
fn stdout_write_line(line: &String) -> Result<(), ()> {
    match writeln!(std::io::stdout(), "{}", line) {
        Ok(()) => Ok(()),
        Err(_) => Err(()),
    }
}

/// Relies on `std::io::Write::flush` on standard output.
#[verifier::external_body]
fn stdout_flush() -> Result<(), ()> {
    match std::io::stdout().flush() {
        Ok(()) => Ok(()),
        Err(_) => Err(()),
    }
}

/// The terminal stage: writes every line to standard output, and treats a
/// failed write as the downstream refusing further input.
pub struct StdoutStream {
    pub rclosed: bool,
}

impl StdoutStream {
    pub fn new() -> (r: StdoutStream)
        ensures
            !r.rclosed,
    {
        StdoutStream { rclosed: false }
    }

    /// Record a failed downstream operation as rejection; the flag is
    /// one-way.
    fn maybe_rclosed<T, E>(&mut self, r: Result<T, E>)
        ensures
            final(self).rclosed == (old(self).rclosed || r is Err),
    {
        match r {
            Err(_) => {
                self.rclosed = true;
            },
            Ok(_) => {},
        }
    }
}

impl Stream for StdoutStream {
    fn write_line(&mut self, line: Line)
        ensures
            old(self).rclosed ==> final(self).rclosed,
    {
        let r = stdout_write_line(&line);
        self.maybe_rclosed(r);
    }

    fn rclosed(&mut self) -> (r: bool)
        ensures
            r == old(self).rclosed,
            *final(self) == *old(self),
    {
        self.rclosed
    }

    fn close(&mut self)
        ensures
            old(self).rclosed ==> final(self).rclosed,
    {
        // Flushing is all closing standard output can do; the process is
        // expected to finish soon anyway.
        let r = stdout_flush();
        self.maybe_rclosed(r);
    }
}

} // verus!
