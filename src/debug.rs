//! A canvas wrapper that keeps a log of the calls made through it.
use vstd::prelude::*;

verus! {

/// Wraps a canvas and keeps one line of log per call.
#[derive(Debug)]
pub struct Dbg<T> {
    pub logs: Vec<String>,
    pub inner: T,
}

impl<T> Dbg<T> {
    pub fn new(inner: T) -> (d: Dbg<T>)
        ensures
            d.inner == inner,
            d.logs@.len() == 0,
    {
        Dbg { logs: Vec::new(), inner }
    }

    /// The wrapped canvas.
    pub fn into_inner(self) -> (r: T)
        ensures
            r == self.inner,
    {
        self.inner
    }

    /// Appends a line to the log.
    pub fn record(&mut self, line: String)
        ensures
            final(self).logs@ == old(self).logs@.push(line),
            final(self).inner == old(self).inner,
    {
        self.logs.push(line);
    }

    /// The number of lines logged so far.
    pub fn count(&self) -> (r: usize)
        ensures
            r == self.logs@.len(),
    {
        self.logs.len()
    }
}

} // verus!
