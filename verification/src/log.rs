//! The output log: an append-only, ordered buffer of captured subprocess
//! lines tagged by stream origin, with a monotonic cursor for consumed-lines
//! bookkeeping.

use vstd::prelude::*;

verus! {

/// A single log line from the subprocess.
#[derive(Clone, Debug)]
pub struct LogLine {
    pub text: String,
    pub is_stderr: bool,
}

/// Mathematical model of a [`LogLine`].
pub struct LogLineV {
    pub text: Seq<char>,
    pub is_stderr: bool,
}

impl View for LogLine {
    type V = LogLineV;

    open spec fn view(&self) -> LogLineV {
        LogLineV { text: self.text@, is_stderr: self.is_stderr }
    }
}

impl DeepView for LogLine {
    type V = LogLineV;

    open spec fn deep_view(&self) -> LogLineV {
        self.view()
    }
}

impl LogLine {
    /// Build a line from its parts.
    pub fn new(text: String, is_stderr: bool) -> (r: LogLine)
        ensures
            r@.text == text@,
            r@.is_stderr == is_stderr,
    {
        LogLine { text, is_stderr }
    }

    /// An equal copy of the line.
    pub fn duplicate(&self) -> (r: LogLine)
        ensures
            r@ == self@,
    {
        LogLine { text: self.text.clone(), is_stderr: self.is_stderr }
    }
}

/// Append-only ordered sequence of output lines, with a cursor marking how
/// far the consumer has read.
pub struct OutputLog {
    pub lines: Vec<LogLine>,
    pub cursor: usize,
}

impl OutputLog {
    /// The cursor never runs past the end of the buffer.
    pub open spec fn wf(&self) -> bool {
        self.cursor <= self.lines@.len()
    }

    /// An empty log.
    pub fn new() -> (r: OutputLog)
        ensures
            r.lines.deep_view() == Seq::<LogLineV>::empty(),
            r.cursor == 0,
            r.wf(),
    {
        let r = OutputLog { lines: Vec::new(), cursor: 0 };
        proof {
            assert(r.lines.deep_view() =~= Seq::<LogLineV>::empty());
        }
        r
    }

    /// Append one captured line; already-consumed bookkeeping is unchanged.
    pub fn push(&mut self, line: LogLine)
        requires
            old(self).wf(),
        ensures
            final(self).lines.deep_view() == old(self).lines.deep_view().push(line@),
            final(self).cursor == old(self).cursor,
            final(self).wf(),
    {
        self.lines.push(line);
        proof {
            assert(self.lines.deep_view() =~= old(self).lines.deep_view().push(line@));
        }
    }

    /// Return the lines appended since the last call, advancing the cursor
    /// past them. Never returns an already-consumed line, and never skips one.
    pub fn take_new(&mut self) -> (r: Vec<LogLine>)
        requires
            old(self).wf(),
        ensures
            r.deep_view() == old(self).lines.deep_view().skip(old(self).cursor as int),
            final(self).lines.deep_view() == old(self).lines.deep_view(),
            final(self).cursor == final(self).lines@.len(),
            final(self).wf(),
    {
        let mut r: Vec<LogLine> = Vec::new();
        let n = self.lines.len();
        let mut i: usize = self.cursor;
        proof {
            assert(r.deep_view() =~= self.lines.deep_view().subrange(
                old(self).cursor as int,
                i as int,
            ));
        }
        while i < n
            invariant
                old(self).cursor <= i <= n,
                n == self.lines@.len(),
                self == old(self),
                r.deep_view() =~= self.lines.deep_view().subrange(old(self).cursor as int, i as int),
            decreases n - i,
        {
            let ghost r_prev = r.deep_view();
            r.push(self.lines[i].duplicate());
            i = i + 1;
            proof {
                assert(r.deep_view() =~= r_prev.push(self.lines.deep_view()[i - 1]));
                assert(self.lines.deep_view().subrange(old(self).cursor as int, i as int)
                    =~= self.lines.deep_view().subrange(
                    old(self).cursor as int,
                    i - 1,
                ).push(self.lines.deep_view()[i - 1]));
            }
        }
        self.cursor = n;
        proof {
            assert(r.deep_view() =~= old(self).lines.deep_view().skip(old(self).cursor as int));
        }
        r
    }

    /// Discard all lines and reset the cursor, so that a retried stage starts
    /// with a log holding nothing of the prior attempt.
    pub fn clear(&mut self)
        ensures
            final(self).lines.deep_view() == Seq::<LogLineV>::empty(),
            final(self).cursor == 0,
            final(self).wf(),
    {
        self.lines.clear();
        self.cursor = 0;
        proof {
            assert(self.lines.deep_view() =~= Seq::<LogLineV>::empty());
        }
    }

    /// Number of captured lines.
    pub fn len(&self) -> (r: usize)
        ensures
            r == self.lines@.len(),
    {
        self.lines.len()
    }
}

} // verus!
