//! Assembly of CRLF-terminated lines from the bytes of a connection.

use vstd::prelude::*;

verus! {

/// Whether `s` ends with the two bytes `\r\n`.
pub open spec fn ends_crlf(s: Seq<u8>) -> bool {
    s.len() >= 2 && s[s.len() - 2] == 13u8 && s[s.len() - 1] == 10u8
}

/// The bytes of a line not yet terminated. No length limit is imposed.
pub struct LineReader {
    pending: Vec<u8>,
}

impl LineReader {
    /// The bytes received since the last complete line.
    pub closed spec fn pending(&self) -> Seq<u8> {
        self.pending@
    }

    /// What is pending never holds a finished line.
    pub closed spec fn wf(&self) -> bool {
        !ends_crlf(self.pending@)
    }

    /// A reader with nothing pending.
    pub fn new() -> (r: LineReader)
        ensures
            r.wf(),
            r.pending() == Seq::<u8>::empty(),
    {
        LineReader { pending: Vec::new() }
    }

    /// Whether bytes of an unfinished line are pending (a close now loses them).
    pub fn has_pending(&self) -> (r: bool)
        ensures
            r == (self.pending().len() > 0),
    {
        self.pending.len() > 0
    }

    /// Takes one byte. When it completes a line (the pending bytes then end with
    /// `\r\n`), that line, terminator included, is returned and nothing stays pending.
    pub fn push_byte(&mut self, b: u8) -> (r: Option<Vec<u8>>)
        requires
            old(self).wf(),
        ensures
            final(self).wf(),
            ends_crlf(old(self).pending().push(b)) ==> (r matches Some(l) && l@ == old(
                self,
            ).pending().push(b)) && final(self).pending() == Seq::<u8>::empty(),
            !ends_crlf(old(self).pending().push(b)) ==> r is None && final(self).pending()
                == old(self).pending().push(b),
    {
        self.pending.push(b);
        let n = self.pending.len();
        if n >= 2 && self.pending[n - 2] == 13u8 && self.pending[n - 1] == 10u8 {
            let line = self.pending.clone();
            self.pending = Vec::new();
            Some(line)
        } else {
            None
        }
    }
}

} // verus!
