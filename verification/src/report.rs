//! Frame-level error reporting.
//!
//! A failed frame submission leaves the field buffers in their
//! last-committed state and is retried next tick; all the host owes the
//! user is a diagnostic, and only one per distinct message.  The reporter
//! remembers the last reported text (as bytes) and says whether a new
//! failure is worth printing; a successful frame clears the memory, so a
//! recurring fault is reported again after things have worked in between.

use vstd::prelude::*;

verus! {

/// Byte-wise equality of two messages.
fn bytes_equal(a: &Vec<u8>, b: &Vec<u8>) -> (r: bool)
    ensures
        r == (a@ == b@),
{
    if a.len() != b.len() {
        return false;
    }
    let n = a.len();
    let mut k: usize = 0;
    while k < n
        invariant
            k <= n,
            a@.len() == n,
            b@.len() == n,
            forall|i: int| 0 <= i < k ==> a@[i] == b@[i],
        decreases n - k,
    {
        if a[k] != b[k] {
            return false;
        }
        k = k + 1;
    }
    proof {
        assert(a@ =~= b@);
    }
    true
}

/// Deduplicating reporter for per-frame failures.
pub struct FrameReporter {
    last_error: Option<Vec<u8>>,
}

impl FrameReporter {
    /// The last reported message, if any frame has failed since the last
    /// success.
    pub closed spec fn last(&self) -> Option<Seq<u8>> {
        match self.last_error {
            Option::Some(ref v) => Option::Some(v@),
            Option::None => Option::None,
        }
    }

    pub fn new() -> (r: FrameReporter)
        ensures
            r.last() is None,
    {
        FrameReporter { last_error: None }
    }

    /// A frame was submitted successfully: forget the last error, so that
    /// the next failure is reported even if its text recurs.
    pub fn note_success(&mut self)
        ensures
            final(self).last() is None,
    {
        self.last_error = None;
    }

    /// A frame failed with `message`.  Returns true exactly when the
    /// message differs from the previously reported one and should be
    /// shown; either way the message becomes the remembered text.
    pub fn note_failure(&mut self, message: Vec<u8>) -> (report: bool)
        ensures
            final(self).last() == Option::Some(message@),
            report == (old(self).last() != Option::Some(message@)),
    {
        let is_same = match &self.last_error {
            Option::Some(prev) => bytes_equal(prev, &message),
            Option::None => false,
        };
        self.last_error = Some(message);
        !is_same
    }
}

} // verus!
