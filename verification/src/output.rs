//! An append-only message log with an edge-triggered "new content" flag.

use vstd::prelude::*;

verus! {

/// Messages produced by dispatch and by handlers, in call order, plus a flag
/// that is set on every append and cleared by [`OutputBuffer::take_dirty`].
///
/// Invariant: `dirty` is true iff at least one message has been appended since
/// the flag was last read and cleared.
pub struct OutputBuffer {
    /// The messages, oldest first.
    pub messages: Vec<String>,
    /// Whether anything was appended since the last `take_dirty`.
    pub dirty: bool,
}

/// One message was appended: the log grows by `m` and the flag is set.
pub open spec fn appended(pre: OutputBuffer, post: OutputBuffer, m: String) -> bool {
    &&& post.messages@ == pre.messages@.push(m)
    &&& post.dirty
}

/// The flag was read and cleared: `r` reports the old flag, the log is kept.
pub open spec fn drained(pre: OutputBuffer, post: OutputBuffer, r: bool) -> bool {
    &&& r == pre.dirty
    &&& !post.dirty
    &&& post.messages == pre.messages
}

impl OutputBuffer {
    /// An empty buffer with the flag clear.
    pub fn new() -> (r: OutputBuffer)
        ensures
            r.messages@.len() == 0,
            !r.dirty,
    {
        OutputBuffer { messages: Vec::new(), dirty: false }
    }

    /// Append one message and set the flag.
    pub fn append(&mut self, message: String)
        ensures
            appended(*old(self), *final(self), message),
    {
        self.messages.push(message);
        self.dirty = true;
    }

    /// Read and clear the flag; the messages are untouched.
    pub fn take_dirty(&mut self) -> (r: bool)
        ensures
            drained(*old(self), *final(self), r),
    {
        let r = self.dirty;
        self.dirty = false;
        r
    }

    /// Drop all messages and clear the flag.
    pub fn clear(&mut self)
        ensures
            final(self).messages@.len() == 0,
            !final(self).dirty,
    {
        self.messages.clear();
        self.dirty = false;
    }
}

/// One message with the given characters was appended and the flag set.
pub open spec fn pushed_msg(pre: OutputBuffer, post: OutputBuffer, m: Seq<char>) -> bool {
    &&& post.messages.deep_view() == pre.messages.deep_view().push(m)
    &&& post.dirty
}

/// The buffer is untouched.
pub open spec fn same_output(pre: OutputBuffer, post: OutputBuffer) -> bool {
    post.messages == pre.messages && post.dirty == pre.dirty
}

/// An append is a push of the message's characters.
pub proof fn lemma_appended_pushed(pre: OutputBuffer, post: OutputBuffer, m: String)
    requires
        appended(pre, post, m),
    ensures
        pushed_msg(pre, post, m@),
{
    assert(post.messages.deep_view() =~= pre.messages.deep_view().push(m@));
}

/// Law: the flag reports new content exactly once per batch of appends. After
/// any append, the next read returns true; a second read with nothing appended
/// in between returns false.
pub proof fn lemma_dirty_edge_triggered(
    b0: OutputBuffer,
    b1: OutputBuffer,
    m: String,
    b2: OutputBuffer,
    r2: bool,
    b3: OutputBuffer,
    r3: bool,
)
    requires
        appended(b0, b1, m),
        drained(b1, b2, r2),
        drained(b2, b3, r3),
    ensures
        r2,
        !r3,
        b3.messages == b1.messages,
{
}

/// Law: an append after a read arms the flag again, whatever came before.
pub proof fn lemma_dirty_rearmed(
    b0: OutputBuffer,
    r0: bool,
    b1: OutputBuffer,
    m: String,
    b2: OutputBuffer,
)
    requires
        drained(b0, b1, r0),
        appended(b1, b2, m),
    ensures
        b2.dirty,
        b2.messages@ == b0.messages@.push(m),
{
}

} // verus!
