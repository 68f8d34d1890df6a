//! The consumer's event loop as the interceptor knows it.
use vstd::prelude::*;

verus! {

/// The consumer's event loop, named by the id of the thread that runs it:
/// the interceptor wakes the loop by posting to that thread.
pub struct EventLoop {
    thread_id: u32,
}

impl EventLoop {
    pub closed spec fn thread(&self) -> u32 {
        self.thread_id
    }

    /// The loop run by thread `thread_id`.
    pub fn new(thread_id: u32) -> (r: Self)
        ensures
            r.thread() == thread_id,
    {
        EventLoop { thread_id: thread_id }
    }

    /// The id of the thread that runs the loop.
    pub fn get_thread_id(&self) -> (r: u32)
        ensures
            r == self.thread(),
    {
        self.thread_id
    }
}

} // verus!
