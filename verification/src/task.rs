//! A result slot for one unit of background work: the worker completes it
//! once, and the owner's poll takes the result out on a later tick. The
//! scheduling itself (threads, futures) lives with the embedding application;
//! this type carries the handed-back value and its completion state.

use vstd::prelude::*;

verus! {

/// Holds the result of one asynchronous unit of work, once it has arrived.
#[derive(Debug, Clone)]
pub struct TaskWrapper<T> {
    pub result: Option<T>,
}

impl<T> TaskWrapper<T> {
    /// An empty slot: no result has arrived yet.
    pub fn new() -> (t: TaskWrapper<T>)
        ensures
            t.result is None,
    {
        TaskWrapper { result: None }
    }

    /// Deliver the work's result; the slot then reports finished.
    pub fn complete(&mut self, value: T)
        ensures
            final(self).result == Some(value),
    {
        self.result = Some(value);
    }

    /// Non-blocking poll: whether the result has arrived.
    pub fn is_finished(&self) -> (r: bool)
        ensures
            r == (self.result is Some),
    {
        self.result.is_some()
    }

    /// Take the result out, leaving the slot empty; `None` when the work has
    /// not completed yet.
    pub fn take(&mut self) -> (r: Option<T>)
        ensures
            r == old(self).result,
            final(self).result is None,
    {
        self.result.take()
    }
}

} // verus!
