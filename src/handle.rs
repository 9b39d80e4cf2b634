use vstd::prelude::*;

verus! {

/// What polling one background task gives: still running, or finished with
/// its outcome (a success value or a failure such as a panic or a
/// cancellation).
#[derive(Debug, PartialEq, Eq)]
pub enum TaskPoll<T> {
    Pending,
    Ready(T),
}

impl<T> TaskPoll<T> {
    pub fn is_ready(&self) -> (r: bool)
        ensures
            r == (self matches TaskPoll::Ready(_)),
    {
        match self {
            TaskPoll::Pending => false,
            TaskPoll::Ready(_) => true,
        }
    }
}

/// One poll of the combined handle, with the relay task first. When the
/// relay task has finished its outcome is returned and `poll_server` is not
/// called; only while the relay task runs is the server task polled, and
/// what it gives is returned as it is.
pub fn select_first<T, F: FnOnce() -> TaskPoll<T>>(relay: TaskPoll<T>, poll_server: F) -> (r:
    TaskPoll<T>)
    requires
        relay matches TaskPoll::Pending ==> call_requires(poll_server, ()),
    ensures
        relay matches TaskPoll::Ready(_) ==> r == relay,
        relay matches TaskPoll::Pending ==> call_ensures(poll_server, (), r),
{
    match relay {
        TaskPoll::Ready(out) => TaskPoll::Ready(out),
        TaskPoll::Pending => poll_server(),
    }
}

} // verus!
