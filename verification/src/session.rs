//! What identifies a session to the app-server.

use vstd::prelude::*;
use crate::error::ThreadId;

verus! {

/// A thread and what the app-server knows it by.
#[derive(Debug)]
pub struct ThreadHandle {
    pub thread: ThreadId,
    pub harness_thread_id: String,
    pub workspace_root: String,
}

pub struct ThreadView {
    pub thread: ThreadId,
    pub harness_thread_id: Seq<char>,
    pub workspace_root: Seq<char>,
}

impl View for ThreadHandle {
    type V = ThreadView;

    open spec fn view(&self) -> ThreadView {
        ThreadView {
            thread: self.thread,
            harness_thread_id: self.harness_thread_id@,
            workspace_root: self.workspace_root@,
        }
    }
}

impl Clone for ThreadHandle {
    fn clone(&self) -> (r: ThreadHandle)
        ensures
            r@ == self@,
    {
        ThreadHandle {
            thread: self.thread,
            harness_thread_id: self.harness_thread_id.clone(),
            workspace_root: self.workspace_root.clone(),
        }
    }
}

} // verus!
