//! The application log: every message meant for the user goes to a queue
//! that the console windows drain, rather than to the terminal.

use vstd::prelude::*;

verus! {

/// Messages waiting to be shown, oldest first.
pub struct LogQueue {
    pub messages: Vec<String>,
}

impl LogQueue {
    /// An empty log.
    pub fn new() -> (q: LogQueue)
        ensures
            q.messages@.len() == 0,
    {
        LogQueue { messages: Vec::new() }
    }

    /// Adds a line to the log.
    pub fn log(&mut self, message: String)
        ensures
            final(self).messages@ == old(self).messages@.push(message),
    {
        self.messages.push(message);
    }

    /// Removes and returns every waiting message, in the order they were
    /// added.
    pub fn drain(&mut self) -> (v: Vec<String>)
        ensures
            v@ == old(self).messages@,
            final(self).messages@.len() == 0,
    {
        let mut taken: Vec<String> = Vec::new();
        std::mem::swap(&mut taken, &mut self.messages);
        taken
    }
}

} // verus!
