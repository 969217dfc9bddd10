//! The message log shown to the user.
use crate::events::EventSource;
use vstd::prelude::*;

verus! {

/// What is done with a logged message.
pub enum LogAction {
    /// Not interactive: print the message.
    Print(String),
    /// Interactive: append the line to the log file, and tell the interface
    /// that the log changed.
    Record { line: String, event: EventSource },
}

/// The messages logged while running interactively.
pub struct Logger {
    pub messages: Vec<String>,
    pub is_interactive: bool,
}

impl Default for Logger {
    /// An empty log that only prints.
    fn default() -> (r: Self)
        ensures
            r.messages@.len() == 0,
            !r.is_interactive,
    {
        Logger::new(false)
    }
}

impl Logger {
    /// An empty log.
    pub fn new(is_interactive: bool) -> (r: Self)
        ensures
            r.messages@.len() == 0,
            r.is_interactive == is_interactive,
    {
        Logger { messages: Vec::new(), is_interactive }
    }

    /// Logs `msg`. When not interactive the message is only printed; otherwise
    /// it is kept, written to the log file as a line, and the interface is told.
    pub fn log(&mut self, msg: String) -> (r: LogAction)
        ensures
            final(self).is_interactive == old(self).is_interactive,
            !old(self).is_interactive ==> final(self).messages@ == old(self).messages@,
            !old(self).is_interactive ==> r == LogAction::Print(msg),
            old(self).is_interactive ==> final(self).messages@ == old(self).messages@.push(msg),
            old(self).is_interactive ==> r is Record && r->line@ == msg@.push('\n') && r->event
                == EventSource::Log,
    {
        if !self.is_interactive {
            return LogAction::Print(msg);
        }
        let mut line = msg.clone();
        crate::text::push_char(&mut line, '\n');
        self.messages.push(msg);
        LogAction::Record { line, event: EventSource::Log }
    }

    /// Removes the message at position `i`, if there are messages; tells
    /// whether the interface must be told.
    pub fn remove(&mut self, i: usize) -> (r: bool)
        requires
            old(self).messages@.len() > 0 ==> i < old(self).messages@.len(),
        ensures
            r == (old(self).messages@.len() > 0),
            r ==> final(self).messages@ == old(self).messages@.remove(i as int),
            !r ==> final(self).messages@ == old(self).messages@,
            final(self).is_interactive == old(self).is_interactive,
    {
        if self.messages.len() > 0 {
            self.messages.remove(i);
            true
        } else {
            false
        }
    }
}

} // verus!
