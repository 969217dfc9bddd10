//! The messages shown to the user in the interface, numbered in the order
//! they came.
use crate::text::{append_decimal, append_str, decimal};
use vstd::prelude::*;

verus! {

/// A message as listed: its number, a colon and a space, and the text.
pub open spec fn numbered(n: nat, msg: Seq<char>) -> Seq<char> {
    decimal(n) + ": "@ + msg
}

/// The messages shown to the user.
pub struct Messages {
    pub messages: Vec<String>,
    /// Whether the list has to be redrawn.
    pub has_changed: bool,
    pub is_interactive: bool,
}

impl Messages {
    /// No message yet.
    pub fn new(is_interactive: bool) -> (r: Self)
        ensures
            r.messages@.len() == 0,
            !r.has_changed,
            r.is_interactive == is_interactive,
    {
        Messages { messages: Vec::new(), has_changed: false, is_interactive }
    }

    /// Adds `msg`, numbered by how many messages there were, when running
    /// interactively; otherwise nothing is kept and `msg` is handed back to
    /// be printed.
    pub fn push(&mut self, msg: String) -> (r: Option<String>)
        ensures
            final(self).is_interactive == old(self).is_interactive,
            !old(self).is_interactive ==> r == Some(msg),
            !old(self).is_interactive ==> final(self).messages@ == old(self).messages@,
            !old(self).is_interactive ==> final(self).has_changed == old(self).has_changed,
            old(self).is_interactive ==> r is None && final(self).has_changed,
            old(self).is_interactive ==> final(self).messages@.len() == old(self).messages@.len() + 1,
            old(self).is_interactive ==> final(self).messages@.take(old(self).messages@.len() as int)
                == old(self).messages@,
            old(self).is_interactive ==> final(self).messages@.last()@ == numbered(
                old(self).messages@.len() as nat,
                msg@,
            ),
    {
        if !self.is_interactive {
            return Some(msg);
        }
        let len = self.messages.len();
        let mut line = String::new();
        append_decimal(&mut line, len as u64);
        append_str(&mut line, ": ");
        append_str(&mut line, msg.as_str());
        assert(line@ =~= numbered(len as nat, msg@));
        self.messages.push(line);
        assert(self.messages@.take(len as int) =~= old(self).messages@);
        self.has_changed = true;
        None
    }

    /// Removes the message at position `i`.
    pub fn remove(&mut self, i: usize)
        requires
            i < old(self).messages@.len(),
        ensures
            final(self).messages@ == old(self).messages@.remove(i as int),
            final(self).has_changed,
            final(self).is_interactive == old(self).is_interactive,
    {
        self.messages.remove(i);
        self.has_changed = true;
    }
}

} // verus!
