//! Shared clipboard between machines. Each side watches its own clipboard and sends
//! changes to the peer; text arriving from the peer is applied and remembered so the
//! watcher doesn't echo it straight back.
use vstd::prelude::*;

use crate::text::same_text;

verus! {

/// The last clipboard text that was synced (sent or received), and the change counter
/// at the last look.
#[derive(Debug)]
pub struct ClipState {
    pub last: String,
    pub seq: i64,
}

/// The watcher sends the clipboard's text, given the text that was synced last.
pub open spec fn sent(last: Seq<char>, clipboard: Seq<char>) -> bool {
    clipboard.len() > 0 && clipboard != last
}

/// Nothing was synced yet.
pub fn new_state() -> (r: ClipState)
    ensures
        r.last@ == Seq::<char>::empty(),
        r.seq == 0,
{
    ClipState { last: String::new(), seq: 0 }
}

impl ClipState {
    /// Starts watching at the current clipboard, so nothing is sent just because the
    /// program started.
    pub fn seed(&mut self, current: Option<String>, seq: i64)
        ensures
            final(self).seq == seq,
            match current {
                Some(t) => final(self).last@ == t@,
                None => final(self).last@ == old(self).last@,
            },
    {
        if let Some(t) = current {
            self.last = t;
        }
        self.seq = seq;
    }

    /// Has the change counter moved since the last look? The whole clipboard is only
    /// read when it has.
    pub fn moved(&mut self, seq: i64) -> (r: bool)
        ensures
            r == (seq != old(self).seq),
            final(self).seq == seq,
            final(self).last@ == old(self).last@,
    {
        let changed: bool = seq != self.seq;
        self.seq = seq;
        changed
    }

    /// The text to send, given the clipboard after a change: nothing for an empty
    /// clipboard, nor for the text that was synced last.
    pub fn watch(&mut self, current: Option<String>) -> (r: Option<String>)
        ensures
            final(self).seq == old(self).seq,
            match current {
                Some(t) => if sent(old(self).last@, t@) {
                    r matches Some(s) && s@ == t@ && final(self).last@ == t@
                } else {
                    r is None && final(self).last@ == old(self).last@
                },
                None => r is None && final(self).last@ == old(self).last@,
            },
    {
        match current {
            Some(t) => {
                if t.as_str().is_empty() || same_text(t.as_str(), self.last.as_str()) {
                    return None;
                }
                self.last = t.clone();
                Some(t)
            },
            None => None,
        }
    }

    /// Takes in text received from the peer. Returns whether it is to be put on the
    /// clipboard: not if it already matches what was synced last.
    pub fn apply_remote(&mut self, text: &str) -> (r: bool)
        ensures
            r == (text@ != old(self).last@),
            final(self).last@ == text@,
            final(self).seq == old(self).seq,
    {
        if same_text(text, self.last.as_str()) {
            return false;
        }
        self.last = text.to_owned();
        true
    }
}

/// Text from the peer is never echoed: once it was applied, the watcher finds it on
/// the clipboard and sends nothing.
pub proof fn law_remote_text_is_not_echoed(text: Seq<char>)
    ensures
        !sent(text, text),
{
}

} // verus!
