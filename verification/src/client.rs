use vstd::prelude::*;

use crate::text::{contains, contains_seq, trim, trimmed};

verus! {

/// How the command-line client shows an answer of the store.
#[derive(Debug, Clone, Copy, PartialEq, Eq, Structural)]
pub enum ResponseKind {
    /// `undefined`: the key is absent (shown dimmed).
    Undefined,
    /// The answer mentions `ERR` or `WARN` (shown in red).
    Error,
    /// The answer mentions `OK` (shown in green).
    Success,
    /// Anything else (shown as is).
    Plain,
}

/// The kind of an answer, after trimming it.
pub open spec fn response_kind(t: Seq<char>) -> ResponseKind {
    if t == "undefined"@ {
        ResponseKind::Undefined
    } else if contains_seq(t, "ERR"@) || contains_seq(t, "WARN"@) {
        ResponseKind::Error
    } else if contains_seq(t, "OK"@) {
        ResponseKind::Success
    } else {
        ResponseKind::Plain
    }
}

/// Trims an answer of the store and tells how to show it.
pub fn classify_response(resp: &str) -> (res: (ResponseKind, String))
    ensures
        res.1@ == trimmed(resp@),
        res.0 == response_kind(trimmed(resp@)),
{
    let t = trim(resp);
    let kind = if t == String::from_str("undefined") {
        ResponseKind::Undefined
    } else if contains(t.as_str(), "ERR") || contains(t.as_str(), "WARN") {
        ResponseKind::Error
    } else if contains(t.as_str(), "OK") {
        ResponseKind::Success
    } else {
        ResponseKind::Plain
    };
    (kind, t)
}

/// Commands typed in the client, with a cursor for browsing them.
pub struct History {
    pub cmds: Vec<String>,
    pub pos: usize,
}

/// Where the cursor goes when browsing in direction `dir` (0 back, 1 forward).
pub open spec fn browse_pos(h: History, dir: u8) -> int {
    if dir == 0 {
        h.pos - 1
    } else if dir == 1 && h.pos != h.cmds@.len() {
        h.pos + 1
    } else {
        h.pos as int
    }
}

/// Browsing stays put at the first command going forward.
pub open spec fn browse_blocked(h: History, dir: u8) -> bool {
    h.pos == 1 && dir == 1
}

impl History {
    pub fn init() -> (res: History)
        ensures
            res.cmds@.len() == 0,
            res.pos == 0,
    {
        History { cmds: Vec::new(), pos: 0 }
    }

    /// Records a command and moves the cursor past it.
    pub fn append(&mut self, cmd: String)
        requires
            old(self).pos < usize::MAX,
        ensures
            final(self).cmds@ == old(self).cmds@.push(cmd),
            final(self).pos == old(self).pos + 1,
    {
        self.cmds.push(cmd);
        self.pos = self.pos + 1;
    }

    /// Moves the cursor one command back (`dir == 0`) or forward
    /// (`dir == 1`) and reads the command there.
    pub fn fetch_update(&mut self, dir: u8, buf: String)
        requires
            !browse_blocked(*old(self), dir) ==> 1 <= browse_pos(*old(self), dir) <= old(
                self,
            ).cmds@.len(),
        ensures
            final(self).cmds@ == old(self).cmds@,
            final(self).pos == if browse_blocked(*old(self), dir) {
                old(self).pos as int
            } else {
                browse_pos(*old(self), dir)
            },
    {
        let mut buf = buf;
        if self.pos == 1 && dir == 1 {
            return ;
        }
        if dir == 0 {
            self.pos = self.pos - 1;
        } else if dir == 1 && self.pos != self.cmds.len() {
            self.pos = self.pos + 1;
        }
        buf = self.cmds[self.pos - 1].clone();
    }

    /// Puts the cursor after the last command.
    pub fn pos_end(&mut self)
        ensures
            final(self).cmds@ == old(self).cmds@,
            final(self).pos == old(self).cmds@.len(),
    {
        self.pos = self.cmds.len();
    }
}

} // verus!
