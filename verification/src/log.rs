use vstd::prelude::*;

verus! {

/// Term number of a Raft node.
pub type NodeTerm = u32;

/// Identifier of a Raft node.
pub type NodeId = u64;

/// Position in the replicated log; the first entry has index 1.
pub type LogIndex = usize;

/// A value that can be carried by the replicated log and handed to the
/// application once it is committed.
pub trait Entry {
    fn deliver(&mut self);
}

/// What a log entry asks of the state machine it is delivered to.
#[derive(Debug, Clone, Copy, PartialEq, Eq, Structural)]
pub enum Command {
    SetValue,
}

/// One entry of the replicated log: a command, its value and the term in
/// which the leader received it.
pub struct LogEntry<T> {
    pub command: Command,
    pub value: T,
    pub term: NodeTerm,
}

impl<T: Clone> Clone for LogEntry<T> {
    fn clone(&self) -> (res: Self)
        ensures
            res.command == self.command,
            res.term == self.term,
            cloned::<T>(self.value, res.value),
    {
        LogEntry { command: self.command, term: self.term, value: self.value.clone() }
    }
}

impl<T> LogEntry<T> {
    pub fn new(command: Command, value: T, term: NodeTerm) -> (res: Self)
        ensures
            res.command == command,
            res.value == value,
            res.term == term,
    {
        LogEntry { command, value, term }
    }
}

} // verus!

verus! {

/// `dst` holds, position by position, clones of the entries of `src`:
/// the same commands and terms, and values that `T::clone` may return.
pub open spec fn clones_of<T: Clone>(src: Seq<LogEntry<T>>, dst: Seq<LogEntry<T>>) -> bool {
    &&& src.len() == dst.len()
    &&& forall|i: int|
        0 <= i < src.len() ==> (#[trigger] dst[i]).command == src[i].command && dst[i].term
            == src[i].term && cloned::<T>(
            src[i].value,
            dst[i].value,
        )
}

/// Clones of the entries `lo..hi` of `log`.
pub fn clone_entries<T: Clone>(log: &Vec<LogEntry<T>>, lo: usize, hi: usize) -> (res: Vec<
    LogEntry<T>,
>)
    requires
        lo <= hi <= log.len(),
    ensures
        clones_of(log@.subrange(lo as int, hi as int), res@),
{
    let mut res: Vec<LogEntry<T>> = Vec::new();
    let mut i: usize = lo;
    while i < hi
        invariant
            lo <= i <= hi <= log.len(),
            clones_of(log@.subrange(lo as int, i as int), res@),
        decreases hi - i,
    {
        let e = log[i].clone();
        res.push(e);
        i = i + 1;
    }
    res
}

} // verus!
