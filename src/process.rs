use vstd::prelude::*;

use crate::catalog::texts;
use crate::output::{keep_tail, OutputBuffer, OUTPUT_CAPACITY};

verus! {

/// Number of lines the channel holds before the reading side waits.
pub const CHANNEL_CAPACITY: usize = 64;

#[verifier::external_type_specification]
#[verifier::external_body]
#[verifier::reject_recursive_types(T)]
pub struct ExSyncSender<T>(std::sync::mpsc::SyncSender<T>);

#[verifier::external_type_specification]
#[verifier::external_body]
#[verifier::reject_recursive_types(T)]
pub struct ExReceiver<T>(std::sync::mpsc::Receiver<T>);

/// Relies on std::sync::mpsc::sync_channel: a bounded FIFO channel of lines.
#[verifier::external_body]
fn line_channel(bound: usize) -> (r: (std::sync::mpsc::SyncSender<String>, std::sync::mpsc::Receiver<String>)) {
    std::sync::mpsc::sync_channel(bound)
}

/// Relies on std::sync::mpsc::Receiver::try_recv: the next queued line, or
/// `None` when none is queued now or every sender is gone; it never blocks.
#[verifier::external_body]
fn try_recv_line(rx: &std::sync::mpsc::Receiver<String>) -> (r: Option<String>) {
    rx.try_recv().ok()
}

/// Relies on SyncSender's Clone: another handle onto the same channel.
#[verifier::external_body]
fn clone_sender(tx: &std::sync::mpsc::SyncSender<String>) -> (r: std::sync::mpsc::SyncSender<String>) {
    tx.clone()
}

/// The receiving end of one run's output: a bounded channel that a reader
/// fills and the window of recent lines that draining it feeds.
pub struct ChildProc {
    tx: std::sync::mpsc::SyncSender<String>,
    rx: std::sync::mpsc::Receiver<String>,
    output: OutputBuffer,
}

impl ChildProc {
    pub closed spec fn lines(&self) -> Seq<Seq<char>> {
        self.output@
    }

    pub closed spec fn wf(&self) -> bool {
        self.output.wf()
    }

    /// A fresh channel and an empty window.
    pub fn new() -> (r: ChildProc)
        ensures
            r.wf(),
            r.lines() == Seq::<Seq<char>>::empty(),
    {
        let (tx, rx) = line_channel(CHANNEL_CAPACITY);
        let child_output = OutputBuffer::new();
        ChildProc { tx: tx, rx: rx, output: child_output }
    }

    /// A sending handle for the reader of the child's output.
    pub fn sender(&self) -> std::sync::mpsc::SyncSender<String> {
        clone_sender(&self.tx)
    }

    /// The buffered output, oldest line first.
    pub fn output(&self) -> (r: &OutputBuffer)
        ensures
            r@ == self.lines(),
            r.wf() == self.wf(),
    {
        &self.output
    }

    /// Moves the lines queued now, at most one channel's worth, into the
    /// window in the order they arrived, without waiting; returns them.
    pub fn drain(&mut self) -> (received: Vec<String>)
        requires
            old(self).wf(),
        ensures
            final(self).wf(),
            received@.len() <= CHANNEL_CAPACITY,
            final(self).lines() == keep_tail(
                old(self).lines() + texts(received@),
                OUTPUT_CAPACITY as nat,
            ),
    {
        let mut received: Vec<String> = Vec::new();
        let mut open = true;
        while open && received.len() < CHANNEL_CAPACITY
            invariant
                received@.len() <= CHANNEL_CAPACITY,
            decreases CHANNEL_CAPACITY - received@.len() + if open { 1int } else { 0int },
        {
            match try_recv_line(&self.rx) {
                Some(line) => received.push(line),
                None => open = false,
            }
        }
        self.output.push_all(received.clone());
        received
    }
}

} // verus!
