//! The stream-to-queue bridge: a monitor drives external event sources
//! and routes every produced item as a job on a handle's queue; a bridge
//! may also feed a downstream stream of processed items.
//!
//! The polling threads, wakers and executors live outside the verified
//! library; here stand the decisions they carry out: what one upstream
//! poll outcome means for a bridge, and how the downstream stream's
//! lock-guarded FIFO behaves under pushes, closure and polls.

use vstd::prelude::*;
use std::collections::VecDeque;

verus! {

/// One upstream poll outcome, as the monitor sees it.
pub enum StreamEvent<T, E> {
    /// The source produced an item.
    Ready(T),
    /// The source reported an error; it is forwarded to the processor
    /// like an item, which decides whether to continue.
    Failed(E),
    /// The source has ended.
    Ended,
    /// The source is not ready; its waker will fire later.
    NotReady,
}

/// What the monitor does next with a bridge after one upstream poll.
#[derive(Clone, Copy, PartialEq, Eq, Structural, Debug)]
pub enum BridgeAction {
    /// Hand the produced item or error to the processor on the target
    /// queue, then poll again.
    Process,
    /// The bridge is finished: stop polling the source.
    Finish,
    /// Wait for the source's waker before polling again.
    Wait,
}

/// The per-bridge state the monitor keeps: whether the bridge has
/// terminated.
pub struct Bridge {
    finished: bool,
}

impl Bridge {
    /// Whether the bridge has terminated.
    pub closed spec fn is_finished(self) -> bool {
        self.finished
    }

    /// A live bridge.
    pub fn new() -> (b: Bridge)
        ensures
            !b.is_finished(),
    {
        Bridge { finished: false }
    }

    /// Whether the bridge has terminated.
    pub fn finished(&self) -> (b: bool)
        ensures
            b == self.is_finished(),
    {
        self.finished
    }

    /// Decides what one upstream poll outcome means for this bridge.
    /// An item or an error is handed to the processor; the source ending
    /// terminates the bridge, as does the downstream consumer having gone
    /// away; a source that is not ready leaves the bridge waiting for its
    /// waker.  A bridge with no downstream passes `true` for
    /// `downstream_alive`.
    pub fn step<T, E>(&mut self, event: &StreamEvent<T, E>, downstream_alive: bool) -> (action:
        BridgeAction)
        requires
            !old(self).is_finished(),
        ensures
            final(self).is_finished() == (action == BridgeAction::Finish),
            action == if !downstream_alive {
                BridgeAction::Finish
            } else {
                match event {
                    StreamEvent::<T, E>::Ready(_) => BridgeAction::Process,
                    StreamEvent::<T, E>::Failed(_) => BridgeAction::Process,
                    StreamEvent::<T, E>::Ended => BridgeAction::Finish,
                    StreamEvent::<T, E>::NotReady => BridgeAction::Wait,
                }
            },
    {
        let action = if !downstream_alive {
            BridgeAction::Finish
        } else {
            match event {
                StreamEvent::Ready(_) => BridgeAction::Process,
                StreamEvent::Failed(_) => BridgeAction::Process,
                StreamEvent::Ended => BridgeAction::Finish,
                StreamEvent::NotReady => BridgeAction::Wait,
            }
        };
        if action == BridgeAction::Finish {
            self.finished = true;
        }
        action
    }
}

/// What polling the downstream stream yields.
pub enum PipePoll<T, E> {
    /// An item was waiting at the front of the stream.
    Item(T),
    /// An error was forwarded through the stream.
    Failed(E),
    /// The upstream has closed and everything pending has been taken:
    /// no more data will be returned from this stream.
    Done,
    /// Nothing is pending; the consumer's waker was registered and fires
    /// on the next push or close.
    NotReady,
}

/// The model of the downstream stream's shared core: the pending items in
/// order, whether the upstream end has closed, and whether a consumer's
/// waker is registered.
pub struct PipeStreamView<T, E> {
    pub pending: Seq<Result<T, E>>,
    pub closed: bool,
    pub notify: bool,
}

/// A stream generated by a pipe: a lock-guarded FIFO of processed items
/// with a close flag and the consumer's waker.
pub struct PipeStream<T, E> {
    pending: VecDeque<Result<T, E>>,
    closed: bool,
    notify: bool,
}

impl<T, E> View for PipeStream<T, E> {
    type V = PipeStreamView<T, E>;

    closed spec fn view(&self) -> PipeStreamView<T, E> {
        PipeStreamView { pending: self.pending@, closed: self.closed, notify: self.notify }
    }
}

impl<T, E> PipeStream<T, E> {
    /// Creates a new, empty, open pipe stream with no waker registered.
    pub fn new() -> (s: PipeStream<T, E>)
        ensures
            s@.pending.len() == 0,
            !s@.closed,
            !s@.notify,
    {
        PipeStream { pending: VecDeque::new(), closed: false, notify: false }
    }

    /// Appends one processed item (or forwarded error) at the back of the
    /// stream; the result says whether a consumer's waker was registered
    /// and must now be fired.  The bridge stops pushing once the stream
    /// has closed.
    pub fn push_item(&mut self, item: Result<T, E>) -> (was_waiting: bool)
        requires
            !old(self)@.closed,
        ensures
            final(self)@.pending == old(self)@.pending.push(item),
            final(self)@.closed == old(self)@.closed,
            !final(self)@.notify,
            was_waiting == old(self)@.notify,
    {
        self.pending.push_back(item);
        let was_waiting = self.notify;
        self.notify = false;
        was_waiting
    }

    /// Marks the upstream as ended; pending items can still be taken.
    /// The result says whether a consumer's waker must now be fired.
    pub fn close(&mut self) -> (was_waiting: bool)
        requires
            !old(self)@.closed,
        ensures
            final(self)@.pending == old(self)@.pending,
            final(self)@.closed,
            !final(self)@.notify,
            was_waiting == old(self)@.notify,
    {
        self.closed = true;
        let was_waiting = self.notify;
        self.notify = false;
        was_waiting
    }

    /// Polls the stream as its consumer: the front item if one is
    /// waiting, the end of the stream once it has closed and drained, and
    /// otherwise not-ready, registering the consumer's waker.
    pub fn poll(&mut self) -> (r: PipePoll<T, E>)
        ensures
            match r {
                PipePoll::<T, E>::Item(t) => old(self)@.pending.len() > 0
                    && old(self)@.pending[0] == Ok::<T, E>(t)
                    && final(self)@ == (PipeStreamView {
                    pending: old(self)@.pending.drop_first(),
                    ..old(self)@
                }),
                PipePoll::<T, E>::Failed(e) => old(self)@.pending.len() > 0
                    && old(self)@.pending[0] == Err::<T, E>(e)
                    && final(self)@ == (PipeStreamView {
                    pending: old(self)@.pending.drop_first(),
                    ..old(self)@
                }),
                PipePoll::<T, E>::Done => old(self)@.pending.len() == 0 && old(self)@.closed
                    && final(self)@ == old(self)@,
                PipePoll::<T, E>::NotReady => old(self)@.pending.len() == 0 && !old(self)@.closed
                    && final(self)@ == (PipeStreamView { notify: true, ..old(self)@ }),
            },
    {
        match self.pending.pop_front() {
            Some(item) => match item {
                Ok(t) => PipePoll::Item(t),
                Err(e) => PipePoll::Failed(e),
            },
            None => {
                if self.closed {
                    PipePoll::Done
                } else {
                    self.notify = true;
                    PipePoll::NotReady
                }
            },
        }
    }

    /// What the consumer dropping its end does to the shared core: the
    /// pending items are flushed; the bridge then terminates on the next
    /// upstream item.
    pub fn abandon(&mut self)
        ensures
            final(self)@.pending.len() == 0,
            final(self)@.closed == old(self)@.closed,
            final(self)@.notify == old(self)@.notify,
    {
        self.pending.clear();
    }
}

/// Items flow through the downstream stream in order: pushing an item
/// and polling later yields the pushed items first-in first-out, and
/// `Done` comes only once the stream has closed and drained.
pub proof fn lemma_pipe_stream_fifo<T, E>(s: PipeStreamView<T, E>, a: Result<T, E>, b: Result<
    T,
    E,
>)
    requires
        s.pending.len() == 0,
    ensures
        s.pending.push(a).push(b)[0] == a,
        s.pending.push(a).push(b).drop_first()[0] == b,
        s.pending.push(a).push(b).drop_first().drop_first().len() == 0,
{
    assert(s.pending.push(a).push(b).drop_first() =~= seq![b]);
    assert(s.pending.push(a).push(b).drop_first().drop_first() =~= Seq::<Result<T, E>>::empty());
}

} // verus!
