use vstd::prelude::*;
use crate::path::PathState;

verus! {

/// Messages beyond this many would need stream identifiers past QUIC's
/// 62-bit limit.
pub const MAX_MESSAGES: u64 = 0x1000_0000_0000_0000;

/// What the engine reports of a path when asked whether it is validated.
#[derive(Clone, Copy, Debug, PartialEq, Eq, Structural)]
pub enum PathStatus {
    /// The engine does not know the path.
    Unknown,
    /// The path exists and its validation is still in flight.
    Pending,
    Validated,
}

/// What the dispatcher asks of the caller on one activation.
#[derive(Clone, Copy, Debug, PartialEq, Eq, Structural)]
pub enum DispatchAction {
    /// Probe path `index`.
    Probe { index: usize },
    /// Send message `index`, whole and with the final flag, on `stream_id`.
    Send { index: usize, stream_id: u64 },
    /// Nothing this time.
    Wait,
    /// Every message has been sent.
    Finished,
}

/// Stream that carries message `index`.
pub open spec fn stream_id_of(index: int) -> int {
    4 * index
}

/// The decision for the pending message `next` of `n`, given what the engine
/// reports of its path, the path's own state and the number of identifiers
/// the peer still has available for probing.
pub open spec fn decide(next: int, n: int, status: PathStatus, local: PathState, dcids: int) -> DispatchAction {
    if next >= n {
        DispatchAction::Finished
    } else if local.spec_is_terminal() {
        DispatchAction::Wait
    } else if status is Unknown && dcids > 0 {
        DispatchAction::Probe { index: next as usize }
    } else if status is Validated {
        DispatchAction::Send { index: next as usize, stream_id: stream_id_of(next) as u64 }
    } else {
        DispatchAction::Wait
    }
}

/// Position of the pending message after `a`.
pub open spec fn next_after(next: int, a: DispatchAction) -> int {
    if a is Send {
        next + 1
    } else {
        next
    }
}

/// Sends messages one at a time, in order: message `i` goes out on path `i`
/// once that path is validated, and message `i + 1` is not considered before
/// message `i` has gone.
pub struct Dispatcher {
    pub n_messages: usize,
    pub next: usize,
}

impl Dispatcher {
    pub open spec fn wf(self) -> bool {
        self.next <= self.n_messages <= MAX_MESSAGES
    }

    pub fn new(n_messages: usize) -> (r: Dispatcher)
        requires
            n_messages <= MAX_MESSAGES,
        ensures
            r.wf(),
            r.n_messages == n_messages,
            r.next == 0,
    {
        Dispatcher { n_messages, next: 0 }
    }

    /// One activation for the pending message.
    pub fn step(&mut self, status: PathStatus, local: PathState, dcids: u64) -> (r: DispatchAction)
        requires
            old(self).wf(),
        ensures
            final(self).wf(),
            final(self).n_messages == old(self).n_messages,
            r == decide(
                old(self).next as int,
                old(self).n_messages as int,
                status,
                local,
                dcids as int,
            ),
            final(self).next == next_after(old(self).next as int, r),
    {
        if self.next >= self.n_messages {
            DispatchAction::Finished
        } else if local.is_terminal() {
            DispatchAction::Wait
        } else if status == PathStatus::Unknown && dcids > 0 {
            DispatchAction::Probe { index: self.next }
        } else if status == PathStatus::Validated {
            let index = self.next;
            self.next = self.next + 1;
            DispatchAction::Send { index, stream_id: (index as u64) * 4 }
        } else {
            DispatchAction::Wait
        }
    }
}

/// Activations driven by `ins` (engine report, path state, identifiers
/// available), starting at pending message `next0` of `n`: the pending
/// message afterwards and the actions taken.
pub open spec fn run(next0: int, n: int, ins: Seq<(PathStatus, PathState, int)>) -> (
    int,
    Seq<DispatchAction>,
)
    decreases ins.len(),
{
    if ins.len() == 0 {
        (next0, Seq::empty())
    } else {
        let (next, acts) = run(next0, n, ins.drop_last());
        let a = decide(next, n, ins.last().0, ins.last().1, ins.last().2);
        (next_after(next, a), acts.push(a))
    }
}

/// The (message, stream) pairs of the sends among `acts`, in order.
pub open spec fn sends(acts: Seq<DispatchAction>) -> Seq<(int, int)>
    decreases acts.len(),
{
    if acts.len() == 0 {
        Seq::empty()
    } else {
        match acts.last() {
            DispatchAction::Send { index, stream_id } => sends(acts.drop_last()).push(
                (index as int, stream_id as int),
            ),
            _ => sends(acts.drop_last()),
        }
    }
}

/// The sequential gate: over any run, the messages sent are exactly
/// `next0, next0 + 1, ...` in this order, each once, message `i` on stream
/// `4 * i`, so no stream is used twice; and a message is sent only at an
/// activation where the engine reported its path validated and the path had
/// neither failed nor closed.
pub proof fn lemma_sends_in_order(next0: int, n: int, ins: Seq<(PathStatus, PathState, int)>)
    requires
        0 <= next0 <= n <= MAX_MESSAGES,
        n <= usize::MAX,
    ensures
        next0 <= run(next0, n, ins).0 <= n,
        run(next0, n, ins).1.len() == ins.len(),
        sends(run(next0, n, ins).1) == Seq::new(
            (run(next0, n, ins).0 - next0) as nat,
            |t: int| (next0 + t, stream_id_of(next0 + t)),
        ),
        forall|a: int, b: int|
            0 <= a < b < sends(run(next0, n, ins).1).len() ==> sends(run(next0, n, ins).1)[a].1
                != sends(run(next0, n, ins).1)[b].1,
        forall|k: int|
            0 <= k < ins.len() && run(next0, n, ins).1[k] is Send ==> ins[k].0 is Validated
                && !ins[k].1.spec_is_terminal(),
    decreases ins.len(),
{
    if ins.len() > 0 {
        let pre = ins.drop_last();
        lemma_sends_in_order(next0, n, pre);
        let (next, acts) = run(next0, n, pre);
        let a = decide(next, n, ins.last().0, ins.last().1, ins.last().2);
        assert(acts.push(a).drop_last() =~= acts);
        assert(sends(acts.push(a)) =~= Seq::new(
            (run(next0, n, ins).0 - next0) as nat,
            |t: int| (next0 + t, stream_id_of(next0 + t)),
        ));
        assert forall|k: int|
            0 <= k < ins.len() && run(next0, n, ins).1[k] is Send implies ins[k].0 is Validated
                && !ins[k].1.spec_is_terminal() by {
            if k < ins.len() - 1 {
                assert(run(next0, n, ins).1[k] == acts[k]);
                assert(ins[k] == pre[k]);
            }
        }
    }
}

/// A message whose path has failed or closed is never sent, nor its path
/// probed again: while the pending message's path stays so, every activation
/// waits and the pending message does not move.
pub proof fn lemma_dead_path_blocks(next0: int, n: int, ins: Seq<(PathStatus, PathState, int)>)
    requires
        0 <= next0 < n,
        forall|k: int| 0 <= k < ins.len() ==> ins[k].1.spec_is_terminal(),
    ensures
        run(next0, n, ins).0 == next0,
        run(next0, n, ins).1 == Seq::new(ins.len(), |k: int| DispatchAction::Wait),
    decreases ins.len(),
{
    if ins.len() > 0 {
        lemma_dead_path_blocks(next0, n, ins.drop_last());
        assert(run(next0, n, ins).1 =~= Seq::new(ins.len(), |k: int| DispatchAction::Wait));
    }
}

/// With no messages the dispatcher never probes nor sends.
pub proof fn lemma_no_messages(ins: Seq<(PathStatus, PathState, int)>)
    ensures
        run(0, 0, ins).0 == 0,
        run(0, 0, ins).1 == Seq::new(ins.len(), |k: int| DispatchAction::Finished),
    decreases ins.len(),
{
    if ins.len() > 0 {
        lemma_no_messages(ins.drop_last());
        assert(run(0, 0, ins).1 =~= Seq::new(ins.len(), |k: int| DispatchAction::Finished));
    }
}

} // verus!
