use vstd::prelude::*;
use crate::dispatch::{decide, next_after, DispatchAction, Dispatcher, PathStatus, MAX_MESSAGES};
use crate::path::{drain_spec, PathAction, PathEvent, PathFault, PathState, PathTable};
use crate::pool::PathPool;

verus! {

/// Application error code of the graceful close.
pub const CLOSE_ERROR_CODE: u64 = 0;

/// Reason phrase of the graceful close.
pub open spec fn close_reason_spec() -> Seq<u8> {
    seq![0x63u8, 0x6cu8, 0x6fu8, 0x73u8, 0x69u8, 0x6eu8, 0x67u8]
}

/// The reason phrase of the graceful close, "closing".
pub fn close_reason() -> (r: Vec<u8>)
    ensures
        r@ == close_reason_spec(),
{
    let r: Vec<u8> = vec![0x63u8, 0x6cu8, 0x6fu8, 0x73u8, 0x69u8, 0x6eu8, 0x67u8];
    assert(r@ =~= close_reason_spec());
    r
}

/// Where the connection stands, as the event loop sees it.
#[derive(Clone, Copy, Debug, PartialEq, Eq, Structural)]
pub enum LoopPhase {
    Handshaking,
    Established,
    Closing,
    Closed,
}

pub open spec fn phase_spec(established: bool, closed: bool, close_requested: bool) -> LoopPhase {
    if closed {
        LoopPhase::Closed
    } else if close_requested {
        LoopPhase::Closing
    } else if established {
        LoopPhase::Established
    } else {
        LoopPhase::Handshaking
    }
}

/// The client's whole loop state: the paths, the dispatcher, which messages
/// the peer has acknowledged, and whether the graceful close was asked for.
pub struct Session {
    pub table: PathTable,
    pub dispatcher: Dispatcher,
    pub received: Vec<bool>,
    pub close_requested: bool,
}

impl Session {
    pub open spec fn wf(self) -> bool {
        &&& self.table.wf()
        &&& self.dispatcher.wf()
        &&& self.dispatcher.n_messages == self.table.pool.n_paths
        &&& self.received@.len() == self.table.pool.n_paths
    }

    /// Every message's stream was read to its end.
    pub open spec fn spec_all_acknowledged(self) -> bool {
        forall|i: int| 0 <= i < self.received@.len() ==> self.received@[i]
    }

    /// State of the path of the pending message, or Unknown when none is
    /// pending.
    pub open spec fn pending_path_state(self) -> PathState {
        if self.dispatcher.next < self.table.states@.len() {
            self.table.states@[self.dispatcher.next as int]
        } else {
            PathState::Unknown
        }
    }

    /// One message per path of `pool`, none sent or acknowledged yet.
    pub fn new(pool: PathPool) -> (r: Session)
        requires
            pool.wf(),
            pool.n_paths <= MAX_MESSAGES,
        ensures
            r.wf(),
            r.table.pool == pool,
            r.dispatcher.next == 0,
            !r.close_requested,
            forall|i: int| 0 <= i < pool.n_paths ==> !r.received@[i],
            forall|i: int| 0 <= i < pool.n_paths ==> r.table.states@[i] == PathState::Unknown,
    {
        let table = PathTable::new(pool);
        let mut received: Vec<bool> = Vec::new();
        while received.len() < pool.n_paths
            invariant
                received@.len() <= pool.n_paths,
                forall|i: int| 0 <= i < received@.len() ==> !received@[i],
            decreases pool.n_paths - received@.len(),
        {
            received.push(false);
        }
        Session { table, dispatcher: Dispatcher::new(pool.n_paths), received, close_requested: false }
    }

    pub fn phase(&self, established: bool, closed: bool) -> (r: LoopPhase)
        ensures
            r == phase_spec(established, closed, self.close_requested),
    {
        if closed {
            LoopPhase::Closed
        } else if self.close_requested {
            LoopPhase::Closing
        } else if established {
            LoopPhase::Established
        } else {
            LoopPhase::Handshaking
        }
    }

    /// Records a read on `stream_id`; when it ended the stream and the stream
    /// is the one of a message, that message is acknowledged.
    pub fn on_stream_data(&mut self, stream_id: u64, fin: bool)
        requires
            old(self).wf(),
        ensures
            final(self).wf(),
            final(self).table == old(self).table,
            final(self).dispatcher == old(self).dispatcher,
            final(self).close_requested == old(self).close_requested,
            final(self).received@ == if fin && stream_id % 4 == 0 && stream_id / 4
                < old(self).received@.len() {
                old(self).received@.update((stream_id / 4) as int, true)
            } else {
                old(self).received@
            },
    {
        if fin && stream_id % 4 == 0 {
            let i = stream_id / 4;
            if i < self.received.len() as u64 {
                self.received.set(i as usize, true);
            }
        }
    }

    pub fn all_acknowledged(&self) -> (r: bool)
        ensures
            r == self.spec_all_acknowledged(),
    {
        let mut i: usize = 0;
        while i < self.received.len()
            invariant
                i <= self.received@.len(),
                forall|j: int| 0 <= j < i ==> self.received@[j],
            decreases self.received@.len() - i,
        {
            if !self.received[i] {
                return false;
            }
            i = i + 1;
        }
        true
    }

    /// Whether to close the connection now: every message is acknowledged
    /// and the close was not asked for before. The close is asked for once.
    pub fn take_close_request(&mut self) -> (r: bool)
        requires
            old(self).wf(),
        ensures
            final(self).wf(),
            r == (old(self).spec_all_acknowledged() && !old(self).close_requested),
            final(self).close_requested == (old(self).close_requested || r),
            final(self).table == old(self).table,
            final(self).dispatcher == old(self).dispatcher,
            final(self).received == old(self).received,
    {
        if !self.close_requested && self.all_acknowledged() {
            self.close_requested = true;
            true
        } else {
            false
        }
    }

    /// One dispatcher activation, given what the engine reports of the
    /// pending message's path and the peer identifiers it has available. A
    /// probe is recorded in the path's state.
    pub fn dispatch(&mut self, status: PathStatus, dcids: u64) -> (r: DispatchAction)
        requires
            old(self).wf(),
        ensures
            final(self).wf(),
            r == decide(
                old(self).dispatcher.next as int,
                old(self).dispatcher.n_messages as int,
                status,
                old(self).pending_path_state(),
                dcids as int,
            ),
            final(self).dispatcher.next == next_after(old(self).dispatcher.next as int, r),
            final(self).table.pool == old(self).table.pool,
            final(self).table.states@ == match r {
                DispatchAction::Probe { index } => old(self).table.states@.update(
                    index as int,
                    PathState::Probing,
                ),
                _ => old(self).table.states@,
            },
            final(self).received == old(self).received,
            final(self).close_requested == old(self).close_requested,
    {
        let local = if self.dispatcher.next < self.table.states.len() {
            self.table.state(self.dispatcher.next)
        } else {
            PathState::Unknown
        };
        let r = self.dispatcher.step(status, local, dcids);
        if let DispatchAction::Probe { index } = r {
            self.table.mark_probing(index);
        }
        r
    }

    /// Handles the path events the engine queued, in order.
    pub fn handle_path_events(&mut self, evs: &Vec<PathEvent>) -> (r: Result<
        Vec<PathAction>,
        PathFault,
    >)
        requires
            old(self).wf(),
        ensures
            final(self).wf(),
            final(self).table.pool == old(self).table.pool,
            final(self).table.states@ == drain_spec(
                old(self).table.pool,
                old(self).table.states@,
                evs@,
            ).0,
            match r {
                Ok(acts) => drain_spec(old(self).table.pool, old(self).table.states@, evs@).1
                    == Ok::<Seq<PathAction>, PathFault>(acts@),
                Err(f) => drain_spec(old(self).table.pool, old(self).table.states@, evs@).1
                    == Err::<Seq<PathAction>, PathFault>(f),
            },
            final(self).dispatcher == old(self).dispatcher,
            final(self).received == old(self).received,
            final(self).close_requested == old(self).close_requested,
    {
        self.table.drain(evs)
    }
}

/// With no messages, the session is acknowledged from the start: the first
/// check once the connection is established asks for the close, and the
/// dispatcher neither probes nor sends.
pub proof fn lemma_empty_session_closes(s: Session, status: PathStatus, dcids: int)
    requires
        s.wf(),
        s.table.pool.n_paths == 0,
    ensures
        s.spec_all_acknowledged(),
        decide(
            s.dispatcher.next as int,
            s.dispatcher.n_messages as int,
            status,
            s.pending_path_state(),
            dcids,
        ) == DispatchAction::Finished,
{
}

} // verus!
