use vstd::prelude::*;
use crate::pool::PathPool;

verus! {

/// Validation state of one path of the pool.
#[derive(Clone, Copy, Debug, PartialEq, Eq, Structural)]
pub enum PathState {
    Unknown,
    Probing,
    Validated,
    Failed,
    Closed,
}

impl PathState {
    /// Failed and Closed are final: no event leads out of them, and the path
    /// is neither probed nor written to again.
    pub open spec fn spec_is_terminal(self) -> bool {
        self is Failed || self is Closed
    }

    pub fn is_terminal(&self) -> (r: bool)
        ensures
            r == self.spec_is_terminal(),
    {
        match self {
            PathState::Failed | PathState::Closed => true,
            _ => false,
        }
    }
}

/// A path notification from the engine; a path is named by its local and
/// peer ports.
#[derive(Clone, Copy, Debug, PartialEq, Eq, Structural)]
pub enum PathEvent {
    New { local: u16, peer: u16 },
    Validated { local: u16, peer: u16 },
    FailedValidation { local: u16, peer: u16 },
    Closed { local: u16, peer: u16 },
    ReusedSourceConnectionId { seq: u64 },
    PeerMigrated { local: u16, peer: u16 },
}

/// What the caller must tell the engine after an event.
#[derive(Clone, Copy, Debug, PartialEq, Eq, Structural)]
pub enum PathAction {
    /// Make (local, peer) the connection's active path.
    Migrate { local: u16, peer: u16 },
    /// Nothing beyond bookkeeping and diagnostics.
    NoAction,
}

/// An event a client never receives from a correct engine: a path opened or
/// a migration made by the peer.
#[derive(Clone, Copy, Debug, PartialEq, Eq, Structural)]
pub enum PathFault {
    UnexpectedEvent,
}

/// Whether `ev` is about path `j` of `pool`.
pub open spec fn concerns(pool: PathPool, j: int, ev: PathEvent) -> bool {
    0 <= j < pool.n_paths && match ev {
        PathEvent::Validated { local, peer } | PathEvent::FailedValidation { local, peer }
        | PathEvent::Closed { local, peer } => pool.local_port_of(j) == local
            && pool.peer_port_of(j) == peer,
        _ => false,
    }
}

/// New state of a path that `ev` is about.
pub open spec fn state_after(s: PathState, ev: PathEvent) -> PathState {
    if s.spec_is_terminal() {
        s
    } else {
        match ev {
            PathEvent::Validated { .. } => PathState::Validated,
            PathEvent::FailedValidation { .. } => PathState::Failed,
            PathEvent::Closed { .. } => PathState::Closed,
            _ => s,
        }
    }
}

/// The states after `ev`.
pub open spec fn apply_event(pool: PathPool, s: Seq<PathState>, ev: PathEvent) -> Seq<
    PathState,
> {
    Seq::new(s.len(), |j: int| if concerns(pool, j, ev) { state_after(s[j], ev) } else { s[j] })
}

/// What `ev` asks of the caller. A validated path becomes the active one,
/// unless it is a path of the pool that already failed or closed.
pub open spec fn action_for(pool: PathPool, s: Seq<PathState>, ev: PathEvent) -> Result<
    PathAction,
    PathFault,
> {
    match ev {
        PathEvent::New { .. } | PathEvent::PeerMigrated { .. } => Err(PathFault::UnexpectedEvent),
        PathEvent::Validated { local, peer } => if exists|j: int|
            concerns(pool, j, ev) && s[j].spec_is_terminal() {
            Ok(PathAction::NoAction)
        } else {
            Ok(PathAction::Migrate { local, peer })
        },
        _ => Ok(PathAction::NoAction),
    }
}

/// Handling `evs` in order: the states after them and the actions, or the
/// first fault, with the states reached just before it.
pub open spec fn drain_spec(pool: PathPool, s: Seq<PathState>, evs: Seq<PathEvent>) -> (
    Seq<PathState>,
    Result<Seq<PathAction>, PathFault>,
)
    decreases evs.len(),
{
    if evs.len() == 0 {
        (s, Ok(Seq::empty()))
    } else {
        let (s1, r1) = drain_spec(pool, s, evs.drop_last());
        match r1 {
            Err(f) => (s1, Err(f)),
            Ok(acts) => match action_for(pool, s1, evs.last()) {
                Err(f) => (s1, Err(f)),
                Ok(a) => (apply_event(pool, s1, evs.last()), Ok(acts.push(a))),
            },
        }
    }
}

/// The validation state of every path of a pool.
pub struct PathTable {
    pub pool: PathPool,
    pub states: Vec<PathState>,
}

impl PathTable {
    pub open spec fn wf(self) -> bool {
        self.pool.wf() && self.states@.len() == self.pool.n_paths
    }

    /// Every path starts Unknown.
    pub fn new(pool: PathPool) -> (r: PathTable)
        requires
            pool.wf(),
        ensures
            r.wf(),
            r.pool == pool,
            forall|j: int| 0 <= j < pool.n_paths ==> r.states@[j] == PathState::Unknown,
    {
        let mut states: Vec<PathState> = Vec::new();
        while states.len() < pool.n_paths
            invariant
                states@.len() <= pool.n_paths,
                forall|j: int| 0 <= j < states@.len() ==> states@[j] == PathState::Unknown,
            decreases pool.n_paths - states@.len(),
        {
            states.push(PathState::Unknown);
        }
        PathTable { pool, states }
    }

    pub fn state(&self, i: usize) -> (r: PathState)
        requires
            self.wf(),
            i < self.pool.n_paths,
        ensures
            r == self.states@[i as int],
    {
        self.states[i]
    }

    /// Records that a probe of path `i` is in flight; a path that failed or
    /// closed keeps its state.
    pub fn mark_probing(&mut self, i: usize)
        requires
            old(self).wf(),
            i < old(self).pool.n_paths,
        ensures
            final(self).wf(),
            final(self).pool == old(self).pool,
            final(self).states@ == if old(self).states@[i as int].spec_is_terminal() {
                old(self).states@
            } else {
                old(self).states@.update(i as int, PathState::Probing)
            },
    {
        if !self.states[i].is_terminal() {
            self.states.set(i, PathState::Probing);
        }
    }

    /// Handles one engine notification.
    pub fn handle_event(&mut self, ev: PathEvent) -> (r: Result<PathAction, PathFault>)
        requires
            old(self).wf(),
        ensures
            final(self).wf(),
            final(self).pool == old(self).pool,
            r == action_for(old(self).pool, old(self).states@, ev),
            r is Ok ==> final(self).states@ == apply_event(old(self).pool, old(self).states@, ev),
            r is Err ==> final(self).states@ == old(self).states@,
    {
        let ghost s0 = self.states@;
        let ghost pool = self.pool;
        let pair: Option<(u16, u16)> = match ev {
            PathEvent::New { .. } | PathEvent::PeerMigrated { .. } => {
                return Err(PathFault::UnexpectedEvent);
            },
            PathEvent::ReusedSourceConnectionId { .. } => None,
            PathEvent::Validated { local, peer } | PathEvent::FailedValidation { local, peer }
            | PathEvent::Closed { local, peer } => Some((local, peer)),
        };
        let found: Option<usize> = match pair {
            Some(p) => self.pool.path_index(p.0, p.1),
            None => None,
        };
        assert forall|j: int| concerns(pool, j, ev) implies found == Some(j as usize) by {
            if let Some(i) = found {
                assert(pool.local_port_of(i as int) == pool.local_port_of(j));
            }
        }
        let action = match ev {
            PathEvent::Validated { local, peer } => match found {
                Some(i) => if self.states[i].is_terminal() {
                    PathAction::NoAction
                } else {
                    PathAction::Migrate { local, peer }
                },
                None => PathAction::Migrate { local, peer },
            },
            _ => PathAction::NoAction,
        };
        match found {
            Some(i) => {
                let s = self.states[i];
                let next = if s.is_terminal() {
                    s
                } else {
                    match ev {
                        PathEvent::Validated { .. } => PathState::Validated,
                        PathEvent::FailedValidation { .. } => PathState::Failed,
                        _ => PathState::Closed,
                    }
                };
                self.states.set(i, next);
                assert(concerns(pool, i as int, ev));
            },
            None => {},
        }
        assert(self.states@ =~= apply_event(pool, s0, ev));
        Ok(action)
    }

    /// Handles every event of `evs` in order and returns the actions they ask
    /// for, or stops at the first unexpected event.
    pub fn drain(&mut self, evs: &Vec<PathEvent>) -> (r: Result<Vec<PathAction>, PathFault>)
        requires
            old(self).wf(),
        ensures
            final(self).wf(),
            final(self).pool == old(self).pool,
            final(self).states@ == drain_spec(old(self).pool, old(self).states@, evs@).0,
            match r {
                Ok(acts) => drain_spec(old(self).pool, old(self).states@, evs@).1 == Ok::<
                    Seq<PathAction>,
                    PathFault,
                >(acts@),
                Err(f) => drain_spec(old(self).pool, old(self).states@, evs@).1 == Err::<
                    Seq<PathAction>,
                    PathFault,
                >(f),
            },
    {
        let ghost s0 = self.states@;
        let mut acts: Vec<PathAction> = Vec::new();
        let mut i: usize = 0;
        while i < evs.len()
            invariant
                self.wf(),
                self.pool == old(self).pool,
                s0 == old(self).states@,
                i <= evs@.len(),
                drain_spec(self.pool, s0, evs@.subrange(0, i as int)) == (
                    self.states@,
                    Ok::<Seq<PathAction>, PathFault>(acts@),
                ),
            decreases evs@.len() - i,
        {
            let ghost prefix = evs@.subrange(0, i as int);
            assert(evs@.subrange(0, i + 1).drop_last() =~= prefix);
            match self.handle_event(evs[i]) {
                Ok(a) => acts.push(a),
                Err(f) => {
                    proof {
                        lemma_drain_stops(self.pool, s0, evs@, (i + 1) as nat);
                    }
                    return Err(f);
                },
            }
            i = i + 1;
        }
        assert(evs@.subrange(0, evs@.len() as int) =~= evs@);
        Ok(acts)
    }
}

/// Once a fault is met, later events change nothing.
proof fn lemma_drain_stops(pool: PathPool, s: Seq<PathState>, evs: Seq<PathEvent>, k: nat)
    requires
        k <= evs.len(),
        drain_spec(pool, s, evs.subrange(0, k as int)).1 is Err,
    ensures
        drain_spec(pool, s, evs) == drain_spec(pool, s, evs.subrange(0, k as int)),
    decreases evs.len() - k,
{
    if k < evs.len() {
        assert(evs.subrange(0, k + 1 as int).drop_last() =~= evs.subrange(0, k as int));
        lemma_drain_stops(pool, s, evs, k + 1);
    } else {
        assert(evs.subrange(0, k as int) =~= evs);
    }
}

/// Draining an empty queue is a no-op, and doing it twice in a row is the
/// same as doing it once: the states stay as they were and no action is asked.
pub proof fn lemma_drain_empty_idempotent(pool: PathPool, s: Seq<PathState>)
    ensures
        drain_spec(pool, s, Seq::empty()) == (s, Ok::<Seq<PathAction>, PathFault>(Seq::empty())),
        drain_spec(pool, drain_spec(pool, s, Seq::empty()).0, Seq::empty()) == drain_spec(
            pool,
            s,
            Seq::empty(),
        ),
{
}

/// A path that failed or closed stays so whatever events follow.
pub proof fn lemma_terminal_persists(
    pool: PathPool,
    s: Seq<PathState>,
    evs: Seq<PathEvent>,
    j: int,
)
    requires
        0 <= j < s.len(),
        s[j].spec_is_terminal(),
    ensures
        drain_spec(pool, s, evs).0.len() == s.len(),
        drain_spec(pool, s, evs).0[j] == s[j],
    decreases evs.len(),
{
    if evs.len() > 0 {
        lemma_terminal_persists(pool, s, evs.drop_last(), j);
    }
}

} // verus!
