//! Client-side orchestration of one QUIC connection over several local
//! paths: the path pool, connection-identifier issuance, the path lifecycle,
//! the per-message dispatcher and the session state that ties them together.
//! The protocol engine and the sockets are driven by the caller, which hands
//! the library what the engine reported and performs the actions it returns.

mod cid;
mod dispatch;
mod path;
mod pool;
mod session;

pub use cid::{be_value, lemma_issuance_within_quota, may_issue, round_after, CidRound, generate_cid_and_reset_token, reset_token_from_bytes, CONN_ID_LEN, RESET_TOKEN_LEN};
pub use dispatch::{decide, lemma_dead_path_blocks, lemma_no_messages, lemma_sends_in_order, run, sends, stream_id_of, DispatchAction, Dispatcher, PathStatus, MAX_MESSAGES};
pub use path::{action_for, apply_event, drain_spec, lemma_drain_empty_idempotent, lemma_terminal_persists, PathAction, PathEvent, PathFault, PathState, PathTable};
pub use pool::PathPool;
pub use session::{close_reason, lemma_empty_session_closes, LoopPhase, Session, CLOSE_ERROR_CODE};
