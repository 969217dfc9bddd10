//! The socket through which a second instance hands an `nxm://` link to the
//! running one.
use crate::text::{append_decimal, append_str, decimal, starts_with};
use vstd::prelude::*;

verus! {

/// The socket of the user `uid`.
pub open spec fn spec_socket_path(uid: u32) -> Seq<char> {
    "/run/user/"@ + decimal(uid as nat) + "/dmodman.socket"@
}

/// The socket of the user `uid`: `dmodman.socket` in the user's runtime directory.
pub fn get_socket_path(uid: u32) -> (r: String)
    ensures
        r@ == spec_socket_path(uid),
{
    let mut s = "/run/user/".to_string();
    proof {
        reveal_strlit("/run/user/");
    }
    append_decimal(&mut s, uid as u64);
    append_str(&mut s, "/dmodman.socket");
    s
}

/// Whether a message received on the socket is a link to queue: it starts
/// with `nxm://`.
pub fn is_nxm_message(msg: &str) -> (r: bool)
    ensures
        r == "nxm://"@.is_prefix_of(msg@),
{
    starts_with(msg, "nxm://")
}

/// Where taking the socket over stands: the first bind, the probe of an
/// address in use, the removal of a stale socket, the bind after it.
#[derive(PartialEq, Eq, Structural, Debug, Clone, Copy)]
pub enum SocketStage {
    FirstBind,
    Probing,
    Removing,
    SecondBind,
}

/// What the last socket operation gave.
#[derive(PartialEq, Eq, Structural, Debug, Clone, Copy)]
pub enum SocketOutcome {
    Done,
    AddrInUse,
    ConnectionRefused,
    OtherError,
}

/// What to do next.
#[derive(PartialEq, Eq, Structural, Debug, Clone, Copy)]
pub enum SocketAction {
    /// Connect to the socket to see whether an instance answers.
    Connect,
    /// Remove the socket file left behind.
    RemoveStale,
    /// Bind the socket again.
    Bind,
    /// The socket is ours: accept links on it.
    Listen,
    /// Another instance answers on the socket.
    AnotherInstance,
    /// Stop with the error of the last operation.
    GiveUp,
    /// The socket failed in a way that is not expected: stop at once.
    Abort,
}

/// The next stage and action after an operation in `stage` gave `outcome`:
/// an address in use is probed by connecting; an instance that answers keeps
/// the socket; a refused connection means a stale socket, which is removed
/// and bound again. Other failures of the probe abort; other failures of a
/// bind, and failures of the removal, give up with their error.
pub open spec fn spec_socket_step(stage: SocketStage, outcome: SocketOutcome) -> (SocketStage, SocketAction) {
    match stage {
        SocketStage::FirstBind => match outcome {
            SocketOutcome::Done => (stage, SocketAction::Listen),
            SocketOutcome::AddrInUse => (SocketStage::Probing, SocketAction::Connect),
            _ => (stage, SocketAction::GiveUp),
        },
        SocketStage::Probing => match outcome {
            SocketOutcome::Done => (stage, SocketAction::AnotherInstance),
            SocketOutcome::ConnectionRefused => (SocketStage::Removing, SocketAction::RemoveStale),
            _ => (stage, SocketAction::Abort),
        },
        SocketStage::Removing => match outcome {
            SocketOutcome::Done => (SocketStage::SecondBind, SocketAction::Bind),
            _ => (stage, SocketAction::GiveUp),
        },
        SocketStage::SecondBind => match outcome {
            SocketOutcome::Done => (stage, SocketAction::Listen),
            _ => (stage, SocketAction::GiveUp),
        },
    }
}

/// One step of taking the socket over. The socket is listened on only after
/// a bind succeeded, a socket file is removed only after a connection to it
/// was refused, and a bind that fails for another reason than the address
/// being in use hands its error back.
pub fn socket_step(stage: SocketStage, outcome: SocketOutcome) -> (r: (SocketStage, SocketAction))
    ensures
        r == spec_socket_step(stage, outcome),
        r.1 == SocketAction::Listen ==> outcome == SocketOutcome::Done && (stage
            == SocketStage::FirstBind || stage == SocketStage::SecondBind),
        r.1 == SocketAction::RemoveStale ==> stage == SocketStage::Probing && outcome
            == SocketOutcome::ConnectionRefused,
        (stage == SocketStage::FirstBind || stage == SocketStage::SecondBind) && outcome
            != SocketOutcome::Done && outcome != SocketOutcome::AddrInUse ==> r.1 == SocketAction::GiveUp,
{
    match stage {
        SocketStage::FirstBind => match outcome {
            SocketOutcome::Done => (stage, SocketAction::Listen),
            SocketOutcome::AddrInUse => (SocketStage::Probing, SocketAction::Connect),
            _ => (stage, SocketAction::GiveUp),
        },
        SocketStage::Probing => match outcome {
            SocketOutcome::Done => (stage, SocketAction::AnotherInstance),
            SocketOutcome::ConnectionRefused => (SocketStage::Removing, SocketAction::RemoveStale),
            _ => (stage, SocketAction::Abort),
        },
        SocketStage::Removing => match outcome {
            SocketOutcome::Done => (SocketStage::SecondBind, SocketAction::Bind),
            _ => (stage, SocketAction::GiveUp),
        },
        SocketStage::SecondBind => match outcome {
            SocketOutcome::Done => (stage, SocketAction::Listen),
            _ => (stage, SocketAction::GiveUp),
        },
    }
}

} // verus!
