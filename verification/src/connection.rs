//! The per-connection state machine of the rendezvous server.
//!
//! Every accepted socket starts in `Socket`, may become `Authorized` by
//! presenting a token the credential store knows, and ends in `PortForward`
//! once it carries one forwarded circuit.  The functions here decide; the
//! caller performs the store lookups, the waiting and the I/O they call
//! for, and feeds the outcomes back in.

use vstd::prelude::*;

use crate::command::{spec_grantable, spec_minimum_permission_level, Cmd};
use crate::permission::{spec_at_least, PermissionLevel};

verus! {

/// Whether a forward connection shares a port or receives one.
#[derive(Debug, Clone, Copy, PartialEq, Eq, Structural)]
pub enum ForwardKind {
    /// The node-side connection that shares its local port.
    Share,
    /// The client-side connection that receives the port.
    Receive,
}

/// State of one accepted connection.
#[derive(Debug, Clone, PartialEq, Eq)]
pub enum ConnectionState {
    /// Not yet authorized; only `Authenticate` is accepted.
    Socket,
    /// An authorized control connection that dispatches commands.
    Authorized { hostname: Vec<u8>, permission_level: PermissionLevel },
    /// Terminal: the connection carries one forwarded circuit.
    PortForward { hostname: Vec<u8>, kind: ForwardKind, port: u32, id: u64 },
}

/// What the server must do with one received command.
#[derive(Debug, Clone, PartialEq, Eq)]
pub enum Directive {
    /// Nothing; the combination of state and command is ignored.
    Ignore,
    /// Look the token up in the credential store, then report the outcome
    /// through `on_lookup`.
    Lookup { token: Vec<u8> },
    /// The connection has become the share half of forward `id`: leave the
    /// command loop and claim the pending halves.
    EnterShare { port: u32, id: u64 },
    /// Await the named node in the registry, then grant the forward under a
    /// fresh id through `grant_forward`.
    AwaitNode { hostname: Vec<u8>, port: u32 },
    /// Insert the new client into the credential store.
    InsertClient { username: Vec<u8>, token: Vec<u8>, permission_level: PermissionLevel },
}

/// The directive for one command in one state: `Authenticate` is the only
/// command heard in `Socket`; an `Authorized` connection is served exactly
/// when its permission is at least the command's minimum and the command's
/// grant, if any, can be outranked at all; a `PortForward` connection
/// hears nothing.
pub open spec fn spec_next_directive(state: ConnectionState, cmd: Cmd) -> Directive {
    match state {
        ConnectionState::Socket => match cmd {
            Cmd::Authenticate { token } => Directive::Lookup { token },
            _ => Directive::Ignore,
        },
        ConnectionState::Authorized { hostname, permission_level } => {
            if !spec_at_least(permission_level, spec_minimum_permission_level(cmd))
                || !spec_grantable(cmd) {
                Directive::Ignore
            } else {
                match cmd {
                    Cmd::SharePort { port, id } => Directive::EnterShare { port, id },
                    Cmd::GetPort { hostname: target, port } => Directive::AwaitNode {
                        hostname: target,
                        port,
                    },
                    Cmd::AddClient { username, token, permission_level: granted } => {
                        Directive::InsertClient { username, token, permission_level: granted }
                    },
                    _ => Directive::Ignore,
                }
            }
        },
        ConnectionState::PortForward { .. } => Directive::Ignore,
    }
}

/// The state after one command: `SharePort` alone moves an `Authorized`
/// connection on, into the share half of its forward.
pub open spec fn spec_after_command(state: ConnectionState, cmd: Cmd) -> ConnectionState {
    match spec_next_directive(state, cmd) {
        Directive::EnterShare { port, id } => match state {
            ConnectionState::Authorized { hostname, .. } => ConnectionState::PortForward {
                hostname,
                kind: ForwardKind::Share,
                port,
                id,
            },
            _ => state,
        },
        _ => state,
    }
}

/// Dispatches one received command: returns what the caller must do and
/// advances the state exactly as `spec_after_command` says.
pub fn handle_command(state: &mut ConnectionState, cmd: Cmd) -> (r: Directive)
    ensures
        r == spec_next_directive(*old(state), cmd),
        *final(state) == spec_after_command(*old(state), cmd),
{
    let enter_share: Option<(u32, u64)> = match &*state {
        ConnectionState::Authorized { permission_level, .. } => match &cmd {
            Cmd::SharePort { port, id } => {
                let minimum = cmd.minimum_permission_level();
                if permission_level.at_least(&minimum) {
                    Some((*port, *id))
                } else {
                    None
                }
            },
            _ => None,
        },
        _ => None,
    };
    if let Some((port, id)) = enter_share {
        let mut prev = ConnectionState::Socket;
        core::mem::swap(state, &mut prev);
        match prev {
            ConnectionState::Authorized { hostname, .. } => {
                *state = ConnectionState::PortForward {
                    hostname,
                    kind: ForwardKind::Share,
                    port,
                    id,
                };
            },
            _ => vstd::pervasive::unreached(),
        }
        return Directive::EnterShare { port, id };
    }
    match &*state {
        ConnectionState::Socket => match cmd {
            Cmd::Authenticate { token } => Directive::Lookup { token },
            _ => Directive::Ignore,
        },
        ConnectionState::Authorized { permission_level, .. } => {
            let minimum = cmd.minimum_permission_level();
            if !permission_level.at_least(&minimum) || !cmd.grantable() {
                Directive::Ignore
            } else {
                match cmd {
                    Cmd::GetPort { hostname: target, port } => Directive::AwaitNode {
                        hostname: target,
                        port,
                    },
                    Cmd::AddClient { username, token, permission_level: granted } => {
                        Directive::InsertClient { username, token, permission_level: granted }
                    },
                    _ => Directive::Ignore,
                }
            }
        },
        ConnectionState::PortForward { .. } => Directive::Ignore,
    }
}

/// The state after a credential lookup: a known token authorizes the
/// connection; an unknown one leaves it in `Socket` untouched.
pub open spec fn spec_after_lookup(
    state: ConnectionState,
    found: Option<(Vec<u8>, PermissionLevel)>,
) -> ConnectionState {
    match state {
        ConnectionState::Socket => match found {
            Some((hostname, permission_level)) => ConnectionState::Authorized {
                hostname,
                permission_level,
            },
            None => state,
        },
        _ => state,
    }
}

/// Applies the outcome of a credential lookup to a connection.
///
/// `found` is what the store held under the token; `duplicate` whether the
/// registry already holds a live connection under that hostname.  A known
/// token authorizes the connection either way — a node's own forward
/// connections authenticate under an already-registered hostname — but the
/// result says whether to register it in the registry: true exactly when
/// the connection was in `Socket`, the token was known and the hostname
/// fresh.  The pre-existing registration wins; a duplicate is never
/// registered.
pub fn on_lookup(
    state: &mut ConnectionState,
    found: Option<(Vec<u8>, PermissionLevel)>,
    duplicate: bool,
) -> (r: bool)
    ensures
        *final(state) == spec_after_lookup(*old(state), found),
        r == (*old(state) is Socket && found is Some && !duplicate),
{
    match state {
        ConnectionState::Socket => match found {
            Some((hostname, permission_level)) => {
                *state = ConnectionState::Authorized { hostname, permission_level };
                !duplicate
            },
            None => false,
        },
        _ => false,
    }
}

/// Grants a waited-for forward: the connection becomes the receive half of
/// a circuit under the fresh id, and the returned command is the
/// `SharePort` to send to the node that will carry the other half.
pub fn grant_forward(state: &mut ConnectionState, port: u32, id: u64) -> (r: Cmd)
    requires
        *old(state) matches ConnectionState::Authorized { .. },
    ensures
        *final(state) matches ConnectionState::PortForward { hostname, kind, port: p, id: i }
            && *old(state) matches ConnectionState::Authorized { hostname: h0, .. } && hostname
            == h0 && kind == ForwardKind::Receive && p == port && i == id,
        r == (Cmd::SharePort { port, id }),
{
    let mut prev = ConnectionState::Socket;
    core::mem::swap(state, &mut prev);
    match prev {
        ConnectionState::Authorized { hostname, .. } => {
            *state = ConnectionState::PortForward {
                hostname,
                kind: ForwardKind::Receive,
                port,
                id,
            };
        },
        _ => vstd::pervasive::unreached(),
    }
    Cmd::SharePort { port, id }
}

/// The server serves an authorized connection only within its rights: any
/// directive but `Ignore` means the connection's permission level is at
/// least the command's minimum.
pub proof fn lemma_directive_respects_permission(
    hostname: Vec<u8>,
    permission_level: PermissionLevel,
    cmd: Cmd,
)
    ensures
        spec_next_directive(ConnectionState::Authorized { hostname, permission_level }, cmd)
            != Directive::Ignore ==> spec_at_least(
            permission_level,
            spec_minimum_permission_level(cmd),
        ),
{
}

/// Whoever mints an administrator is strictly stronger than the grantee:
/// a granted `AddClient` of `Admin(k)` means the subject is an admin of a
/// level strictly above `k`, so no admin can mint its own equal, the top
/// level included.
pub proof fn lemma_granted_admin_strictly_weaker(
    hostname: Vec<u8>,
    permission_level: PermissionLevel,
    username: Vec<u8>,
    token: Vec<u8>,
    k: u32,
)
    ensures
        spec_next_directive(
            ConnectionState::Authorized { hostname, permission_level },
            Cmd::AddClient { username, token, permission_level: PermissionLevel::Admin(k) },
        ) != Directive::Ignore ==> (permission_level matches PermissionLevel::Admin(j) && j > k),
{
}

/// `PortForward` is terminal: a forwarding connection hears no further
/// command and never changes state again.
pub proof fn lemma_port_forward_is_terminal(
    hostname: Vec<u8>,
    kind: ForwardKind,
    port: u32,
    id: u64,
    cmd: Cmd,
)
    ensures
        spec_next_directive(ConnectionState::PortForward { hostname, kind, port, id }, cmd)
            == Directive::Ignore,
        spec_after_command(ConnectionState::PortForward { hostname, kind, port, id }, cmd)
            == (ConnectionState::PortForward { hostname, kind, port, id }),
{
}

/// Relies on `rand::Rng::gen` over `rand::thread_rng`: a routing id for a
/// fresh forward.  Nothing is promised of the value.
#[verifier::external_body]
pub fn fresh_forward_id() -> u64 {
    rand::Rng::gen(&mut rand::thread_rng())
}

} // verus!
