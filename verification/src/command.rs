//! The typed message set exchanged over a tunnel, and the minimum
//! permission each message demands.
//!
//! Textual fields (hostnames, usernames, tokens) are carried as UTF-8
//! bytes; the core compares them by exact equality and never interprets
//! them further.

use vstd::prelude::*;
use vstd::slice::{slice_subrange, slice_to_vec};

use crate::permission::PermissionLevel;
use crate::wire::{
    lemma_u32_le_bytes_round_trip, lemma_u64_le_bytes_round_trip, push_u32_le, push_u64_le,
    read_u32_le_at, read_u64_le_at, spec_u32_from_le_bytes, spec_u32_to_le_bytes,
    spec_u64_from_le_bytes, spec_u64_to_le_bytes,
};

verus! {

/// Command interface for clients, nodes and the server.
#[derive(Debug, Clone, PartialEq, Eq)]
pub enum Cmd {
    /// Does nothing.
    Noop,
    /// Presents a credential token; the first message of every session.
    Authenticate { token: Vec<u8> },
    /// Asks the server to splice the caller to `port` of the named node.
    GetPort { hostname: Vec<u8>, port: u32 },
    /// Carries one forwarded circuit under the routing id `id`.
    SharePort { port: u32, id: u64 },
    /// Asks for a page of registered clients.
    ListClients { after: Vec<u8>, limit: u64 },
    /// Registers a new client in the credential store.
    AddClient { username: Vec<u8>, token: Vec<u8>, permission_level: PermissionLevel },
    /// Removes a client from the credential store.
    RemoveClient { username: Vec<u8> },
}

/// The admin level that outranks `Admin(k)` itself, saturating at the
/// largest representable level: above `Admin(u32::MAX)` no level exists,
/// so the connection state machine refuses that grant outright (see
/// `spec_grantable`) and the saturated minimum is never consulted for it.
pub open spec fn spec_admin_above(k: u32) -> u32 {
    if k < u32::MAX {
        (k + 1) as u32
    } else {
        u32::MAX
    }
}

/// The weakest permission level that may issue a command.
pub open spec fn spec_minimum_permission_level(c: Cmd) -> PermissionLevel {
    match c {
        Cmd::Noop => PermissionLevel::Any,
        Cmd::Authenticate { .. } => PermissionLevel::Any,
        Cmd::GetPort { .. } => PermissionLevel::Standart,
        Cmd::SharePort { .. } => PermissionLevel::Node,
        Cmd::ListClients { .. } => PermissionLevel::Admin(0),
        Cmd::AddClient { permission_level, .. } => match permission_level {
            PermissionLevel::Admin(k) => PermissionLevel::Admin(spec_admin_above(k)),
            _ => PermissionLevel::Admin(0),
        },
        Cmd::RemoveClient { .. } => PermissionLevel::Admin(0),
    }
}

/// Whether the permission a command grants can be outranked at all: no
/// level stands strictly above the top admin level, so granting
/// `Admin(u32::MAX)` is never permitted.  Every other command is
/// grantable.
pub open spec fn spec_grantable(c: Cmd) -> bool {
    match c {
        Cmd::AddClient { permission_level, .. } => match permission_level {
            PermissionLevel::Admin(k) => k < u32::MAX,
            _ => true,
        },
        _ => true,
    }
}

impl Cmd {
    /// The minimum permission level required for executing the command.
    ///
    /// Granting a new administrator demands a level strictly above the
    /// grantee's, so only a stronger administrator can mint a weaker one.
    /// For the top admin level no such minimum exists; the returned level
    /// saturates there, and the connection state machine refuses the grant
    /// instead (`grantable`).
    pub fn minimum_permission_level(&self) -> (r: PermissionLevel)
        ensures
            r == spec_minimum_permission_level(*self),
    {
        match self {
            Cmd::Noop => PermissionLevel::Any,
            Cmd::Authenticate { .. } => PermissionLevel::Any,
            Cmd::GetPort { .. } => PermissionLevel::Standart,
            Cmd::SharePort { .. } => PermissionLevel::Node,
            Cmd::ListClients { .. } => PermissionLevel::Admin(0),
            Cmd::AddClient { permission_level, .. } => match permission_level {
                PermissionLevel::Admin(k) => {
                    if *k < u32::MAX {
                        PermissionLevel::Admin(*k + 1)
                    } else {
                        PermissionLevel::Admin(u32::MAX)
                    }
                },
                _ => PermissionLevel::Admin(0),
            },
            Cmd::RemoveClient { .. } => PermissionLevel::Admin(0),
        }
    }

    /// Whether the permission this command grants can be outranked at all.
    pub fn grantable(&self) -> (r: bool)
        ensures
            r == spec_grantable(*self),
    {
        match self {
            Cmd::AddClient { permission_level, .. } => match permission_level {
                PermissionLevel::Admin(k) => *k < u32::MAX,
                _ => true,
            },
            _ => true,
        }
    }
}

/// The mathematical shape of a command: its fields as sequences.
pub enum CmdModel {
    Noop,
    Authenticate { token: Seq<u8> },
    GetPort { hostname: Seq<u8>, port: u32 },
    SharePort { port: u32, id: u64 },
    ListClients { after: Seq<u8>, limit: u64 },
    AddClient { username: Seq<u8>, token: Seq<u8>, permission_level: PermissionLevel },
    RemoveClient { username: Seq<u8> },
}

impl View for Cmd {
    type V = CmdModel;

    open spec fn view(&self) -> CmdModel {
        match self {
            Cmd::Noop => CmdModel::Noop,
            Cmd::Authenticate { token } => CmdModel::Authenticate { token: token@ },
            Cmd::GetPort { hostname, port } => CmdModel::GetPort { hostname: hostname@, port: *port },
            Cmd::SharePort { port, id } => CmdModel::SharePort { port: *port, id: *id },
            Cmd::ListClients { after, limit } => CmdModel::ListClients {
                after: after@,
                limit: *limit,
            },
            Cmd::AddClient { username, token, permission_level } => CmdModel::AddClient {
                username: username@,
                token: token@,
                permission_level: *permission_level,
            },
            Cmd::RemoveClient { username } => CmdModel::RemoveClient { username: username@ },
        }
    }
}

/// A byte string on the wire: a little-endian u64 length, then the bytes.
pub open spec fn spec_ser_bytes(b: Seq<u8>) -> Seq<u8> {
    spec_u64_to_le_bytes(b.len() as u64) + b
}

/// A permission level on the wire: a little-endian u32 variant tag, and the
/// admin level after an admin tag.
pub open spec fn spec_ser_permission(p: PermissionLevel) -> Seq<u8> {
    match p {
        PermissionLevel::Admin(k) => spec_u32_to_le_bytes(0) + spec_u32_to_le_bytes(k),
        PermissionLevel::Standart => spec_u32_to_le_bytes(1),
        PermissionLevel::Node => spec_u32_to_le_bytes(2),
        PermissionLevel::Any => spec_u32_to_le_bytes(3),
    }
}

/// A command on the wire: a little-endian u32 variant tag, then the fields
/// in declaration order; integers fixed-width little-endian, byte strings
/// length-prefixed.
pub open spec fn spec_ser_cmd(m: CmdModel) -> Seq<u8> {
    match m {
        CmdModel::Noop => spec_u32_to_le_bytes(0),
        CmdModel::Authenticate { token } => spec_u32_to_le_bytes(1) + spec_ser_bytes(token),
        CmdModel::GetPort { hostname, port } => spec_u32_to_le_bytes(2) + spec_ser_bytes(hostname)
            + spec_u32_to_le_bytes(port),
        CmdModel::SharePort { port, id } => spec_u32_to_le_bytes(3) + spec_u32_to_le_bytes(port)
            + spec_u64_to_le_bytes(id),
        CmdModel::ListClients { after, limit } => spec_u32_to_le_bytes(4) + spec_ser_bytes(after)
            + spec_u64_to_le_bytes(limit),
        CmdModel::AddClient { username, token, permission_level } => spec_u32_to_le_bytes(5)
            + spec_ser_bytes(username) + spec_ser_bytes(token) + spec_ser_permission(
            permission_level,
        ),
        CmdModel::RemoveClient { username } => spec_u32_to_le_bytes(6) + spec_ser_bytes(username),
    }
}

/// Reads a little-endian u32 at offset `i`: the value and the next offset.
pub open spec fn spec_rd_u32(b: Seq<u8>, i: int) -> Option<(u32, int)> {
    if 0 <= i && i + 4 <= b.len() {
        Some((spec_u32_from_le_bytes(b.subrange(i, i + 4)), i + 4))
    } else {
        None
    }
}

/// Reads a little-endian u64 at offset `i`: the value and the next offset.
pub open spec fn spec_rd_u64(b: Seq<u8>, i: int) -> Option<(u64, int)> {
    if 0 <= i && i + 8 <= b.len() {
        Some((spec_u64_from_le_bytes(b.subrange(i, i + 8)), i + 8))
    } else {
        None
    }
}

/// Reads a length-prefixed byte string at offset `i`.
pub open spec fn spec_rd_bytes(b: Seq<u8>, i: int) -> Option<(Seq<u8>, int)> {
    match spec_rd_u64(b, i) {
        Some((len, j)) => if j + len <= b.len() {
            Some((b.subrange(j, j + len), j + len))
        } else {
            None
        },
        None => None,
    }
}

/// Reads a permission level at offset `i`.
pub open spec fn spec_rd_permission(b: Seq<u8>, i: int) -> Option<(PermissionLevel, int)> {
    match spec_rd_u32(b, i) {
        Some((tag, j)) => if tag == 0 {
            match spec_rd_u32(b, j) {
                Some((k, j2)) => Some((PermissionLevel::Admin(k), j2)),
                None => None,
            }
        } else if tag == 1 {
            Some((PermissionLevel::Standart, j))
        } else if tag == 2 {
            Some((PermissionLevel::Node, j))
        } else if tag == 3 {
            Some((PermissionLevel::Any, j))
        } else {
            None
        },
        None => None,
    }
}

/// What a permission blob denotes: a permission level parse that consumes
/// the blob whole, or nothing.
pub open spec fn spec_deser_permission(b: Seq<u8>) -> Option<PermissionLevel> {
    match spec_rd_permission(b, 0) {
        Some((p, j)) => if j == b.len() {
            Some(p)
        } else {
            None
        },
        None => None,
    }
}

/// What a command payload denotes: a command parse that consumes the
/// payload whole, or nothing.
pub open spec fn spec_deser_cmd(b: Seq<u8>) -> Option<CmdModel> {
    match spec_rd_u32(b, 0) {
        Some((tag, i)) => if tag == 0 {
            if i == b.len() {
                Some(CmdModel::Noop)
            } else {
                None
            }
        } else if tag == 1 {
            match spec_rd_bytes(b, i) {
                Some((token, j)) => if j == b.len() {
                    Some(CmdModel::Authenticate { token })
                } else {
                    None
                },
                None => None,
            }
        } else if tag == 2 {
            match spec_rd_bytes(b, i) {
                Some((hostname, j)) => match spec_rd_u32(b, j) {
                    Some((port, j2)) => if j2 == b.len() {
                        Some(CmdModel::GetPort { hostname, port })
                    } else {
                        None
                    },
                    None => None,
                },
                None => None,
            }
        } else if tag == 3 {
            match spec_rd_u32(b, i) {
                Some((port, j)) => match spec_rd_u64(b, j) {
                    Some((id, j2)) => if j2 == b.len() {
                        Some(CmdModel::SharePort { port, id })
                    } else {
                        None
                    },
                    None => None,
                },
                None => None,
            }
        } else if tag == 4 {
            match spec_rd_bytes(b, i) {
                Some((after, j)) => match spec_rd_u64(b, j) {
                    Some((limit, j2)) => if j2 == b.len() {
                        Some(CmdModel::ListClients { after, limit })
                    } else {
                        None
                    },
                    None => None,
                },
                None => None,
            }
        } else if tag == 5 {
            match spec_rd_bytes(b, i) {
                Some((username, j)) => match spec_rd_bytes(b, j) {
                    Some((token, j2)) => match spec_rd_permission(b, j2) {
                        Some((permission_level, j3)) => if j3 == b.len() {
                            Some(CmdModel::AddClient { username, token, permission_level })
                        } else {
                            None
                        },
                        None => None,
                    },
                    None => None,
                },
                None => None,
            }
        } else if tag == 6 {
            match spec_rd_bytes(b, i) {
                Some((username, j)) => if j == b.len() {
                    Some(CmdModel::RemoveClient { username })
                } else {
                    None
                },
                None => None,
            }
        } else {
            None
        },
        None => None,
    }
}

proof fn lemma_rd_u32_at(b: Seq<u8>, i: int, x: u32)
    requires
        0 <= i,
        i + 4 <= b.len(),
        b.subrange(i, i + 4) == spec_u32_to_le_bytes(x),
    ensures
        spec_rd_u32(b, i) == Some((x, i + 4)),
{
    lemma_u32_le_bytes_round_trip(x);
}

proof fn lemma_rd_u64_at(b: Seq<u8>, i: int, x: u64)
    requires
        0 <= i,
        i + 8 <= b.len(),
        b.subrange(i, i + 8) == spec_u64_to_le_bytes(x),
    ensures
        spec_rd_u64(b, i) == Some((x, i + 8)),
{
    lemma_u64_le_bytes_round_trip(x);
}

proof fn lemma_rd_bytes_at(b: Seq<u8>, i: int, data: Seq<u8>)
    requires
        0 <= i,
        data.len() <= u64::MAX,
        i + 8 + data.len() <= b.len(),
        b.subrange(i, i + 8) == spec_u64_to_le_bytes(data.len() as u64),
        b.subrange(i + 8, i + 8 + data.len()) == data,
    ensures
        spec_rd_bytes(b, i) == Some((data, i + 8 + data.len())),
{
    lemma_rd_u64_at(b, i, data.len() as u64);
}

/// How many bytes a permission level occupies on the wire.
pub open spec fn spec_perm_len(p: PermissionLevel) -> int {
    match p {
        PermissionLevel::Admin(_) => 8,
        _ => 4,
    }
}

proof fn lemma_rd_permission_at(b: Seq<u8>, i: int, p: PermissionLevel)
    requires
        0 <= i,
        i + spec_perm_len(p) <= b.len(),
        b.subrange(i, i + spec_perm_len(p)) == spec_ser_permission(p),
    ensures
        spec_rd_permission(b, i) == Some((p, i + spec_perm_len(p))),
{
    match p {
        PermissionLevel::Admin(k) => {
            let seg = b.subrange(i, i + 8);
            assert(b.subrange(i, i + 4) =~= seg.subrange(0, 4));
            assert(b.subrange(i + 4, i + 8) =~= seg.subrange(4, 8));
            assert(seg.subrange(0, 4) =~= spec_u32_to_le_bytes(0u32));
            assert(seg.subrange(4, 8) =~= spec_u32_to_le_bytes(k));
            lemma_rd_u32_at(b, i, 0);
            lemma_rd_u32_at(b, i + 4, k);
        },
        PermissionLevel::Standart => {
            lemma_rd_u32_at(b, i, 1);
        },
        PermissionLevel::Node => {
            lemma_rd_u32_at(b, i, 2);
        },
        PermissionLevel::Any => {
            lemma_rd_u32_at(b, i, 3);
        },
    }
}

/// Decoding an encoded permission blob restores the permission level.
pub proof fn lemma_permission_round_trip(p: PermissionLevel)
    ensures
        spec_deser_permission(spec_ser_permission(p)) == Some(p),
{
    let b = spec_ser_permission(p);
    assert(b.subrange(0, spec_perm_len(p)) =~= b);
    lemma_rd_permission_at(b, 0, p);
}

/// Whether every byte-string field of the command fits a u64 length
/// prefix; every command held in memory does.
pub open spec fn cmd_model_wf(m: CmdModel) -> bool {
    match m {
        CmdModel::Noop => true,
        CmdModel::Authenticate { token } => token.len() <= u64::MAX,
        CmdModel::GetPort { hostname, .. } => hostname.len() <= u64::MAX,
        CmdModel::SharePort { .. } => true,
        CmdModel::ListClients { after, .. } => after.len() <= u64::MAX,
        CmdModel::AddClient { username, token, .. } => username.len() <= u64::MAX && token.len()
            <= u64::MAX,
        CmdModel::RemoveClient { username } => username.len() <= u64::MAX,
    }
}

/// Decoding an encoded command restores the command exactly: the wire
/// format loses nothing.
#[verifier::rlimit(100)]
#[verifier::spinoff_prover]
pub proof fn lemma_cmd_round_trip(m: CmdModel)
    requires
        cmd_model_wf(m),
    ensures
        spec_deser_cmd(spec_ser_cmd(m)) == Some(m),
{
    let b = spec_ser_cmd(m);
    match m {
        CmdModel::Noop => {
            assert(b.subrange(0, 4) =~= spec_u32_to_le_bytes(0));
            lemma_rd_u32_at(b, 0, 0);
        },
        CmdModel::Authenticate { token } => {
            assert(b.subrange(0, 4) =~= spec_u32_to_le_bytes(1));
            lemma_rd_u32_at(b, 0, 1);
            assert(b.subrange(4, 12) =~= spec_u64_to_le_bytes(token.len() as u64));
            assert(b.subrange(12, 12 + token.len() as int) =~= token);
            lemma_rd_bytes_at(b, 4, token);
        },
        CmdModel::GetPort { hostname, port } => {
            let j = 12 + hostname.len() as int;
            assert(b.subrange(0, 4) =~= spec_u32_to_le_bytes(2));
            lemma_rd_u32_at(b, 0, 2);
            assert(b.subrange(4, 12) =~= spec_u64_to_le_bytes(hostname.len() as u64));
            assert(b.subrange(12, j) =~= hostname);
            lemma_rd_bytes_at(b, 4, hostname);
            assert(b.subrange(j, j + 4) =~= spec_u32_to_le_bytes(port));
            lemma_rd_u32_at(b, j, port);
        },
        CmdModel::SharePort { port, id } => {
            assert(b.subrange(0, 4) =~= spec_u32_to_le_bytes(3));
            lemma_rd_u32_at(b, 0, 3);
            assert(b.subrange(4, 8) =~= spec_u32_to_le_bytes(port));
            lemma_rd_u32_at(b, 4, port);
            assert(b.subrange(8, 16) =~= spec_u64_to_le_bytes(id));
            lemma_rd_u64_at(b, 8, id);
        },
        CmdModel::ListClients { after, limit } => {
            let j = 12 + after.len() as int;
            assert(b.subrange(0, 4) =~= spec_u32_to_le_bytes(4));
            lemma_rd_u32_at(b, 0, 4);
            assert(b.subrange(4, 12) =~= spec_u64_to_le_bytes(after.len() as u64));
            assert(b.subrange(12, j) =~= after);
            lemma_rd_bytes_at(b, 4, after);
            assert(b.subrange(j, j + 8) =~= spec_u64_to_le_bytes(limit));
            lemma_rd_u64_at(b, j, limit);
        },
        CmdModel::AddClient { username, token, permission_level } => {
            let j = 12 + username.len() as int;
            let j2 = j + 8 + token.len() as int;
            assert(b.subrange(0, 4) =~= spec_u32_to_le_bytes(5));
            lemma_rd_u32_at(b, 0, 5);
            assert(b.subrange(4, 12) =~= spec_u64_to_le_bytes(username.len() as u64));
            assert(b.subrange(12, j) =~= username);
            lemma_rd_bytes_at(b, 4, username);
            assert(b.subrange(j, j + 8) =~= spec_u64_to_le_bytes(token.len() as u64));
            assert(b.subrange(j + 8, j2) =~= token);
            lemma_rd_bytes_at(b, j, token);
            assert(b.subrange(j2, j2 + spec_perm_len(permission_level)) =~= spec_ser_permission(
                permission_level,
            ));
            lemma_rd_permission_at(b, j2, permission_level);
        },
        CmdModel::RemoveClient { username } => {
            assert(b.subrange(0, 4) =~= spec_u32_to_le_bytes(6));
            lemma_rd_u32_at(b, 0, 6);
            assert(b.subrange(4, 12) =~= spec_u64_to_le_bytes(username.len() as u64));
            assert(b.subrange(12, 12 + username.len() as int) =~= username);
            lemma_rd_bytes_at(b, 4, username);
        },
    }
}

/// Appends a length-prefixed byte string to `out`.
fn push_bytes(out: &mut Vec<u8>, b: &[u8])
    ensures
        final(out)@ == old(out)@ + spec_ser_bytes(b@),
{
    push_u64_le(out, b.len() as u64);
    let ghost mid = out@;
    let n = b.len();
    let mut i: usize = 0;
    while i < n
        invariant
            n == b@.len(),
            i <= n,
            out@ == mid + b@.take(i as int),
        decreases n - i,
    {
        out.push(b[i]);
        proof {
            assert(out@ =~= mid + b@.take(i as int + 1));
        }
        i += 1;
    }
    proof {
        assert(b@.take(n as int) =~= b@);
        assert(out@ =~= old(out)@ + spec_ser_bytes(b@));
    }
}

/// Appends a permission level to `out`.
fn push_permission(out: &mut Vec<u8>, p: &PermissionLevel)
    ensures
        final(out)@ == old(out)@ + spec_ser_permission(*p),
{
    match p {
        PermissionLevel::Admin(k) => {
            push_u32_le(out, 0);
            push_u32_le(out, *k);
        },
        PermissionLevel::Standart => push_u32_le(out, 1),
        PermissionLevel::Node => push_u32_le(out, 2),
        PermissionLevel::Any => push_u32_le(out, 3),
    }
    proof {
        assert(out@ =~= old(out)@ + spec_ser_permission(*p));
    }
}

/// Encodes a permission level as its binary blob, as held by the
/// credential store.
pub fn serialize_permission(p: &PermissionLevel) -> (r: Vec<u8>)
    ensures
        r@ == spec_ser_permission(*p),
{
    let mut out: Vec<u8> = Vec::new();
    push_permission(&mut out, p);
    proof {
        assert(out@ =~= spec_ser_permission(*p));
    }
    out
}

/// Reads a length-prefixed byte string at offset `i`.
fn read_bytes_at(s: &[u8], i: usize) -> (r: Option<(Vec<u8>, usize)>)
    requires
        i <= s@.len(),
    ensures
        r matches Some(v) ==> spec_rd_bytes(s@, i as int) == Some((v.0@, v.1 as int)) && i < v.1
            <= s@.len(),
        r is None ==> spec_rd_bytes(s@, i as int) is None,
{
    if s.len() - i < 8 {
        return None;
    }
    let len64 = read_u64_le_at(s, i);
    if len64 > (s.len() - i - 8) as u64 {
        return None;
    }
    let len = len64 as usize;
    let v = slice_to_vec(slice_subrange(s, i + 8, i + 8 + len));
    Some((v, i + 8 + len))
}

/// Reads a permission level at offset `i`.
fn read_permission_at(s: &[u8], i: usize) -> (r: Option<(PermissionLevel, usize)>)
    requires
        i <= s@.len(),
    ensures
        r matches Some(v) ==> spec_rd_permission(s@, i as int) == Some((v.0, v.1 as int)) && i
            < v.1 <= s@.len(),
        r is None ==> spec_rd_permission(s@, i as int) is None,
{
    if s.len() - i < 4 {
        return None;
    }
    let tag = read_u32_le_at(s, i);
    if tag == 0 {
        if s.len() - (i + 4) < 4 {
            return None;
        }
        let k = read_u32_le_at(s, i + 4);
        Some((PermissionLevel::Admin(k), i + 8))
    } else if tag == 1 {
        Some((PermissionLevel::Standart, i + 4))
    } else if tag == 2 {
        Some((PermissionLevel::Node, i + 4))
    } else if tag == 3 {
        Some((PermissionLevel::Any, i + 4))
    } else {
        None
    }
}

/// Decodes a permission level from its binary blob; the blob must be
/// consumed whole.
pub fn deserialize_permission(bytes: &[u8]) -> (r: Option<PermissionLevel>)
    ensures
        r == spec_deser_permission(bytes@),
{
    match read_permission_at(bytes, 0) {
        Some((p, j)) => if j == bytes.len() {
            Some(p)
        } else {
            None
        },
        None => None,
    }
}

/// Encodes a command for the wire, one command per tunnel frame.
pub fn serialize_cmd(c: &Cmd) -> (r: Vec<u8>)
    ensures
        r@ == spec_ser_cmd(c@),
{
    let mut out: Vec<u8> = Vec::new();
    match c {
        Cmd::Noop => {
            push_u32_le(&mut out, 0);
        },
        Cmd::Authenticate { token } => {
            push_u32_le(&mut out, 1);
            push_bytes(&mut out, token.as_slice());
        },
        Cmd::GetPort { hostname, port } => {
            push_u32_le(&mut out, 2);
            push_bytes(&mut out, hostname.as_slice());
            push_u32_le(&mut out, *port);
        },
        Cmd::SharePort { port, id } => {
            push_u32_le(&mut out, 3);
            push_u32_le(&mut out, *port);
            push_u64_le(&mut out, *id);
        },
        Cmd::ListClients { after, limit } => {
            push_u32_le(&mut out, 4);
            push_bytes(&mut out, after.as_slice());
            push_u64_le(&mut out, *limit);
        },
        Cmd::AddClient { username, token, permission_level } => {
            push_u32_le(&mut out, 5);
            push_bytes(&mut out, username.as_slice());
            push_bytes(&mut out, token.as_slice());
            push_permission(&mut out, permission_level);
        },
        Cmd::RemoveClient { username } => {
            push_u32_le(&mut out, 6);
            push_bytes(&mut out, username.as_slice());
        },
    }
    proof {
        assert(out@ =~= spec_ser_cmd(c@));
    }
    out
}

/// Decodes a command from one tunnel payload; the payload must be consumed
/// whole.  The result is exactly what `spec_deser_cmd` says the bytes
/// denote.
pub fn deserialize_cmd(bytes: &[u8]) -> (r: Option<Cmd>)
    ensures
        r matches Some(c) ==> spec_deser_cmd(bytes@) == Some(c@),
        r is None ==> spec_deser_cmd(bytes@) is None,
{
    if bytes.len() < 4 {
        return None;
    }
    let tag = read_u32_le_at(bytes, 0);
    if tag == 0 {
        if bytes.len() == 4 {
            Some(Cmd::Noop)
        } else {
            None
        }
    } else if tag == 1 {
        match read_bytes_at(bytes, 4) {
            Some((token, j)) => if j == bytes.len() {
                Some(Cmd::Authenticate { token })
            } else {
                None
            },
            None => None,
        }
    } else if tag == 2 {
        match read_bytes_at(bytes, 4) {
            Some((hostname, j)) => {
                if bytes.len() - j < 4 {
                    return None;
                }
                let port = read_u32_le_at(bytes, j);
                if j + 4 == bytes.len() {
                    Some(Cmd::GetPort { hostname, port })
                } else {
                    None
                }
            },
            None => None,
        }
    } else if tag == 3 {
        if bytes.len() - 4 < 4 {
            return None;
        }
        let port = read_u32_le_at(bytes, 4);
        if bytes.len() - 8 < 8 {
            return None;
        }
        let id = read_u64_le_at(bytes, 8);
        if bytes.len() == 16 {
            Some(Cmd::SharePort { port, id })
        } else {
            None
        }
    } else if tag == 4 {
        match read_bytes_at(bytes, 4) {
            Some((after, j)) => {
                if bytes.len() - j < 8 {
                    return None;
                }
                let limit = read_u64_le_at(bytes, j);
                if j + 8 == bytes.len() {
                    Some(Cmd::ListClients { after, limit })
                } else {
                    None
                }
            },
            None => None,
        }
    } else if tag == 5 {
        match read_bytes_at(bytes, 4) {
            Some((username, j)) => match read_bytes_at(bytes, j) {
                Some((token, j2)) => match read_permission_at(bytes, j2) {
                    Some((permission_level, j3)) => if j3 == bytes.len() {
                        Some(Cmd::AddClient { username, token, permission_level })
                    } else {
                        None
                    },
                    None => None,
                },
                None => None,
            },
            None => None,
        }
    } else if tag == 6 {
        match read_bytes_at(bytes, 4) {
            Some((username, j)) => if j == bytes.len() {
                Some(Cmd::RemoveClient { username })
            } else {
                None
            },
            None => None,
        }
    } else {
        None
    }
}

} // verus!
