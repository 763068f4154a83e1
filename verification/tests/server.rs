use proxy::command::Cmd;
use proxy::connection::{
    fresh_forward_id, grant_forward, handle_command, on_lookup, ConnectionState, Directive,
    ForwardKind,
};
use proxy::permission::PermissionLevel;
use proxy::registry::{NodeMap, PendingMap};

#[test]
fn at_least_orders_levels() {
    // Reflexive on every variant.
    for p in [
        PermissionLevel::Admin(0),
        PermissionLevel::Admin(7),
        PermissionLevel::Standart,
        PermissionLevel::Node,
        PermissionLevel::Any,
    ] {
        assert!(p.at_least(&p));
    }
    // Between admins, the higher level outranks.
    assert!(PermissionLevel::Admin(3).at_least(&PermissionLevel::Admin(2)));
    assert!(PermissionLevel::Admin(3).at_least(&PermissionLevel::Admin(3)));
    assert!(!PermissionLevel::Admin(2).at_least(&PermissionLevel::Admin(3)));
    // An admin outranks every non-admin.
    assert!(PermissionLevel::Admin(0).at_least(&PermissionLevel::Standart));
    assert!(PermissionLevel::Admin(0).at_least(&PermissionLevel::Node));
    // Everything is at least Any; Any is at least nothing else.
    assert!(PermissionLevel::Standart.at_least(&PermissionLevel::Any));
    assert!(PermissionLevel::Node.at_least(&PermissionLevel::Any));
    assert!(PermissionLevel::Any.at_least(&PermissionLevel::Any));
    assert!(!PermissionLevel::Any.at_least(&PermissionLevel::Standart));
    assert!(!PermissionLevel::Any.at_least(&PermissionLevel::Node));
    // Standart and Node are incomparable.
    assert!(!PermissionLevel::Standart.at_least(&PermissionLevel::Node));
    assert!(!PermissionLevel::Node.at_least(&PermissionLevel::Standart));
}

#[test]
fn minimum_permission_per_command() {
    assert_eq!(Cmd::Noop.minimum_permission_level(), PermissionLevel::Any);
    assert_eq!(
        Cmd::Authenticate { token: vec![] }.minimum_permission_level(),
        PermissionLevel::Any,
    );
    assert_eq!(
        Cmd::GetPort { hostname: b"n1".to_vec(), port: 1 }.minimum_permission_level(),
        PermissionLevel::Standart,
    );
    assert_eq!(
        Cmd::SharePort { port: 1, id: 1 }.minimum_permission_level(),
        PermissionLevel::Node,
    );
    assert_eq!(
        Cmd::ListClients { after: vec![], limit: 1 }.minimum_permission_level(),
        PermissionLevel::Admin(0),
    );
    assert_eq!(
        Cmd::RemoveClient { username: b"u".to_vec() }.minimum_permission_level(),
        PermissionLevel::Admin(0),
    );
    // Minting an admin takes a level strictly above the grantee's.
    assert_eq!(
        Cmd::AddClient {
            username: b"u".to_vec(),
            token: b"t".to_vec(),
            permission_level: PermissionLevel::Admin(4),
        }
        .minimum_permission_level(),
        PermissionLevel::Admin(5),
    );
    assert_eq!(
        Cmd::AddClient {
            username: b"u".to_vec(),
            token: b"t".to_vec(),
            permission_level: PermissionLevel::Standart,
        }
        .minimum_permission_level(),
        PermissionLevel::Admin(0),
    );
}

/// A tiny stand-in for the credential store.
fn lookup(token: &[u8]) -> Option<(Vec<u8>, PermissionLevel)> {
    let rows: Vec<(&[u8], &[u8], PermissionLevel)> = vec![
        (b"T1", b"n1", PermissionLevel::Node),
        (b"T2", b"u1", PermissionLevel::Standart),
    ];
    for (t, h, p) in rows {
        if t == token {
            return Some((h.to_vec(), p));
        }
    }
    None
}

#[test]
fn node_registration_and_forward() {
    // The registry holds connection handles; a plain number stands in.
    let mut nodes: NodeMap<u32> = NodeMap::new();
    let mut pending: PendingMap<(u8, u8)> = PendingMap::new();

    // The node dials in and authenticates with T1.
    let mut node_state = ConnectionState::Socket;
    let d = handle_command(&mut node_state, Cmd::Authenticate { token: b"T1".to_vec() });
    let token = match d {
        Directive::Lookup { token } => token,
        other => panic!("expected a lookup, got {other:?}"),
    };
    let found = lookup(&token);
    let duplicate = nodes.contains(b"n1");
    assert!(!duplicate);
    assert!(on_lookup(&mut node_state, found, duplicate));
    assert!(nodes.register(b"n1".to_vec(), 1));
    assert_eq!(
        node_state,
        ConnectionState::Authorized {
            hostname: b"n1".to_vec(),
            permission_level: PermissionLevel::Node,
        },
    );

    // The client dials in, authenticates with T2 and asks for a forward.
    let mut client_state = ConnectionState::Socket;
    let d = handle_command(&mut client_state, Cmd::Authenticate { token: b"T2".to_vec() });
    let token = match d {
        Directive::Lookup { token } => token,
        other => panic!("expected a lookup, got {other:?}"),
    };
    let found = lookup(&token);
    let duplicate = nodes.contains(b"u1");
    assert!(on_lookup(&mut client_state, found, duplicate));
    assert!(nodes.register(b"u1".to_vec(), 2));

    let d = handle_command(
        &mut client_state,
        Cmd::GetPort { hostname: b"n1".to_vec(), port: 2222 },
    );
    assert_eq!(d, Directive::AwaitNode { hostname: b"n1".to_vec(), port: 2222 });
    assert!(nodes.get(b"n1").is_some());
    let id = fresh_forward_id();
    let to_node = grant_forward(&mut client_state, 2222, id);
    assert_eq!(to_node, Cmd::SharePort { port: 2222, id });
    assert_eq!(
        client_state,
        ConnectionState::PortForward {
            hostname: b"u1".to_vec(),
            kind: ForwardKind::Receive,
            port: 2222,
            id,
        },
    );

    // The receive half parks its raw halves under the id.
    assert!(pending.insert(id, (3, 4)));

    // The node opens a second connection for the circuit: it authenticates
    // under the already-registered hostname, so it is authorized but not
    // registered, and then shares its circuit.
    let mut share_conn = ConnectionState::Socket;
    let d = handle_command(&mut share_conn, Cmd::Authenticate { token: b"T1".to_vec() });
    let token = match d {
        Directive::Lookup { token } => token,
        other => panic!("expected a lookup, got {other:?}"),
    };
    let found = lookup(&token);
    let duplicate = nodes.contains(b"n1");
    assert!(duplicate);
    assert!(!on_lookup(&mut share_conn, found, duplicate));
    let d = handle_command(&mut share_conn, Cmd::SharePort { port: 2222, id });
    assert_eq!(d, Directive::EnterShare { port: 2222, id });
    assert_eq!(
        share_conn,
        ConnectionState::PortForward {
            hostname: b"n1".to_vec(),
            kind: ForwardKind::Share,
            port: 2222,
            id,
        },
    );

    // The share half claims the parked halves; the pairing happens once.
    assert_eq!(pending.claim(id), Some((3, 4)));
    assert_eq!(pending.claim(id), None);
}

#[test]
fn permission_gate_blocks_standard_adding_admin() {
    let mut state = ConnectionState::Authorized {
        hostname: b"u1".to_vec(),
        permission_level: PermissionLevel::Standart,
    };
    let d = handle_command(
        &mut state,
        Cmd::AddClient {
            username: b"evil".to_vec(),
            token: b"x".to_vec(),
            permission_level: PermissionLevel::Admin(0),
        },
    );
    // No insert is asked for, and the connection stays as it was.
    assert_eq!(d, Directive::Ignore);
    assert!(matches!(state, ConnectionState::Authorized { .. }));
}

#[test]
fn top_level_admin_cannot_be_minted() {
    // No level stands strictly above the top one, so even the strongest
    // admin may not grant it.
    let mut state = ConnectionState::Authorized {
        hostname: b"root".to_vec(),
        permission_level: PermissionLevel::Admin(u32::MAX),
    };
    let d = handle_command(
        &mut state,
        Cmd::AddClient {
            username: b"peer".to_vec(),
            token: b"x".to_vec(),
            permission_level: PermissionLevel::Admin(u32::MAX),
        },
    );
    assert_eq!(d, Directive::Ignore);
    // One level below is grantable, by the top admin alone.
    let d = handle_command(
        &mut state,
        Cmd::AddClient {
            username: b"peer".to_vec(),
            token: b"x".to_vec(),
            permission_level: PermissionLevel::Admin(u32::MAX - 1),
        },
    );
    assert_eq!(
        d,
        Directive::InsertClient {
            username: b"peer".to_vec(),
            token: b"x".to_vec(),
            permission_level: PermissionLevel::Admin(u32::MAX - 1),
        },
    );
}

#[test]
fn share_port_needs_node_permission() {
    let mut state = ConnectionState::Authorized {
        hostname: b"u1".to_vec(),
        permission_level: PermissionLevel::Standart,
    };
    let d = handle_command(&mut state, Cmd::SharePort { port: 2222, id: 9 });
    assert_eq!(d, Directive::Ignore);
    assert!(matches!(state, ConnectionState::Authorized { .. }));
}

#[test]
fn duplicate_node_registration_is_refused() {
    let mut nodes: NodeMap<u32> = NodeMap::new();

    let mut first = ConnectionState::Socket;
    let found = lookup(b"T1");
    assert!(on_lookup(&mut first, found, nodes.contains(b"n1")));
    assert!(nodes.register(b"n1".to_vec(), 1));

    // The second connection authenticates with the same token back to back:
    // the pre-existing registration wins, the newcomer is never registered.
    let mut second = ConnectionState::Socket;
    let found = lookup(b"T1");
    let duplicate = nodes.contains(b"n1");
    assert!(duplicate);
    assert!(!on_lookup(&mut second, found, duplicate));
    assert!(!nodes.register(b"n1".to_vec(), 2));
    assert_eq!(nodes.get(b"n1"), Some(&1));
}

#[test]
fn unknown_token_is_ignored() {
    let mut state = ConnectionState::Socket;
    let found = lookup(b"nope");
    assert_eq!(found, None);
    assert!(!on_lookup(&mut state, found, false));
    assert_eq!(state, ConnectionState::Socket);
}

#[test]
fn pending_entries_are_claimed_exactly_once() {
    let mut pending: PendingMap<u8> = PendingMap::new();
    assert!(pending.insert(42, 7));
    // A second insert under a live id is refused, never an overwrite.
    assert!(!pending.insert(42, 8));
    assert!(pending.contains(42));
    assert_eq!(pending.claim(42), Some(7));
    // The entry is gone: no second claim can observe it.
    assert!(!pending.contains(42));
    assert_eq!(pending.claim(42), None);
    // A fresh insert under the same id starts a new circuit.
    assert!(pending.insert(42, 9));
    assert_eq!(pending.claim(42), Some(9));
}

#[test]
fn node_registry_removal() {
    let mut nodes: NodeMap<u32> = NodeMap::new();
    assert!(nodes.register(b"n1".to_vec(), 1));
    assert!(nodes.register(b"n2".to_vec(), 2));
    assert_eq!(nodes.remove(b"n1"), Some(1));
    assert_eq!(nodes.remove(b"n1"), None);
    assert_eq!(nodes.get(b"n2"), Some(&2));
    assert!(nodes.register(b"n1".to_vec(), 3));
    assert_eq!(nodes.get(b"n1"), Some(&3));
}

#[test]
fn port_forward_hears_nothing() {
    let mut state = ConnectionState::PortForward {
        hostname: b"n1".to_vec(),
        kind: ForwardKind::Share,
        port: 2222,
        id: 5,
    };
    let d = handle_command(&mut state, Cmd::Noop);
    assert_eq!(d, Directive::Ignore);
    let d = handle_command(&mut state, Cmd::Authenticate { token: b"T1".to_vec() });
    assert_eq!(d, Directive::Ignore);
}
