use proxy::client::{Client, ClientDirective};
use proxy::command::{deserialize_cmd, deserialize_permission, serialize_cmd, serialize_permission, Cmd};
use proxy::permission::PermissionLevel;
use proxy::wire::{bytes_eq, push_u64_be, read_u64_be};

fn round_trip(cmd: &Cmd) -> Cmd {
    let bytes = serialize_cmd(cmd);
    deserialize_cmd(&bytes).expect("an encoded command must decode")
}

#[test]
fn command_round_trip_every_variant() {
    let cases = vec![
        Cmd::Noop,
        Cmd::Authenticate { token: b"T1".to_vec() },
        Cmd::GetPort { hostname: b"n1".to_vec(), port: 2222 },
        Cmd::SharePort { port: 2222, id: 0x0123_4567_89ab_cdef },
        Cmd::ListClients { after: b"alice".to_vec(), limit: 10 },
        Cmd::AddClient {
            username: b"bob".to_vec(),
            token: b"tok".to_vec(),
            permission_level: PermissionLevel::Admin(3),
        },
        Cmd::RemoveClient { username: b"bob".to_vec() },
    ];
    for cmd in cases {
        assert_eq!(round_trip(&cmd), cmd);
    }
}

#[test]
fn command_wire_format_is_fixed() {
    assert_eq!(serialize_cmd(&Cmd::Noop), vec![0, 0, 0, 0]);
    assert_eq!(
        serialize_cmd(&Cmd::Authenticate { token: b"T1".to_vec() }),
        vec![1, 0, 0, 0, 2, 0, 0, 0, 0, 0, 0, 0, 84, 49],
    );
    assert_eq!(
        serialize_cmd(&Cmd::SharePort { port: 2222, id: 7 }),
        vec![3, 0, 0, 0, 0xae, 0x08, 0, 0, 7, 0, 0, 0, 0, 0, 0, 0],
    );
}

#[test]
fn command_decode_rejects_garbage() {
    assert_eq!(deserialize_cmd(&[]), None);
    assert_eq!(deserialize_cmd(&[99, 0, 0, 0]), None);
    // A trailing byte after a complete command is refused.
    let mut bytes = serialize_cmd(&Cmd::Noop);
    bytes.push(0);
    assert_eq!(deserialize_cmd(&bytes), None);
    // A length prefix past the end of the payload is refused.
    assert_eq!(deserialize_cmd(&[1, 0, 0, 0, 200, 0, 0, 0, 0, 0, 0, 0]), None);
}

#[test]
fn permission_blob_round_trip() {
    let cases = vec![
        PermissionLevel::Admin(0),
        PermissionLevel::Admin(u32::MAX),
        PermissionLevel::Standart,
        PermissionLevel::Node,
        PermissionLevel::Any,
    ];
    for p in cases {
        let blob = serialize_permission(&p);
        assert_eq!(deserialize_permission(&blob), Some(p));
    }
    assert_eq!(serialize_permission(&PermissionLevel::Standart), vec![1, 0, 0, 0]);
    assert_eq!(serialize_permission(&PermissionLevel::Admin(5)), vec![0, 0, 0, 0, 5, 0, 0, 0]);
    assert_eq!(deserialize_permission(&[9, 0, 0, 0]), None);
    assert_eq!(deserialize_permission(&[1, 0, 0, 0, 1]), None);
}

#[test]
fn big_endian_header_layout() {
    let mut out: Vec<u8> = Vec::new();
    push_u64_be(&mut out, 0x0102_0304_0506_0708);
    assert_eq!(out, vec![1, 2, 3, 4, 5, 6, 7, 8]);
    assert_eq!(read_u64_be(&out), 0x0102_0304_0506_0708);
    let mut small: Vec<u8> = Vec::new();
    push_u64_be(&mut small, 2);
    assert_eq!(small, vec![0, 0, 0, 0, 0, 0, 0, 2]);
}

#[test]
fn byte_equality() {
    assert!(bytes_eq(b"n1", b"n1"));
    assert!(!bytes_eq(b"n1", b"n2"));
    assert!(!bytes_eq(b"n1", b"n11"));
    assert!(bytes_eq(b"", b""));
}

#[test]
fn decimal_port_parsing() {
    assert_eq!(proxy::client::parse_u32_dec(b"2222"), Some(2222));
    assert_eq!(proxy::client::parse_u32_dec(b"0"), Some(0));
    assert_eq!(proxy::client::parse_u32_dec(b"4294967295"), Some(u32::MAX));
    assert_eq!(proxy::client::parse_u32_dec(b"4294967296"), None);
    assert_eq!(proxy::client::parse_u32_dec(b""), None);
    assert_eq!(proxy::client::parse_u32_dec(b"12a"), None);
}

#[test]
fn operator_line_parsing() {
    assert_eq!(
        Client::parse_line(b"get n1 2222 8080\n"),
        ClientDirective::Get { hostname: b"n1".to_vec(), port: 2222, local_port: 8080 },
    );
    assert_eq!(
        Client::parse_line(b"add_usr bob tok\r\n"),
        ClientDirective::AddUser { username: b"bob".to_vec(), token: b"tok".to_vec() },
    );
    assert_eq!(Client::parse_line(b"bogus\n"), ClientDirective::Unknown);
    assert_eq!(Client::parse_line(b"get n1 99999999999 1\n"), ClientDirective::Unknown);
    assert_eq!(Client::parse_line(b"get n1 2222\n"), ClientDirective::Unknown);
    assert_eq!(Client::parse_line(b""), ClientDirective::Unknown);
}
