use proxy::error::Error;
use proxy::frame::{decode_frame, encode_frame};
use proxy::keys::{generate_keypair, PrivateKey, PublicKey};
use proxy::mtls::{Mtls, MtlsState};

#[test]
fn frame_round_trip_edge_sizes() {
    let (sk, pk) = generate_keypair(512).expect("keypair generation");
    let size = pk.size();
    assert_eq!(size, 64);
    let block = size - 11;
    let sizes =
        vec![0usize, 1, block - 1, block, block + 1, 10 * block];
    for len in sizes {
        let payload: Vec<u8> = (0..len).map(|i| (i % 251) as u8).collect();
        let frame = encode_frame(&pk, &payload).expect("encoding");
        let expected_blocks = len.div_ceil(block);
        assert_eq!(frame.len(), 8 + expected_blocks * size);
        let back = decode_frame(&sk, &frame).expect("decoding");
        assert_eq!(back, payload);
    }
}

#[test]
fn empty_payload_is_a_valid_frame() {
    let (sk, pk) = generate_keypair(512).expect("keypair generation");
    // An empty payload encodes as the bare zero-count header.
    let frame = encode_frame(&pk, b"").expect("an empty payload must encode");
    assert_eq!(frame, vec![0u8; 8]);
    assert_eq!(decode_frame(&sk, &frame), Ok(Vec::new()));
}

#[test]
fn frame_decode_refuses_bad_shapes() {
    let (sk, pk) = generate_keypair(512).expect("keypair generation");
    // Too short for a header.
    assert_eq!(decode_frame(&sk, &[0, 0, 0]), Err(Error::Io));
    // Header count that does not match the body length.
    let mut frame = encode_frame(&pk, b"hello").expect("encoding");
    frame[7] = 9;
    assert_eq!(decode_frame(&sk, &frame), Err(Error::Io));
    // Truncated body.
    let frame = encode_frame(&pk, b"hello").expect("encoding");
    assert_eq!(decode_frame(&sk, &frame[..frame.len() - 1]), Err(Error::Io));
}

#[test]
fn frame_decode_refuses_a_bad_block() {
    let (sk, _) = generate_keypair(512).expect("keypair generation");
    // One all-zero block cannot carry PKCS#1 v1.5 padding.
    let mut frame = vec![0u8; 8 + 64];
    frame[7] = 1;
    assert_eq!(decode_frame(&sk, &frame), Err(Error::Rsa));
}

#[test]
fn handshake_and_echo() {
    // The server's public key is pre-installed on the client; the client
    // sends its own public key through the tunnel, and both sides then
    // exchange the same large payload.  Frames travel through byte buffers
    // in place of a socket.
    let (server_sk, server_pk) = generate_keypair(512).expect("server keypair");
    let (client_sk, _) = generate_keypair(512).expect("client keypair");

    let mut client = Mtls::new(client_sk);
    client.set_public_key(server_pk);
    assert!(matches!(client.get_state(), MtlsState::Authenticated));

    let mut server = Mtls::new(server_sk);
    assert!(matches!(server.get_state(), MtlsState::AwaitingPublicKey));

    // Client sends its public key; server completes the handshake.
    let key_frame = client.public_key_frame().expect("client sends its certificate");
    let key_payload = server.decode_received(&key_frame).expect("server reads the frame");
    server.handshake_inner(Ok(key_payload)).expect("server installs the certificate");
    assert!(matches!(server.get_state(), MtlsState::Authenticated));

    let msg = b"a repetitive message".repeat(64);

    let to_server = client.encode_send(&msg).expect("client encrypts");
    let server_received = server.decode_received(&to_server).expect("server decrypts");
    assert_eq!(server_received, msg);

    let to_client = server.encode_send(&msg).expect("server encrypts");
    let client_received = client.decode_received(&to_client).expect("client decrypts");
    assert_eq!(client_received, msg);
}

#[test]
fn exchange_keys_and_echo_both_ways() {
    // The verified end-to-end guarantee, run on real keys: the handshake
    // installs the client's key and the payload crosses both ways intact.
    let (server_sk, server_pk) = generate_keypair(512).expect("server keypair");
    let (client_sk, _) = generate_keypair(512).expect("client keypair");
    let msg = b"a repetitive message".repeat(64);
    let (at_server, at_client) =
        proxy::mtls::exchange_keys_and_echo(server_sk, client_sk, server_pk, &msg);
    assert_eq!(at_server, msg);
    assert_eq!(at_client, msg);
}

#[test]
fn unauthenticated_send_rejected() {
    let (sk, _) = generate_keypair(512).expect("keypair generation");
    let mut tunnel = Mtls::new(sk);
    // Without a peer key, sending is refused outright.
    assert_eq!(tunnel.encode_send(b"x"), Err(Error::NotReady));
    assert_eq!(tunnel.public_key_frame(), Err(Error::NotReady));
    // Receiving is not short-circuited: the channel is still alive.
    assert!(tunnel.begin_receive().is_ok());
    assert!(!matches!(tunnel.get_state(), MtlsState::TransmitError));
}

#[test]
fn dead_channel_fails_fast() {
    let (server_sk, server_pk) = generate_keypair(512).expect("keypair generation");
    let mut tunnel = Mtls::new(server_sk);
    tunnel.set_public_key(server_pk);
    tunnel.mark_io_error();
    assert!(matches!(tunnel.get_state(), MtlsState::TransmitError));
    // Every subsequent operation fails without touching the wire.
    assert_eq!(tunnel.encode_send(b"x"), Err(Error::SocketDied));
    assert_eq!(tunnel.begin_receive(), Err(Error::SocketDied));
    assert_eq!(tunnel.decode_received(&[0; 8]), Err(Error::SocketDied));
    assert_eq!(tunnel.public_key_frame(), Err(Error::SocketDied));
}

#[test]
fn handshake_timeout_kills_the_channel() {
    let (sk, _) = generate_keypair(512).expect("keypair generation");
    let mut tunnel = Mtls::new(sk);
    tunnel.set_timeout(Some(100));
    assert_eq!(tunnel.get_timeout(), Some(100));
    // The deadline passed without a certificate.
    assert_eq!(tunnel.handshake_inner(Err(Error::Timeout)), Err(Error::Timeout));
    assert!(matches!(tunnel.get_state(), MtlsState::TransmitError));
    assert_eq!(tunnel.encode_send(b"x"), Err(Error::SocketDied));
}

#[test]
fn handshake_rejects_a_garbage_certificate() {
    let (sk, _) = generate_keypair(512).expect("keypair generation");
    let mut tunnel = Mtls::new(sk);
    assert_eq!(tunnel.handshake_inner(Ok(vec![1, 2, 3])), Err(Error::Pkcs1));
    assert!(matches!(tunnel.get_state(), MtlsState::TransmitError));
}

#[test]
fn duplicated_keys_are_the_same_keys() {
    let (sk, pk) = generate_keypair(512).expect("keypair generation");
    let payload = b"carried across copies".to_vec();
    let frame = encode_frame(&pk.duplicate(), &payload).expect("encoding");
    let back = decode_frame(&sk.duplicate(), &frame).expect("decoding");
    assert_eq!(back, payload);
}

#[test]
fn public_key_der_round_trip() {
    let (sk, _) = generate_keypair(512).expect("keypair generation");
    let der = sk.public_der().expect("encoding the public key");
    let pk = PublicKey::from_pkcs1_der(&der).expect("decoding the public key");
    assert_eq!(pk.size(), 64);
    // The parsed key is usable: what it encrypts, the private key opens.
    let frame = encode_frame(&pk, b"through the wire key").expect("encoding");
    let back = decode_frame(&sk, &frame).expect("decoding");
    assert_eq!(back, b"through the wire key".to_vec());
}

#[test]
fn pem_parsing_rejects_garbage() {
    assert_eq!(PrivateKey::from_pkcs1_pem("not a pem").err(), Some(Error::Pkcs1));
    assert_eq!(PublicKey::from_pkcs1_pem("not a pem").err(), Some(Error::Pkcs1));
}

#[test]
fn error_messages_name_the_failure() {
    assert_eq!(
        Error::NotReady.message(),
        "Public key not received yet. Consider awaiting the `handshake`.",
    );
    assert_eq!(
        Error::SocketDied.message(),
        "Transmission interrupted due to an error. Consider reconnecting.",
    );
    assert_eq!(Error::Timeout.message(), "Key exchange timed out. Please try reconnecting.");
}
