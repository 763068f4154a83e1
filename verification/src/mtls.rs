//! The tunnel core: a framed, RSA-encrypted message channel.
//!
//! The core owns the local private key, the optional peer public key and
//! the channel state; it turns payloads into frames and frames back into
//! payloads.  The byte stream itself lives outside: the caller writes the
//! frames this core produces, reads the frames it consumes, and reports
//! transport failures through `mark_io_error`.
//!
//! No frame is ever produced while the state is not `Authenticated`, and
//! once the state is `TransmitError` every operation fails fast without
//! touching the wire.

use vstd::prelude::*;

use crate::error::Error;
use crate::frame::{
    decode_frame, encode_frame, frame_good, frame_shape_ok, frame_wf, spec_decode_frame,
};
use crate::keys::{PrivateKey, PublicKey};

verus! {

/// State of the tunnel.
#[derive(Debug, Clone, Copy, PartialEq, Eq, Structural)]
pub enum MtlsState {
    /// The peer's public key has not been received yet.
    AwaitingPublicKey,
    /// The tunnel is established; sending is allowed.
    Authenticated,
    /// An error occurred during transmission; the channel is dead.
    TransmitError,
}

/// The tunnel core, layered under a duplex byte stream held by the caller.
pub struct Mtls {
    private_key: PrivateKey,
    public_key: Option<PublicKey>,
    state: MtlsState,
    timeout_ms: Option<u64>,
}

impl Mtls {
    /// The channel state.
    pub closed spec fn state_spec(&self) -> MtlsState {
        self.state
    }

    /// The installed peer public key, if any.
    pub closed spec fn peer_key(&self) -> Option<PublicKey> {
        self.public_key
    }

    /// The local private key.
    pub closed spec fn local_key(&self) -> PrivateKey {
        self.private_key
    }

    /// The configured handshake timeout in milliseconds, if any.
    pub closed spec fn timeout_spec(&self) -> Option<u64> {
        self.timeout_ms
    }

    /// The tunnel always carries a framable local key, and while it is
    /// `Authenticated` it holds a framable peer key.
    pub open spec fn wf(&self) -> bool {
        &&& self.local_key().size_spec() >= 12
        &&& (self.state_spec() == MtlsState::Authenticated ==> self.peer_key() is Some)
        &&& (self.peer_key() matches Some(pk) ==> pk.size_spec() >= 12)
    }

    /// A new tunnel around `private_key`: no peer key, no timeout, awaiting
    /// the peer's public key.
    pub fn new(private_key: PrivateKey) -> (r: Mtls)
        requires
            private_key.size_spec() >= 12,
        ensures
            r.wf(),
            r.state_spec() == MtlsState::AwaitingPublicKey,
            r.peer_key() is None,
            r.local_key() == private_key,
            r.timeout_spec() is None,
    {
        Mtls { private_key, public_key: None, state: MtlsState::AwaitingPublicKey, timeout_ms: None }
    }

    /// Sets the duration in milliseconds before the key exchange times out.
    pub fn set_timeout(&mut self, timeout_ms: Option<u64>)
        ensures
            final(self).timeout_spec() == timeout_ms,
            final(self).state_spec() == old(self).state_spec(),
            final(self).peer_key() == old(self).peer_key(),
            final(self).local_key() == old(self).local_key(),
    {
        self.timeout_ms = timeout_ms;
    }

    /// The configured handshake timeout in milliseconds, if any.
    pub fn get_timeout(&self) -> (r: Option<u64>)
        ensures
            r == self.timeout_spec(),
    {
        self.timeout_ms
    }

    /// The current state of the tunnel.
    pub fn get_state(&self) -> (r: MtlsState)
        ensures
            r == self.state_spec(),
    {
        self.state
    }

    /// The modulus size of the local key: received ciphertext blocks are
    /// exactly this long.
    pub fn block_size(&self) -> (r: usize)
        ensures
            r == self.local_key().size_spec(),
    {
        self.private_key.size()
    }

    /// Installs a peer public key obtained out of band, anchoring trust on
    /// this side, and authenticates the tunnel.
    pub fn set_public_key(&mut self, public_key: PublicKey)
        requires
            old(self).wf(),
            public_key.size_spec() >= 12,
        ensures
            final(self).wf(),
            final(self).state_spec() == MtlsState::Authenticated,
            final(self).peer_key() == Some(public_key),
            final(self).local_key() == old(self).local_key(),
            final(self).timeout_spec() == old(self).timeout_spec(),
    {
        self.public_key = Some(public_key);
        self.state = MtlsState::Authenticated;
    }

    /// Records a failure of the underlying stream: the channel is dead and
    /// every later operation fails fast.
    pub fn mark_io_error(&mut self)
        ensures
            final(self).state_spec() == MtlsState::TransmitError,
            final(self).peer_key() == old(self).peer_key(),
            final(self).local_key() == old(self).local_key(),
            final(self).timeout_spec() == old(self).timeout_spec(),
    {
        self.state = MtlsState::TransmitError;
    }

    /// Concludes the handshake from the payload the caller received for it:
    /// parses the payload as a PKCS#1 DER public key and installs it.
    ///
    /// The caller hands in the result of its receive, `Err` carrying a
    /// transport failure or `Error::Timeout` when the deadline passed.  The
    /// handshake succeeds exactly when the payload parses to a key large
    /// enough to frame with, and then installs the key the payload names;
    /// any failure leaves the tunnel in `TransmitError`.
    pub fn handshake_inner(&mut self, cert: Result<Vec<u8>, Error>) -> (r: Result<(), Error>)
        requires
            old(self).wf(),
        ensures
            final(self).wf(),
            final(self).local_key() == old(self).local_key(),
            final(self).timeout_spec() == old(self).timeout_spec(),
            cert matches Err(e) ==> r == Err::<(), Error>(e) && final(self).state_spec()
                == MtlsState::TransmitError && final(self).peer_key() == old(self).peer_key(),
            cert matches Ok(der) ==> match r {
                Ok(_) => {
                    &&& crate::keys::rsa_pub_parse(der@) matches Some(s) && s >= 12
                    &&& final(self).state_spec() == MtlsState::Authenticated
                    &&& final(self).peer_key() matches Some(pk) && pk.size_spec()
                        == crate::keys::rsa_pub_parse(der@)->Some_0 && pk.pair_id()
                        == crate::keys::rsa_der_key_id(der@)
                },
                Err(e) => {
                    &&& !(crate::keys::rsa_pub_parse(der@) matches Some(s) && s >= 12)
                    &&& e == Error::Pkcs1
                    &&& final(self).state_spec() == MtlsState::TransmitError
                    &&& final(self).peer_key() == old(self).peer_key()
                },
            },
    {
        match cert {
            Ok(der) => match PublicKey::from_pkcs1_der(der.as_slice()) {
                Ok(pk) => {
                    if pk.size() < 12 {
                        self.state = MtlsState::TransmitError;
                        Err(Error::Pkcs1)
                    } else {
                        self.public_key = Some(pk);
                        self.state = MtlsState::Authenticated;
                        Ok(())
                    }
                },
                Err(e) => {
                    self.state = MtlsState::TransmitError;
                    Err(e)
                },
            },
            Err(e) => {
                self.state = MtlsState::TransmitError;
                Err(e)
            },
        }
    }

    /// Encrypts `data` into one frame for the peer, to be written to the
    /// stream whole.
    ///
    /// Only an `Authenticated` tunnel produces a frame: before the
    /// handshake the result is `Error::NotReady`, on a dead channel
    /// `Error::SocketDied`, both without touching the tunnel.  An
    /// authenticated tunnel always succeeds.
    pub fn encode_send(&mut self, data: &[u8]) -> (r: Result<Vec<u8>, Error>)
        requires
            old(self).wf(),
        ensures
            final(self).wf(),
            *final(self) == *old(self),
            old(self).state_spec() == MtlsState::TransmitError ==> r == Err::<Vec<u8>, Error>(
                Error::SocketDied,
            ),
            old(self).state_spec() == MtlsState::AwaitingPublicKey ==> r == Err::<Vec<u8>, Error>(
                Error::NotReady,
            ),
            old(self).state_spec() == MtlsState::Authenticated ==> (r matches Ok(frame) && {
                let pk = old(self).peer_key()->Some_0;
                &&& frame_wf(pk.size_spec() as int, frame@, data@.len() as int)
                &&& (pk.pair_id() matches Some(key_id) ==> frame_good(
                    key_id,
                    pk.size_spec() as int,
                    frame@,
                    data@,
                ))
            }),
    {
        match self.state {
            MtlsState::TransmitError => Err(Error::SocketDied),
            MtlsState::AwaitingPublicKey => Err(Error::NotReady),
            MtlsState::Authenticated => {
                let pk = self.public_key.as_ref().unwrap();
                match encode_frame(pk, data) {
                    Ok(frame) => Ok(frame),
                    Err(_) => vstd::pervasive::unreached(),
                }
            },
        }
    }

    /// Admits or refuses a receive: on a dead channel the result is
    /// `Error::SocketDied`, in every other state the local block size, so
    /// the caller knows how many bytes each block of the incoming frame
    /// holds.  Receiving never demands a completed handshake.
    pub fn begin_receive(&self) -> (r: Result<usize, Error>)
        ensures
            self.state_spec() == MtlsState::TransmitError ==> r == Err::<usize, Error>(
                Error::SocketDied,
            ),
            self.state_spec() != MtlsState::TransmitError ==> r == Ok::<usize, Error>(
                self.local_key().size_spec(),
            ),
    {
        match self.state {
            MtlsState::TransmitError => Err(Error::SocketDied),
            _ => Ok(self.private_key.size()),
        }
    }

    /// Decrypts one received frame with the local private key.
    ///
    /// On a dead channel the result is `Error::SocketDied` and the frame is
    /// not touched; otherwise the result is exactly the decode of the
    /// frame, and a frame that does not decode kills the channel.
    pub fn decode_received(&mut self, frame: &[u8]) -> (r: Result<Vec<u8>, Error>)
        requires
            old(self).wf(),
        ensures
            final(self).wf(),
            final(self).local_key() == old(self).local_key(),
            final(self).peer_key() == old(self).peer_key(),
            final(self).timeout_spec() == old(self).timeout_spec(),
            old(self).state_spec() == MtlsState::TransmitError ==> r == Err::<Vec<u8>, Error>(
                Error::SocketDied,
            ) && *final(self) == *old(self),
            old(self).state_spec() != MtlsState::TransmitError ==> {
                let key_id = old(self).local_key().id();
                let size = old(self).local_key().size_spec() as int;
                match r {
                    Ok(p) => spec_decode_frame(key_id, size, frame@) == Some(p@) && *final(self)
                        == *old(self),
                    Err(e) => {
                        &&& spec_decode_frame(key_id, size, frame@) is None
                        &&& final(self).state_spec() == MtlsState::TransmitError
                        &&& (e == Error::Io || e == Error::Rsa)
                        &&& ((e == Error::Io) <==> !frame_shape_ok(size, frame@))
                    },
                }
            },
    {
        match self.state {
            MtlsState::TransmitError => Err(Error::SocketDied),
            _ => {
                match decode_frame(&self.private_key, frame) {
                    Ok(p) => Ok(p),
                    Err(e) => {
                        self.state = MtlsState::TransmitError;
                        Err(e)
                    },
                }
            },
        }
    }

    /// Encodes the local public key, as PKCS#1 DER, into one frame for the
    /// peer: the sending half of the key exchange.
    ///
    /// The peer key must already be installed, since the frame is encrypted
    /// to it: the state gate is the same as for `encode_send`.  An
    /// authenticated tunnel always succeeds, and the frame carries exactly
    /// the DER of the local key.
    pub fn public_key_frame(&mut self) -> (r: Result<Vec<u8>, Error>)
        requires
            old(self).wf(),
        ensures
            final(self).wf(),
            *final(self) == *old(self),
            old(self).state_spec() == MtlsState::TransmitError ==> r == Err::<Vec<u8>, Error>(
                Error::SocketDied,
            ),
            old(self).state_spec() == MtlsState::AwaitingPublicKey ==> r == Err::<Vec<u8>, Error>(
                Error::NotReady,
            ),
            old(self).state_spec() == MtlsState::Authenticated ==> (r matches Ok(frame) && {
                let pk = old(self).peer_key()->Some_0;
                let der = crate::keys::rsa_public_der(old(self).local_key().id());
                &&& frame_wf(pk.size_spec() as int, frame@, der.len() as int)
                &&& (pk.pair_id() matches Some(key_id) ==> frame_good(
                    key_id,
                    pk.size_spec() as int,
                    frame@,
                    der,
                ))
                &&& crate::keys::rsa_der_key_id(der) == Some(old(self).local_key().id())
                &&& (old(self).local_key().size_spec() <= 512 ==> crate::keys::rsa_pub_parse(der)
                    == Some(old(self).local_key().size_spec()))
            }),
    {
        match self.state {
            MtlsState::TransmitError => Err(Error::SocketDied),
            MtlsState::AwaitingPublicKey => Err(Error::NotReady),
            MtlsState::Authenticated => match self.private_key.public_der() {
                Ok(der) => self.encode_send(der.as_slice()),
                Err(_) => vstd::pervasive::unreached(),
            },
        }
    }
}

/// The key exchange and echo guarantee, verified end to end: a client with
/// the server's public key pre-installed sends its own public key through
/// the tunnel; the server concludes the handshake from that frame; and a
/// payload then crosses in both directions intact.  Every step is owed:
/// no branch of this function can fail.  The tests run it; it exists to
/// state and prove the guarantee over every keypair up to the library's
/// largest accepted modulus and every payload.
pub fn exchange_keys_and_echo(
    server_key: PrivateKey,
    client_key: PrivateKey,
    server_public: PublicKey,
    msg: &[u8],
) -> (r: (Vec<u8>, Vec<u8>))
    requires
        12 <= server_key.size_spec(),
        12 <= client_key.size_spec() <= 512,
        server_public.pair_id() == Some(server_key.id()),
        server_public.size_spec() == server_key.size_spec(),
    ensures
        r.0@ == msg@,
        r.1@ == msg@,
{
    let mut client = Mtls::new(client_key);
    client.set_public_key(server_public);
    let mut server = Mtls::new(server_key);

    // The client sends its public key; the server provably decodes the
    // frame and installs the very key the payload names.
    let key_frame = match client.public_key_frame() {
        Ok(frame) => frame,
        Err(_) => vstd::pervasive::unreached(),
    };
    proof {
        crate::frame::lemma_frame_round_trip(
            server.local_key().id(),
            server.local_key().size_spec() as int,
            key_frame@,
            crate::keys::rsa_public_der(client.local_key().id()),
        );
    }
    let payload = match server.decode_received(key_frame.as_slice()) {
        Ok(payload) => payload,
        Err(_) => vstd::pervasive::unreached(),
    };
    match server.handshake_inner(Ok(payload)) {
        Ok(_) => {},
        Err(_) => vstd::pervasive::unreached(),
    }

    // The payload crosses client to server ...
    let to_server = match client.encode_send(msg) {
        Ok(frame) => frame,
        Err(_) => vstd::pervasive::unreached(),
    };
    proof {
        crate::frame::lemma_frame_round_trip(
            server.local_key().id(),
            server.local_key().size_spec() as int,
            to_server@,
            msg@,
        );
    }
    let server_received = match server.decode_received(to_server.as_slice()) {
        Ok(payload) => payload,
        Err(_) => vstd::pervasive::unreached(),
    };

    // ... and back, through the key the handshake installed.
    let to_client = match server.encode_send(msg) {
        Ok(frame) => frame,
        Err(_) => vstd::pervasive::unreached(),
    };
    proof {
        crate::frame::lemma_frame_round_trip(
            client.local_key().id(),
            client.local_key().size_spec() as int,
            to_client@,
            msg@,
        );
    }
    let client_received = match client.decode_received(to_client.as_slice()) {
        Ok(payload) => payload,
        Err(_) => vstd::pervasive::unreached(),
    };

    (server_received, client_received)
}

/// What one tunnel encrypts, the matching tunnel decrypts back to the same
/// payload: any frame `encode_send` produces for a peer key paired with
/// the receiver's private key (`frame_good` is exactly what its contract
/// grants) decodes under that key to the payload it was encoded from.
pub proof fn lemma_tunnel_round_trip(sender: Mtls, receiver: Mtls, frame: Seq<u8>, data: Seq<u8>)
    requires
        sender.peer_key() matches Some(pk) && pk.pair_id() == Some(receiver.local_key().id())
            && pk.size_spec() == receiver.local_key().size_spec() && frame_good(
            receiver.local_key().id(),
            pk.size_spec() as int,
            frame,
            data,
        ),
    ensures
        spec_decode_frame(
            receiver.local_key().id(),
            receiver.local_key().size_spec() as int,
            frame,
        ) == Some(data),
{
    crate::frame::lemma_frame_round_trip(
        receiver.local_key().id(),
        receiver.local_key().size_spec() as int,
        frame,
        data,
    );
}

} // verus!
