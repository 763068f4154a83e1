//! The on-wire frame of the tunnel.
//!
//! A frame is a big-endian `u64` block count followed by that many
//! ciphertext blocks, each exactly one modulus size long.  The plaintext is
//! partitioned into chunks of `modulus size - 11` bytes (the PKCS#1 v1.5
//! overhead); the final chunk may be shorter, and an empty payload encodes
//! as zero blocks.

use vstd::arithmetic::div_mod::{lemma_fundamental_div_mod, lemma_fundamental_div_mod_converse};
use vstd::arithmetic::mul::lemma_mul_inequality;
use vstd::prelude::*;
use vstd::slice::slice_subrange;

use crate::error::Error;
use crate::keys::{decrypt_block, encrypt_block, rsa_decrypt, PrivateKey, PublicKey};
use crate::wire::{
    lemma_u64_be_bytes_round_trip, push_u64_be, read_u64_be, spec_u64_from_be_bytes,
    spec_u64_to_be_bytes,
};

verus! {

/// How many chunks of `bs` bytes a payload of `len` bytes occupies; the
/// final chunk may be partial, and an empty payload occupies none.
pub open spec fn spec_n_chunks(len: int, bs: int) -> int {
    if len == 0 {
        0
    } else {
        (len - 1) / bs + 1
    }
}

/// Where the chunk at index `i` ends in a payload of `len` bytes.
pub open spec fn spec_chunk_end(len: int, bs: int, i: int) -> int {
    if (i + 1) * bs <= len {
        (i + 1) * bs
    } else {
        len
    }
}

/// The chunk at index `i` of the payload.
pub open spec fn spec_chunk(data: Seq<u8>, bs: int, i: int) -> Seq<u8> {
    data.subrange(i * bs, spec_chunk_end(data.len() as int, bs, i))
}

/// The ciphertext block at index `i` of a frame with blocks of `size` bytes.
pub open spec fn spec_block(frame: Seq<u8>, size: int, i: int) -> Seq<u8> {
    frame.subrange(8 + i * size, 8 + (i + 1) * size)
}

/// How many bytes of the payload the first `m` chunks cover.
pub open spec fn spec_prefix_len(len: int, bs: int, m: int) -> int {
    if m * bs <= len {
        m * bs
    } else {
        len
    }
}

/// The frame has the right length for a payload of `data_len` bytes and its
/// header states the block count.
pub open spec fn frame_wf(size: int, frame: Seq<u8>, data_len: int) -> bool {
    let n = spec_n_chunks(data_len, size - 11);
    &&& frame.len() == 8 + n * size
    &&& n <= u64::MAX
    &&& frame.take(8) == spec_u64_to_be_bytes(n as u64)
}

/// The frame is well formed for `data` and every block of it decrypts,
/// under the private key identified by `key_id`, to the matching chunk.
pub open spec fn frame_good(key_id: Seq<u8>, size: int, frame: Seq<u8>, data: Seq<u8>) -> bool {
    let bs = size - 11;
    let n = spec_n_chunks(data.len() as int, bs);
    &&& size >= 12
    &&& frame_wf(size, frame, data.len() as int)
    &&& forall|i: int|
        0 <= i < n ==> rsa_decrypt(key_id, #[trigger] spec_block(frame, size, i)) == Some(
            spec_chunk(data, bs, i),
        )
}

/// The header block count matches the length of the body.
pub open spec fn frame_shape_ok(size: int, frame: Seq<u8>) -> bool {
    &&& size >= 1
    &&& frame.len() >= 8
    &&& (frame.len() - 8) % size == 0
    &&& (frame.len() - 8) / size == spec_u64_from_be_bytes(frame.take(8)) as int
}

/// The concatenation of the decryptions of the first `n` blocks, or nothing
/// when one of them does not decrypt.
pub open spec fn spec_decode_blocks(
    key_id: Seq<u8>,
    size: int,
    frame: Seq<u8>,
    n: int,
) -> Option<Seq<u8>>
    decreases n,
{
    if n <= 0 {
        Some(Seq::empty())
    } else {
        match spec_decode_blocks(key_id, size, frame, n - 1) {
            Some(prefix) => match rsa_decrypt(key_id, spec_block(frame, size, n - 1)) {
                Some(last) => Some(prefix + last),
                None => None,
            },
            None => None,
        }
    }
}

/// What decoding a frame under the private key identified by `key_id`
/// yields: the concatenated decrypted blocks, or nothing when the shape or
/// a block is bad.
pub open spec fn spec_decode_frame(key_id: Seq<u8>, size: int, frame: Seq<u8>) -> Option<Seq<u8>> {
    if frame_shape_ok(size, frame) {
        spec_decode_blocks(key_id, size, frame, (frame.len() - 8) / size)
    } else {
        None
    }
}

/// A non-negative value divided by a positive one neither grows nor turns
/// negative.
proof fn lemma_div_le(a: int, b: int)
    requires
        a >= 0,
        b >= 1,
    ensures
        0 <= a / b <= a,
{
    lemma_fundamental_div_mod(a, b);
    let q = a / b;
    let r = a % b;
    assert(q >= 0 && q <= a) by (nonlinear_arith)
        requires
            a == b * q + r,
            0 <= r < b,
            b >= 1,
            a >= 0,
    ;
}

/// The chunk count covers the payload and no chunk starts past its end.
proof fn lemma_n_chunks_bounds(len: int, bs: int)
    requires
        len >= 0,
        bs >= 1,
    ensures
        0 <= spec_n_chunks(len, bs) <= len,
        spec_n_chunks(len, bs) * bs >= len,
{
    if len == 0 {
        assert(spec_n_chunks(len, bs) * bs == 0) by (nonlinear_arith)
            requires
                spec_n_chunks(len, bs) == 0,
        ;
    } else {
        let q = (len - 1) / bs;
        let r = (len - 1) % bs;
        lemma_fundamental_div_mod(len - 1, bs);
        lemma_div_le(len - 1, bs);
        assert((q + 1) * bs >= len) by (nonlinear_arith)
            requires
                len - 1 == bs * q + r,
                0 <= r < bs,
        ;
    }
}

/// Every chunk before the last starts strictly inside the payload.
proof fn lemma_chunk_start(len: int, bs: int, i: int)
    requires
        len >= 0,
        bs >= 1,
        0 <= i < spec_n_chunks(len, bs),
    ensures
        0 <= i * bs < len,
{
    let q = (len - 1) / bs;
    let r = (len - 1) % bs;
    lemma_fundamental_div_mod(len - 1, bs);
    lemma_div_le(len - 1, bs);
    assert(i * bs >= 0 && i * bs <= q * bs) by (nonlinear_arith)
        requires
            0 <= i <= q,
            bs >= 1,
    ;
    assert(q * bs <= len - 1) by (nonlinear_arith)
        requires
            len - 1 == bs * q + r,
            0 <= r,
    ;
}

/// A failed block keeps every longer decode failed.
proof fn lemma_decode_blocks_none(key_id: Seq<u8>, size: int, frame: Seq<u8>, j: int, n: int)
    requires
        0 <= j <= n,
        spec_decode_blocks(key_id, size, frame, j) is None,
    ensures
        spec_decode_blocks(key_id, size, frame, n) is None,
    decreases n - j,
{
    if j < n {
        lemma_decode_blocks_none(key_id, size, frame, j + 1, n);
    }
}

/// On a good frame, decoding the first `m` blocks restores the first `m`
/// chunks of the payload.
proof fn lemma_decode_good_prefix(key_id: Seq<u8>, size: int, frame: Seq<u8>, data: Seq<u8>, m: int)
    requires
        frame_good(key_id, size, frame, data),
        0 <= m <= spec_n_chunks(data.len() as int, size - 11),
    ensures
        spec_decode_blocks(key_id, size, frame, m) == Some(
            data.take(spec_prefix_len(data.len() as int, size - 11, m)),
        ),
    decreases m,
{
    let len = data.len() as int;
    let bs = size - 11;
    if m == 0 {
        assert(0 * bs == 0);
        assert(spec_prefix_len(len, bs, 0) == 0);
        assert(data.take(0) =~= Seq::<u8>::empty());
    } else {
        lemma_decode_good_prefix(key_id, size, frame, data, m - 1);
        lemma_chunk_start(len, bs, m - 1);
        assert(m * bs == (m - 1) * bs + bs) by (nonlinear_arith);
        let start = (m - 1) * bs;
        let stop = spec_prefix_len(len, bs, m);
        assert(spec_prefix_len(len, bs, m - 1) == start);
        assert(spec_chunk_end(len, bs, m - 1) == stop);
        assert(rsa_decrypt(key_id, spec_block(frame, size, m - 1)) == Some(
            spec_chunk(data, bs, m - 1),
        ));
        assert(start <= stop <= len);
        assert(data.take(start) + data.subrange(start, stop) =~= data.take(stop));
    }
}

/// Decoding a good frame under the matching private key restores the exact
/// payload the frame was encoded from.
pub proof fn lemma_frame_round_trip(key_id: Seq<u8>, size: int, frame: Seq<u8>, data: Seq<u8>)
    requires
        frame_good(key_id, size, frame, data),
    ensures
        spec_decode_frame(key_id, size, frame) == Some(data),
{
    let len = data.len() as int;
    let bs = size - 11;
    let n = spec_n_chunks(len, bs);
    lemma_n_chunks_bounds(len, bs);
    assert(n * size >= 0) by (nonlinear_arith)
        requires
            n >= 0,
            size >= 12,
    ;
    lemma_fundamental_div_mod_converse(frame.len() - 8, size, n, 0);
    lemma_u64_be_bytes_round_trip(n as u64);
    assert(frame_shape_ok(size, frame));
    lemma_decode_good_prefix(key_id, size, frame, data, n);
    assert(spec_prefix_len(len, bs, n) == len);
    assert(data.take(len) =~= data);
}

/// Encrypts `data` into one frame for the peer key `pk`: the block count
/// header followed by one ciphertext block per chunk.
///
/// Encoding always succeeds: the frame is well formed, and when `pk` is
/// the public half of a known keypair every block decrypts under that pair
/// to its chunk, so `lemma_frame_round_trip` applies.  An empty payload
/// gives the bare eight-byte zero-count header.
pub fn encode_frame(pk: &PublicKey, data: &[u8]) -> (r: Result<Vec<u8>, Error>)
    requires
        pk.size_spec() >= 12,
    ensures
        r is Ok,
        r matches Ok(frame) ==> frame_wf(pk.size_spec() as int, frame@, data@.len() as int),
        r matches Ok(frame) ==> (pk.pair_id() matches Some(key_id) ==> frame_good(
            key_id,
            pk.size_spec() as int,
            frame@,
            data@,
        )),
{
    let size = pk.size();
    let bs = size - 11;
    let len = data.len();
    proof {
        lemma_n_chunks_bounds(len as int, bs as int);
    }
    let count = if len == 0 {
        0
    } else {
        proof {
            lemma_div_le(len as int - 1, bs as int);
        }
        (len - 1) / bs + 1
    };
    assert(count == spec_n_chunks(len as int, bs as int));
    let mut frame: Vec<u8> = Vec::new();
    push_u64_be(&mut frame, count as u64);
    let ghost gsize = size as int;
    let ghost gbs = bs as int;
    let mut i: usize = 0;
    while i < count
        invariant
            pk.size_spec() == size,
            size >= 12,
            gsize == size as int,
            gbs == bs as int,
            bs == size - 11,
            len == data@.len(),
            count == spec_n_chunks(len as int, gbs),
            count <= len,
            i <= count,
            frame@.len() == 8 + i * gsize,
            frame@.take(8) == spec_u64_to_be_bytes(count as u64),
            forall|j: int|
                0 <= j < i ==> (pk.pair_id() matches Some(key_id) ==> rsa_decrypt(
                    key_id,
                    #[trigger] spec_block(frame@, gsize, j),
                ) == Some(spec_chunk(data@, gbs, j))),
        decreases count - i,
    {
        proof {
            lemma_chunk_start(len as int, gbs, i as int);
            assert((i + 1) * gbs == i * gbs + gbs) by (nonlinear_arith);
        }
        let start = i * bs;
        let end = if len - start >= bs {
            start + bs
        } else {
            len
        };
        assert(end == spec_chunk_end(len as int, gbs, i as int));
        let chunk = slice_subrange(data, start, end);
        let mut block = match encrypt_block(pk, chunk) {
            Ok(b) => b,
            Err(_) => vstd::pervasive::unreached(),
        };
        let ghost gblock = block@;
        let ghost old_frame = frame@;
        frame.append(&mut block);
        proof {
            assert((i + 1) * gsize == i * gsize + gsize) by (nonlinear_arith);
            assert(frame@ == old_frame + gblock);
            assert(frame@.take(8) =~= old_frame.take(8));
            assert forall|j: int| 0 <= j < i implies #[trigger] spec_block(frame@, gsize, j)
                == spec_block(old_frame, gsize, j) by {
                lemma_mul_inequality(0, j, gsize);
                lemma_mul_inequality(j + 1, i as int, gsize);
                assert((j + 1) * gsize == j * gsize + gsize) by (nonlinear_arith);
                assert(spec_block(frame@, gsize, j) =~= spec_block(old_frame, gsize, j));
            }
            assert(spec_block(frame@, gsize, i as int) =~= gblock);
        }
        i += 1;
    }
    proof {
        assert(count * gsize >= 0) by (nonlinear_arith)
            requires
                count >= 0,
                gsize >= 12,
        ;
    }
    Ok(frame)
}

/// Decrypts one frame with the local private key: checks the header against
/// the body length, decrypts each block and concatenates the chunks.
///
/// The result is exactly `spec_decode_frame` of the input: a malformed
/// shape is an I/O error, a block that does not decrypt an RSA error.
pub fn decode_frame(sk: &PrivateKey, frame: &[u8]) -> (r: Result<Vec<u8>, Error>)
    ensures
        r matches Ok(p) ==> spec_decode_frame(sk.id(), sk.size_spec() as int, frame@) == Some(p@),
        r is Ok <==> spec_decode_frame(sk.id(), sk.size_spec() as int, frame@) is Some,
        r matches Err(e) ==> ((e == Error::Io) <==> !frame_shape_ok(
            sk.size_spec() as int,
            frame@,
        )),
        r matches Err(e) ==> (e == Error::Io || e == Error::Rsa),
{
    let size = sk.size();
    if size == 0 {
        return Err(Error::Io);
    }
    if frame.len() < 8 {
        return Err(Error::Io);
    }
    let count64 = read_u64_be(frame);
    let body_len = frame.len() - 8;
    if body_len % size != 0 {
        return Err(Error::Io);
    }
    let n = body_len / size;
    if (n as u64) != count64 {
        proof {
            lemma_div_le(body_len as int, size as int);
        }
        return Err(Error::Io);
    }
    proof {
        lemma_fundamental_div_mod(body_len as int, size as int);
    }
    assert(frame_shape_ok(sk.size_spec() as int, frame@));
    assert(body_len == n * size) by (nonlinear_arith)
        requires
            body_len as int == (size as int) * (n as int) + 0,
    ;
    let ghost gsize = size as int;
    let mut out: Vec<u8> = Vec::new();
    let mut i: usize = 0;
    while i < n
        invariant
            sk.size_spec() == size,
            size >= 1,
            gsize == size as int,
            body_len as int == n * gsize,
            body_len <= usize::MAX - 8,
            frame@.len() == 8 + body_len,
            i <= n,
            frame_shape_ok(gsize, frame@),
            n as int == (frame@.len() - 8) / gsize,
            spec_decode_blocks(sk.id(), gsize, frame@, i as int) == Some(out@),
        decreases n - i,
    {
        proof {
            lemma_mul_inequality(i as int, n as int, gsize);
            lemma_mul_inequality(i as int + 1, n as int, gsize);
            assert((i + 1) * gsize == i * gsize + gsize) by (nonlinear_arith);
        }
        let start = 8 + i * size;
        let block = slice_subrange(frame, start, start + size);
        assert(block@ == spec_block(frame@, gsize, i as int));
        match decrypt_block(sk, block) {
            Ok(mut piece) => {
                out.append(&mut piece);
            },
            Err(e) => {
                proof {
                    lemma_decode_blocks_none(sk.id(), gsize, frame@, i as int + 1, n as int);
                }
                return Err(e);
            },
        }
        i += 1;
    }
    Ok(out)
}

} // verus!
