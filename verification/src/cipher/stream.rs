//! Chunked authenticated encryption with the STREAM construction over
//! XChaCha20-Poly1305.

use chacha20poly1305::aead::generic_array::GenericArray;
use chacha20poly1305::aead::stream::{NewStream, StreamBE32, StreamPrimitive};
use chacha20poly1305::{Key, KeyInit, XChaCha20Poly1305};
use vstd::prelude::*;
use vstd::slice::slice_subrange;

verus! {

/// The size of a plaintext chunk.
pub const CHUNK_SIZE: usize = 1024;
/// The size of the authentication tag each chunk gains.
pub const TAG_SIZE: usize = 16;
/// The size of a sealed full chunk.
pub const SEALED_CHUNK_SIZE: usize = 1040;
/// The size of a key.
pub const KEY_SIZE: usize = 32;
/// The size of the nonce prefix of the stream.
pub const NONCE_SIZE: usize = 19;

/// `plaintext` sealed by STREAM (32-bit big-endian counter and last-block
/// flag) over XChaCha20-Poly1305 with `key` and the nonce prefix `nonce`, at
/// `position`.
pub uninterp spec fn stream_sealed(key: Seq<u8>, nonce: Seq<u8>, position: u32, last: bool, plaintext: Seq<u8>) -> Seq<u8>;

/// What opening `ciphertext` at `position` gives: the plaintext when it is
/// authentic, nothing otherwise.
pub uninterp spec fn stream_opened(key: Seq<u8>, nonce: Seq<u8>, position: u32, last: bool, ciphertext: Seq<u8>) -> Option<Seq<u8>>;

/// Calls `StreamPrimitive::encrypt` of `StreamBE32<XChaCha20Poly1305>`. For a
/// chunk this small it always succeeds; the result is the chunk and a 16-byte
/// tag, and opening it at the same position gives the chunk back.
#[verifier::external_body]
fn seal_chunk(key: &[u8], nonce: &[u8], position: u32, last: bool, chunk: &[u8]) -> (r: Option<Vec<u8>>)
    requires
        key@.len() == KEY_SIZE,
        nonce@.len() == NONCE_SIZE,
        chunk@.len() <= CHUNK_SIZE,
    ensures
        r is Some,
        r matches Some(c) ==> c@ == stream_sealed(key@, nonce@, position, last, chunk@),
        r matches Some(c) ==> c@.len() == chunk@.len() + TAG_SIZE,
        r matches Some(c) ==> stream_opened(key@, nonce@, position, last, c@) == Some(chunk@),
{
    let aead = XChaCha20Poly1305::new(Key::from_slice(key));
    StreamBE32::from_aead(aead, GenericArray::from_slice(nonce)).encrypt(position, last, chunk).ok()
}

/// Calls `StreamPrimitive::decrypt` of `StreamBE32<XChaCha20Poly1305>`.
#[verifier::external_body]
fn open_chunk(key: &[u8], nonce: &[u8], position: u32, last: bool, chunk: &[u8]) -> (r: Option<Vec<u8>>)
    requires
        key@.len() == KEY_SIZE,
        nonce@.len() == NONCE_SIZE,
    ensures
        match r {
            Some(p) => stream_opened(key@, nonce@, position, last, chunk@) == Some(p@),
            None => stream_opened(key@, nonce@, position, last, chunk@) is None,
        },
{
    let aead = XChaCha20Poly1305::new(Key::from_slice(key));
    StreamBE32::from_aead(aead, GenericArray::from_slice(nonce)).decrypt(position, last, chunk).ok()
}

/// `rest` with `prefix` in front, when there is a `rest`.
pub open spec fn prepend(prefix: Seq<u8>, rest: Option<Seq<u8>>) -> Option<Seq<u8>> {
    match rest {
        Some(r) => Some(prefix + r),
        None => None,
    }
}

/// The sealed stream of `data` from chunk `position` on: full chunks while
/// more than a chunk is left, then the last chunk (possibly empty) marked as
/// last. There is none when the counter would run past its largest value.
pub open spec fn sealed_stream(key: Seq<u8>, nonce: Seq<u8>, data: Seq<u8>, position: nat) -> Option<Seq<u8>>
    decreases data.len(),
{
    if data.len() > CHUNK_SIZE {
        if position >= u32::MAX {
            None
        } else {
            prepend(
                stream_sealed(key, nonce, position as u32, false, data.take(CHUNK_SIZE as int)),
                sealed_stream(key, nonce, data.skip(CHUNK_SIZE as int), position + 1),
            )
        }
    } else if position > u32::MAX {
        None
    } else {
        Some(stream_sealed(key, nonce, position as u32, true, data))
    }
}

/// The plaintext of the sealed stream `ct` from chunk `position` on: full
/// sealed chunks while more than one is left, then the last one. There is
/// none when a chunk is not authentic or the counter would run past its
/// largest value.
pub open spec fn opened_stream(key: Seq<u8>, nonce: Seq<u8>, ct: Seq<u8>, position: nat) -> Option<Seq<u8>>
    decreases ct.len(),
{
    if ct.len() > SEALED_CHUNK_SIZE {
        if position >= u32::MAX {
            None
        } else {
            match stream_opened(key, nonce, position as u32, false, ct.take(SEALED_CHUNK_SIZE as int)) {
                Some(p) => prepend(p, opened_stream(key, nonce, ct.skip(SEALED_CHUNK_SIZE as int), position + 1)),
                None => None,
            }
        }
    } else if position > u32::MAX {
        None
    } else {
        stream_opened(key, nonce, position as u32, true, ct)
    }
}

/// Whether a stream of `len` bytes from chunk `position` on stays within the
/// counter.
pub open spec fn stream_fits(len: nat, position: nat) -> bool
    decreases len,
{
    if len > CHUNK_SIZE {
        position < u32::MAX && stream_fits((len - CHUNK_SIZE) as nat, position + 1)
    } else {
        position <= u32::MAX
    }
}

/// Sealing `m` at `position` adds a 16-byte tag, and opening the result gives
/// `m` back.
pub open spec fn chunk_reopens(key: Seq<u8>, nonce: Seq<u8>, position: u32, last: bool, m: Seq<u8>) -> bool {
    &&& stream_sealed(key, nonce, position, last, m).len() == m.len() + TAG_SIZE
    &&& stream_opened(key, nonce, position, last, stream_sealed(key, nonce, position, last, m)) == Some(m)
}

/// Every chunk of the stream of `data` from `position` on reopens.
pub open spec fn stream_reopens(key: Seq<u8>, nonce: Seq<u8>, data: Seq<u8>, position: nat) -> bool
    decreases data.len(),
{
    if data.len() > CHUNK_SIZE {
        position < u32::MAX ==> {
            &&& chunk_reopens(key, nonce, position as u32, false, data.take(CHUNK_SIZE as int))
            &&& stream_reopens(key, nonce, data.skip(CHUNK_SIZE as int), position + 1)
        }
    } else {
        position <= u32::MAX ==> chunk_reopens(key, nonce, position as u32, true, data)
    }
}

/// There is a sealed stream exactly when it stays within the counter.
pub proof fn lemma_sealed_stream_some(key: Seq<u8>, nonce: Seq<u8>, data: Seq<u8>, position: nat)
    ensures
        sealed_stream(key, nonce, data, position) is Some <==> stream_fits(data.len(), position),
    decreases data.len(),
{
    if data.len() > CHUNK_SIZE {
        lemma_sealed_stream_some(key, nonce, data.skip(CHUNK_SIZE as int), position + 1);
    }
}

/// A sealed stream whose chunks reopen is at least a tag long.
proof fn lemma_sealed_len(key: Seq<u8>, nonce: Seq<u8>, data: Seq<u8>, position: nat)
    requires
        stream_reopens(key, nonce, data, position),
        sealed_stream(key, nonce, data, position) is Some,
    ensures
        sealed_stream(key, nonce, data, position).unwrap().len() >= TAG_SIZE,
    decreases data.len(),
{
    if data.len() > CHUNK_SIZE {
        lemma_sealed_len(key, nonce, data.skip(CHUNK_SIZE as int), position + 1);
    }
}

/// Opening a sealed stream whose chunks reopen gives back the data.
pub proof fn law_open_inverts_seal(key: Seq<u8>, nonce: Seq<u8>, data: Seq<u8>, position: nat)
    requires
        stream_reopens(key, nonce, data, position),
        sealed_stream(key, nonce, data, position) is Some,
    ensures
        opened_stream(key, nonce, sealed_stream(key, nonce, data, position).unwrap(), position) == Some(
            data,
        ),
    decreases data.len(),
{
    let ct = sealed_stream(key, nonce, data, position).unwrap();
    if data.len() > CHUNK_SIZE {
        let head = data.take(CHUNK_SIZE as int);
        let tail = data.skip(CHUNK_SIZE as int);
        let s0 = stream_sealed(key, nonce, position as u32, false, head);
        let rest = sealed_stream(key, nonce, tail, position + 1).unwrap();
        law_open_inverts_seal(key, nonce, tail, position + 1);
        lemma_sealed_len(key, nonce, tail, position + 1);
        assert(ct == s0 + rest);
        assert(s0.len() == SEALED_CHUNK_SIZE);
        assert(ct.take(SEALED_CHUNK_SIZE as int) =~= s0);
        assert(ct.skip(SEALED_CHUNK_SIZE as int) =~= rest);
        assert(head + tail =~= data);
    } else {
        assert(ct.len() <= SEALED_CHUNK_SIZE);
    }
}

/// Seals `data` chunk by chunk: full chunks while more than a chunk is left,
/// then the rest as the last chunk.
pub fn seal_stream(key: &[u8], nonce: &[u8], data: &[u8]) -> (r: Option<Vec<u8>>)
    requires
        key@.len() == KEY_SIZE,
        nonce@.len() == NONCE_SIZE,
    ensures
        match r {
            Some(c) => sealed_stream(key@, nonce@, data@, 0) == Some(c@) && stream_reopens(
                key@,
                nonce@,
                data@,
                0,
            ),
            None => sealed_stream(key@, nonce@, data@, 0) is None,
        },
{
    let mut out: Vec<u8> = Vec::new();
    let mut offset: usize = 0;
    let mut position: u32 = 0;
    let ghost k = key@;
    let ghost n = nonce@;
    proof {
        assert(data@.skip(0) =~= data@);
    }
    while data.len() - offset > CHUNK_SIZE
        invariant
            key@.len() == KEY_SIZE,
            nonce@.len() == NONCE_SIZE,
            k == key@,
            n == nonce@,
            offset <= data@.len(),
            sealed_stream(k, n, data@, 0) == prepend(out@, sealed_stream(k, n, data@.skip(offset as int), position as nat)),
            stream_reopens(k, n, data@.skip(offset as int), position as nat) ==> stream_reopens(k, n, data@, 0),
        decreases data@.len() - offset,
    {
        let ghost rest = data@.skip(offset as int);
        if position == u32::MAX {
            return None;
        }
        let end = offset + CHUNK_SIZE;
        let chunk = slice_subrange(data, offset, end);
        proof {
            assert(chunk@ =~= rest.take(CHUNK_SIZE as int));
            assert(rest.skip(CHUNK_SIZE as int) =~= data@.skip(end as int));
        }
        let mut sealed = seal_chunk(key, nonce, position, false, chunk).unwrap();
        proof {
            let s0 = sealed@;
            let tail = sealed_stream(k, n, data@.skip(end as int), position as nat + 1);
            assert(sealed_stream(k, n, rest, position as nat) == prepend(s0, tail));
            match tail {
                Some(t) => {
                    assert(out@ + (s0 + t) =~= (out@ + s0) + t);
                },
                None => {},
            }
        }
        out.append(&mut sealed);
        offset = end;
        position = position + 1;
    }
    let ghost rest = data@.skip(offset as int);
    let last = slice_subrange(data, offset, data.len());
    proof {
        assert(last@ =~= rest);
    }
    let mut sealed = seal_chunk(key, nonce, position, true, last).unwrap();
    out.append(&mut sealed);
    Some(out)
}

/// Opens the sealed stream `ct` chunk by chunk: full sealed chunks while more
/// than one is left, then the rest as the last chunk.
pub fn open_stream(key: &[u8], nonce: &[u8], ct: &[u8]) -> (r: Option<Vec<u8>>)
    requires
        key@.len() == KEY_SIZE,
        nonce@.len() == NONCE_SIZE,
    ensures
        match r {
            Some(p) => opened_stream(key@, nonce@, ct@, 0) == Some(p@),
            None => opened_stream(key@, nonce@, ct@, 0) is None,
        },
{
    let mut out: Vec<u8> = Vec::new();
    let mut offset: usize = 0;
    let mut position: u32 = 0;
    let ghost k = key@;
    let ghost n = nonce@;
    proof {
        assert(ct@.skip(0) =~= ct@);
    }
    while ct.len() - offset > SEALED_CHUNK_SIZE
        invariant
            key@.len() == KEY_SIZE,
            nonce@.len() == NONCE_SIZE,
            k == key@,
            n == nonce@,
            offset <= ct@.len(),
            opened_stream(k, n, ct@, 0) == prepend(out@, opened_stream(k, n, ct@.skip(offset as int), position as nat)),
        decreases ct@.len() - offset,
    {
        let ghost rest = ct@.skip(offset as int);
        if position == u32::MAX {
            return None;
        }
        let end = offset + SEALED_CHUNK_SIZE;
        let chunk = slice_subrange(ct, offset, end);
        proof {
            assert(chunk@ =~= rest.take(SEALED_CHUNK_SIZE as int));
            assert(rest.skip(SEALED_CHUNK_SIZE as int) =~= ct@.skip(end as int));
        }
        let opened = open_chunk(key, nonce, position, false, chunk);
        match opened {
            None => {
                return None;
            },
            Some(mut p) => {
                proof {
                    let p0 = p@;
                    let tail = opened_stream(k, n, ct@.skip(end as int), position as nat + 1);
                    assert(opened_stream(k, n, rest, position as nat) == prepend(p0, tail));
                    match tail {
                        Some(t) => {
                            assert(out@ + (p0 + t) =~= (out@ + p0) + t);
                        },
                        None => {},
                    }
                }
                out.append(&mut p);
            },
        }
        offset = end;
        position = position + 1;
    }
    let ghost rest = ct@.skip(offset as int);
    let last = slice_subrange(ct, offset, ct.len());
    proof {
        assert(last@ =~= rest);
    }
    match open_chunk(key, nonce, position, true, last) {
        None => None,
        Some(mut p) => {
            out.append(&mut p);
            Some(out)
        },
    }
}

} // verus!
