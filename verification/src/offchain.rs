//! Off-chain messages: deterministic field-element encoding and signing.
//!
//! A message is serialized into 32-byte big-endian field-element encodings:
//! the request id and timestamp each fill one element; each string
//! contributes one element holding its UTF-8 byte length followed by its
//! bytes in 31-byte chunks, right-aligned per element.  Every encoded value
//! stays below 2^248, so the encoding survives the field unreduced.  The
//! element sequence is hashed and signed with the process credential; the
//! hash and the signature come from the elliptic-curve library and are
//! named, not restated, here.

use vstd::prelude::*;
use vstd::string::StrSliceExecFns;
use vstd::string::StringSliceAdditionalSpecFns;
use vstd::utf8::encode_utf8;
use crate::pipeline::RequestError;

verus! {

/// One message published back to the relay network after a successful
/// generation; constructed once per request, signed, and never stored.
pub struct OffchainMessage {
    pub agent_name: String,
    pub request_id: u64,
    pub event_tag: String,
    pub response_text: String,
    pub timestamp: u64,
}

/// A message together with the `(r, s)` pair of its signature.
pub struct SignedOffchainMessage {
    pub message: OffchainMessage,
    pub sig_r: Vec<u8>,
    pub sig_s: Vec<u8>,
}

/// The 32-byte big-endian field-element encoding of a 64-bit value.
pub open spec fn felt_of_u64(x: u64) -> Seq<u8> {
    Seq::new(
        32,
        |i: int|
            {
                if i < 24 {
                    0u8
                } else if i == 24 {
                    (x >> 56) as u8
                } else if i == 25 {
                    (x >> 48) as u8
                } else if i == 26 {
                    (x >> 40) as u8
                } else if i == 27 {
                    (x >> 32) as u8
                } else if i == 28 {
                    (x >> 24) as u8
                } else if i == 29 {
                    (x >> 16) as u8
                } else if i == 30 {
                    (x >> 8) as u8
                } else {
                    x as u8
                }
            },
    )
}

/// A chunk of at most 31 bytes, right-aligned in a 32-byte element.
pub open spec fn felt_of_chunk(chunk: Seq<u8>) -> Seq<u8>
    recommends
        chunk.len() <= 31,
{
    Seq::new(
        32,
        |i: int|
            if i < 32 - chunk.len() {
                0u8
            } else {
                chunk[i - (32 - chunk.len())]
            },
    )
}

/// The byte sequence split into 31-byte chunks, each in its own element.
pub open spec fn chunks_of(bytes: Seq<u8>) -> Seq<Seq<u8>>
    decreases bytes.len(),
{
    if bytes.len() == 0 {
        Seq::<Seq<u8>>::empty()
    } else if bytes.len() <= 31 {
        seq![felt_of_chunk(bytes)]
    } else {
        seq![felt_of_chunk(bytes.take(31))] + chunks_of(bytes.skip(31))
    }
}

/// A string's contribution: its byte length, then its chunks.
pub open spec fn enc_string(bytes: Seq<u8>) -> Seq<Seq<u8>> {
    seq![felt_of_u64(bytes.len() as u64)] + chunks_of(bytes)
}

/// The deterministic serialization of a whole message.
pub open spec fn encoded_message(m: OffchainMessage) -> Seq<Seq<u8>> {
    seq![felt_of_u64(m.request_id), felt_of_u64(m.timestamp)] + enc_string(
        encode_utf8(m.agent_name@),
    ) + enc_string(encode_utf8(m.event_tag@)) + enc_string(encode_utf8(m.response_text@))
}

/// The views of a list of byte vectors.
pub open spec fn felt_views(s: Seq<Vec<u8>>) -> Seq<Seq<u8>> {
    s.map_values(|v: Vec<u8>| v@)
}

/// Every element of a chunk list is 32 bytes long.
pub proof fn lemma_chunks_len32(bytes: Seq<u8>)
    ensures
        forall|i: int| 0 <= i < chunks_of(bytes).len() ==> (#[trigger] chunks_of(bytes)[i]).len()
            == 32,
    decreases bytes.len(),
{
    if bytes.len() == 0 {
    } else if bytes.len() <= 31 {
        assert(chunks_of(bytes)[0].len() == 32);
    } else {
        lemma_chunks_len32(bytes.skip(31));
        assert forall|i: int| 0 <= i < chunks_of(bytes).len() implies (#[trigger] chunks_of(
            bytes,
        )[i]).len() == 32 by {
            if i == 0 {
                assert(chunks_of(bytes)[0] == felt_of_chunk(bytes.take(31)));
            } else {
                assert(chunks_of(bytes)[i] == chunks_of(bytes.skip(31))[i - 1]);
            }
        }
    }
}

/// Every element of an encoded message is 32 bytes long.
pub proof fn lemma_encoded_len32(m: OffchainMessage)
    ensures
        forall|i: int| 0 <= i < encoded_message(m).len() ==> (#[trigger] encoded_message(m)[i]).len()
            == 32,
{
    lemma_chunks_len32(encode_utf8(m.agent_name@));
    lemma_chunks_len32(encode_utf8(m.event_tag@));
    lemma_chunks_len32(encode_utf8(m.response_text@));
}

/// The 32-byte element for a 64-bit value.
fn felt_u64(x: u64) -> (r: Vec<u8>)
    ensures
        r@ == felt_of_u64(x),
{
    let mut r: Vec<u8> = Vec::new();
    let mut i: usize = 0;
    while i < 24
        invariant
            i <= 24,
            r@.len() == i,
            forall|j: int| 0 <= j < i ==> r@[j] == 0u8,
        decreases 24 - i,
    {
        r.push(0u8);
        i = i + 1;
    }
    r.push((x >> 56) as u8);
    r.push((x >> 48) as u8);
    r.push((x >> 40) as u8);
    r.push((x >> 32) as u8);
    r.push((x >> 24) as u8);
    r.push((x >> 16) as u8);
    r.push((x >> 8) as u8);
    r.push(x as u8);
    proof {
        assert(r@ =~= felt_of_u64(x));
    }
    r
}

/// One chunk `bytes[start..end]`, right-aligned in a 32-byte element.
fn felt_chunk(bytes: &Vec<u8>, start: usize, end: usize) -> (r: Vec<u8>)
    requires
        start <= end <= bytes@.len(),
        end - start <= 31,
    ensures
        r@ == felt_of_chunk(bytes@.subrange(start as int, end as int)),
{
    let pad = 32 - (end - start);
    let mut r: Vec<u8> = Vec::new();
    let mut i: usize = 0;
    while i < pad
        invariant
            i <= pad,
            r@.len() == i,
            forall|j: int| 0 <= j < i ==> r@[j] == 0u8,
        decreases pad - i,
    {
        r.push(0u8);
        i = i + 1;
    }
    let mut p: usize = start;
    while p < end
        invariant
            start <= p <= end,
            end <= bytes@.len(),
            pad == 32 - (end - start),
            r@.len() == pad + (p - start),
            forall|j: int| 0 <= j < pad ==> r@[j] == 0u8,
            forall|j: int| pad <= j < r@.len() ==> r@[j] == bytes@[start + (j - pad)],
        decreases end - p,
    {
        r.push(bytes[p]);
        p = p + 1;
    }
    proof {
        assert(r@ =~= felt_of_chunk(bytes@.subrange(start as int, end as int)));
    }
    r
}

/// Appends the chunk elements of `bytes[start..]` to `out`.
fn push_chunks(out: &mut Vec<Vec<u8>>, bytes: &Vec<u8>, start: usize)
    requires
        start <= bytes@.len(),
    ensures
        felt_views(final(out)@) == felt_views(old(out)@) + chunks_of(bytes@.skip(start as int)),
    decreases bytes@.len() - start,
{
    if start < bytes.len() {
        let end = if bytes.len() - start > 31 {
            start + 31
        } else {
            bytes.len()
        };
        let ghost mid = out@;
        let felt = felt_chunk(bytes, start, end);
        out.push(felt);
        proof {
            assert(felt_views(out@) =~= felt_views(mid) + seq![
                felt_of_chunk(bytes@.subrange(start as int, end as int)),
            ]);
        }
        push_chunks(out, bytes, end);
        proof {
            let tail = bytes@.skip(start as int);
            if tail.len() <= 31 {
                assert(bytes@.subrange(start as int, end as int) =~= tail);
                assert(bytes@.skip(end as int) =~= Seq::<u8>::empty());
                assert(felt_views(out@) =~= felt_views(old(out)@) + chunks_of(tail));
            } else {
                assert(bytes@.subrange(start as int, end as int) =~= tail.take(31));
                assert(bytes@.skip(end as int) =~= tail.skip(31));
                assert(felt_views(out@) =~= felt_views(old(out)@) + chunks_of(tail));
            }
        }
    } else {
        proof {
            assert(bytes@.skip(start as int) =~= Seq::<u8>::empty());
            assert(felt_views(out@) =~= felt_views(old(out)@) + chunks_of(
                bytes@.skip(start as int),
            ));
        }
    }
}

/// Appends a string's length element and chunk elements to `out`.
fn push_string_felts(out: &mut Vec<Vec<u8>>, s: &str)
    ensures
        felt_views(final(out)@) == felt_views(old(out)@) + enc_string(encode_utf8(s@)),
{
    let bytes = s.as_bytes_vec();
    let ghost base = out@;
    let len_felt = felt_u64(bytes.len() as u64);
    out.push(len_felt);
    proof {
        assert(felt_views(out@) =~= felt_views(base) + seq![
            felt_of_u64(encode_utf8(s@).len() as u64),
        ]);
    }
    push_chunks(out, &bytes, 0);
    proof {
        assert(bytes@.skip(0) =~= bytes@);
        assert(felt_views(out@) =~= felt_views(base) + enc_string(encode_utf8(s@)));
    }
}

/// The field-element serialization of `m`, one 32-byte vector per element.
pub fn encode_message(m: &OffchainMessage) -> (r: Vec<Vec<u8>>)
    ensures
        felt_views(r@) == encoded_message(*m),
        forall|i: int| 0 <= i < r@.len() ==> (#[trigger] r@[i])@.len() == 32,
{
    let mut out: Vec<Vec<u8>> = Vec::new();
    let f0 = felt_u64(m.request_id);
    out.push(f0);
    let f1 = felt_u64(m.timestamp);
    out.push(f1);
    proof {
        assert(felt_views(out@) =~= seq![felt_of_u64(m.request_id), felt_of_u64(m.timestamp)]);
    }
    push_string_felts(&mut out, m.agent_name.as_str());
    push_string_felts(&mut out, m.event_tag.as_str());
    push_string_felts(&mut out, m.response_text.as_str());
    proof {
        assert(felt_views(out@) =~= encoded_message(*m));
        lemma_encoded_len32(*m);
        assert forall|i: int| 0 <= i < out@.len() implies (#[trigger] out@[i])@.len() == 32 by {
            assert(felt_views(out@)[i] == out@[i]@);
        }
    }
    out
}

/// The Poseidon hash of an encoded message, named but not restated: it is a
/// function of the 32-byte element encodings alone.
pub uninterp spec fn poseidon_of(elems: Seq<Seq<u8>>) -> Seq<u8>;

/// Relies on `starknet_crypto::poseidon_hash_many`: the Starknet Poseidon
/// hash of a sequence of field elements, a deterministic function of those
/// elements; each element is rebuilt from and returned as its unique
/// 32-byte big-endian encoding.
#[verifier::external_body]
fn poseidon_hash_elems(elems: &Vec<Vec<u8>>) -> (r: Vec<u8>)
    requires
        forall|i: int| 0 <= i < elems@.len() ==> (#[trigger] elems@[i])@.len() == 32,
    ensures
        r@ == poseidon_of(felt_views(elems@)),
        r@.len() == 32,
{
    let felts: Vec<starknet_crypto::Felt> = elems
        .iter()
        .map(|e| starknet_crypto::Felt::from_bytes_be(e.as_slice().try_into().unwrap()))
        .collect();
    starknet_crypto::poseidon_hash_many(felts.iter()).to_bytes_be().to_vec()
}

/// The RFC 6979 nonce for a (key, hash) pair, named but not restated: it is
/// deterministic in the two scalars when no extra seed is supplied.
pub uninterp spec fn nonce_of(key: Seq<u8>, hash: Seq<u8>) -> Seq<u8>;

/// Relies on `starknet_crypto::rfc6979_generate_k` with no extra seed: a
/// deterministic function of the message hash and the private key.
#[verifier::external_body]
fn rfc6979_nonce(key: &Vec<u8>, hash: &Vec<u8>) -> (r: Vec<u8>)
    requires
        key@.len() == 32,
        hash@.len() == 32,
    ensures
        r@ == nonce_of(key@, hash@),
        r@.len() == 32,
{
    let kf = starknet_crypto::Felt::from_bytes_be(key.as_slice().try_into().unwrap());
    let hf = starknet_crypto::Felt::from_bytes_be(hash.as_slice().try_into().unwrap());
    starknet_crypto::rfc6979_generate_k(&hf, &kf, None).to_bytes_be().to_vec()
}

/// What `starknet_crypto::sign` makes of (key, hash, nonce), named but not
/// restated: it is deterministic in the three scalars, and it accepts or
/// rejects them deterministically too, so both the outcome and the
/// `(r, s)` pair are functions of the arguments alone.
pub uninterp spec fn sig_of(key: Seq<u8>, hash: Seq<u8>, k: Seq<u8>) -> Option<(Seq<u8>, Seq<u8>)>;

/// Relies on `starknet_crypto::sign`: deterministic in (private key,
/// message hash, nonce); it returns its error — and this wrapper `None` —
/// exactly on the inputs it rejects (an overlong hash, an unusable nonce).
/// The nonce must be the RFC 6979 nonce of the same key and hash: that
/// nonce is nonzero and below the curve order, which keeps the curve
/// arithmetic inside `sign` away from the point at infinity it cannot
/// handle.
#[verifier::external_body]
fn ecdsa_sign(key: &Vec<u8>, hash: &Vec<u8>, k: &Vec<u8>) -> (r: Option<(Vec<u8>, Vec<u8>)>)
    requires
        key@.len() == 32,
        hash@.len() == 32,
        k@ == nonce_of(key@, hash@),
    ensures
        r is Some <==> sig_of(key@, hash@, k@) is Some,
        r matches Some(rs) ==> sig_of(key@, hash@, k@) == Some((rs.0@, rs.1@)) && rs.0@.len() == 32
            && rs.1@.len() == 32,
{
    let kf = starknet_crypto::Felt::from_bytes_be(key.as_slice().try_into().unwrap());
    let hf = starknet_crypto::Felt::from_bytes_be(hash.as_slice().try_into().unwrap());
    let nf = starknet_crypto::Felt::from_bytes_be(k.as_slice().try_into().unwrap());
    match starknet_crypto::sign(&kf, &hf, &nf) {
        Ok(sig) => Some((sig.r.to_bytes_be().to_vec(), sig.s.to_bytes_be().to_vec())),
        Err(_) => None,
    }
}

/// What the scheme makes of a message under a key: the outcome of signing
/// the message's Poseidon hash under its RFC 6979 nonce — `Some` with the
/// `(r, s)` pair exactly when the curve library accepts the derived
/// scalars.
pub open spec fn message_signature(m: OffchainMessage, key: Seq<u8>) -> Option<(Seq<u8>, Seq<u8>)> {
    let h = poseidon_of(encoded_message(m));
    sig_of(key, h, nonce_of(key, h))
}

/// Serializes, hashes and signs one message with the process's private
/// credential.  Succeeds exactly when the curve library accepts the derived
/// scalars — `message_signature` is `Some` — and then the returned message
/// is the input unchanged and the signature is exactly that pair; `Err`
/// reports the signing failure.
pub fn sign_offchain_message(msg: OffchainMessage, private_key: &Vec<u8>) -> (r: Result<
    SignedOffchainMessage,
    RequestError,
>)
    requires
        private_key@.len() == 32,
    ensures
        r is Ok <==> message_signature(msg, private_key@) is Some,
        r matches Ok(sm) ==> sm.message == msg && message_signature(msg, private_key@) == Some(
            (sm.sig_r@, sm.sig_s@),
        ),
        r matches Err(e) ==> e == RequestError::Signing,
{
    let felts = encode_message(&msg);
    let hash = poseidon_hash_elems(&felts);
    let nonce = rfc6979_nonce(private_key, &hash);
    match ecdsa_sign(private_key, &hash, &nonce) {
        Some(rs) => Ok(
            SignedOffchainMessage { message: msg, sig_r: rs.0, sig_s: rs.1 },
        ),
        None => Err(RequestError::Signing),
    }
}

} // verus!
