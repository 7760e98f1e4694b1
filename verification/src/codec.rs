//! Frame codec: the repeating-key XOR cipher and the little-endian wire
//! format of the gateway (length prefix, target id, payload, and the
//! `open`/`close` control payloads).

use vstd::prelude::*;

verus! {

use vstd::bytes::{
    spec_u32_to_le_bytes, spec_u32_from_le_bytes, u32_to_le_bytes, u32_from_le_bytes,
    lemma_auto_spec_u32_to_from_le_bytes,
};
use vstd::arithmetic::div_mod::{lemma_add_mod_noop, lemma_small_mod, lemma_mod_self_0};
use vstd::slice::{slice_subrange, slice_to_vec};

/// Target id addressed to the gateway itself: pings inbound, control frames
/// outbound.
pub const GATEWAY_TARGET_ID: u32 = 0xFFFF_FFFF;

/// Exclusive upper bound on an inbound frame body (512 KiB).
pub const MAX_FRAME_LEN: u32 = 512 * 1024;

/// Inclusive lower bound that a frame body must exceed: a body must hold more
/// than the 4-byte target id.
pub const MIN_FRAME_LEN: u32 = 4;

/// The repeating-key XOR of `data`: byte `i` is combined with key byte
/// `i % key.len()`. An empty key leaves the bytes unchanged.
pub open spec fn cipher_seq(key: Seq<u8>, data: Seq<u8>) -> Seq<u8> {
    if key.len() == 0 {
        data
    } else {
        Seq::new(data.len(), |i: int| data[i] ^ key[i % (key.len() as int)])
    }
}

/// Law: the cipher is self-inverse — applying it twice with the same key
/// (empty keys included) returns the original bytes, so `encode` and `decode`
/// undo each other.
pub proof fn lemma_cipher_involution(key: Seq<u8>, data: Seq<u8>)
    ensures
        cipher_seq(key, cipher_seq(key, data)) == data,
{
    if key.len() > 0 {
        let once = cipher_seq(key, data);
        let twice = cipher_seq(key, once);
        assert forall|i: int| 0 <= i < data.len() implies twice[i] == data[i] by {
            let k = key[i % (key.len() as int)];
            let d = data[i];
            assert((d ^ k) ^ k == d) by (bit_vector);
        }
        assert(twice =~= data);
    }
}

/// Applies the repeating-key XOR in place: decryption of an inbound body.
pub fn decode(key: &[u8], data: &mut Vec<u8>)
    ensures
        final(data)@ == cipher_seq(key@, old(data)@),
{
    let klen = key.len();
    if klen == 0 {
        return;
    }
    let n = data.len();
    let mut i: usize = 0;
    let mut j: usize = 0;
    while i < n
        invariant
            0 < klen,
            klen == key@.len(),
            n == data@.len(),
            data@.len() == old(data)@.len(),
            i <= n,
            j < klen,
            i as int % klen as int == j as int,
            forall|t: int| 0 <= t < i ==> data@[t] == (old(data)@[t] ^ key@[t % (klen as int)]),
            forall|t: int| i <= t < n ==> data@[t] == old(data)@[t],
        decreases n - i,
    {
        let d = data[i];
        let k = key[j];
        data.set(i, d ^ k);
        proof {
            let ki = klen as int;
            lemma_add_mod_noop(i as int, 1, ki);
            if ki == 1 {
                lemma_mod_self_0(ki);
            } else {
                lemma_small_mod(1nat, klen as nat);
                if j + 1 == klen {
                    lemma_mod_self_0(ki);
                } else {
                    lemma_small_mod((j + 1) as nat, klen as nat);
                }
            }
            lemma_small_mod(j as nat, klen as nat);
        }
        i = i + 1;
        if j + 1 == klen {
            j = 0;
        } else {
            j = j + 1;
        }
    }
    proof {
        assert(data@ =~= cipher_seq(key@, old(data)@));
    }
}

/// Applies the cipher to an outbound body. The cipher is self-inverse, so
/// encoding is the same operation as decoding.
pub fn encode(key: &[u8], data: &mut Vec<u8>)
    ensures
        final(data)@ == cipher_seq(key@, old(data)@),
{
    decode(key, data);
}

/// Base-128 variable-length encoding of a `u32`, least-significant group
/// first, the high bit of a byte marking a continuation.
pub open spec fn var_u32_bytes(v: u32) -> Seq<u8>
    decreases v,
{
    if v < 128 {
        seq![v as u8]
    } else {
        seq![(v % 128 + 128) as u8] + var_u32_bytes(v / 128)
    }
}

/// A `u32` takes at most five bytes in base-128 form.
pub proof fn lemma_var_u32_len(v: u32)
    ensures
        1 <= var_u32_bytes(v).len() <= 5,
{
    let v1 = v / 128;
    let v2 = v1 / 128;
    let v3 = v2 / 128;
    let v4 = v3 / 128;
    if v < 128 {
        assert(var_u32_bytes(v).len() == 1);
    } else {
        assert(var_u32_bytes(v).len() == 1 + var_u32_bytes(v1).len());
        if v1 < 128 {
            assert(var_u32_bytes(v1).len() == 1);
        } else {
            assert(var_u32_bytes(v1).len() == 1 + var_u32_bytes(v2).len());
            if v2 < 128 {
                assert(var_u32_bytes(v2).len() == 1);
            } else {
                assert(var_u32_bytes(v2).len() == 1 + var_u32_bytes(v3).len());
                if v3 < 128 {
                    assert(var_u32_bytes(v3).len() == 1);
                } else {
                    assert(var_u32_bytes(v3).len() == 1 + var_u32_bytes(v4).len());
                    assert(v4 < 128);
                    assert(var_u32_bytes(v4).len() == 1);
                }
            }
        }
    }
}

/// The payload of an `open` control message: the tag string `"open"` with its
/// length in front, then the service id in base-128 form.
pub open spec fn open_payload(service_id: u32) -> Seq<u8> {
    seq![4u8, 111u8, 112u8, 101u8, 110u8] + var_u32_bytes(service_id)
}

/// The payload of a `close` control message: the tag string `"close"` with
/// its length in front, then the service id in base-128 form.
pub open spec fn close_payload(service_id: u32) -> Seq<u8> {
    seq![5u8, 99u8, 108u8, 111u8, 115u8, 101u8] + var_u32_bytes(service_id)
}

/// A frame body: the 4-byte little-endian target id followed by the payload.
pub open spec fn frame_body(target_id: u32, payload: Seq<u8>) -> Seq<u8> {
    spec_u32_to_le_bytes(target_id) + payload
}

/// A complete outbound frame: the body length as a cleartext little-endian
/// prefix, then the body passed through the cipher.
pub open spec fn frame_bytes(key: Seq<u8>, body: Seq<u8>) -> Seq<u8> {
    spec_u32_to_le_bytes(body.len() as u32) + cipher_seq(key, body)
}

/// A data frame carrying `payload` to `target_id`.
pub open spec fn data_frame(key: Seq<u8>, target_id: u32, payload: Seq<u8>) -> Seq<u8> {
    frame_bytes(key, frame_body(target_id, payload))
}

/// An `open` control frame, addressed to the gateway sentinel id.
pub open spec fn open_frame(key: Seq<u8>, service_id: u32) -> Seq<u8> {
    frame_bytes(key, frame_body(GATEWAY_TARGET_ID, open_payload(service_id)))
}

/// A `close` control frame, addressed to the gateway sentinel id.
pub open spec fn close_frame(key: Seq<u8>, service_id: u32) -> Seq<u8> {
    frame_bytes(key, frame_body(GATEWAY_TARGET_ID, close_payload(service_id)))
}

/// Appends the base-128 form of `v`.
pub fn write_var_u32(out: &mut Vec<u8>, v: u32)
    ensures
        final(out)@ == old(out)@ + var_u32_bytes(v),
{
    let mut value: u32 = v;
    while value >= 128
        invariant
            out@ + var_u32_bytes(value) == old(out)@ + var_u32_bytes(v),
        decreases value,
    {
        let ghost pre = out@;
        let ghost prev = value;
        out.push((value % 128 + 128) as u8);
        value = value / 128;
        proof {
            assert(var_u32_bytes(prev) == seq![(prev % 128 + 128) as u8] + var_u32_bytes(value));
            assert(out@ + var_u32_bytes(value) =~= pre + var_u32_bytes(prev));
        }
    }
    let ghost pre = out@;
    out.push(value as u8);
    proof {
        assert(var_u32_bytes(value) == seq![value as u8]);
        assert(out@ =~= pre + var_u32_bytes(value));
        assert(out@ =~= old(out)@ + var_u32_bytes(v));
    }
}

/// Appends every byte of `src`.
pub fn push_bytes(out: &mut Vec<u8>, src: &[u8])
    ensures
        final(out)@ == old(out)@ + src@,
{
    let mut i: usize = 0;
    while i < src.len()
        invariant
            i <= src@.len(),
            out@ == old(out)@ + src@.take(i as int),
        decreases src@.len() - i,
    {
        let ghost pre = out@;
        out.push(src[i]);
        proof {
            assert(src@.take(i + 1 as int) =~= src@.take(i as int) + seq![src@[i as int]]);
            assert(out@ =~= old(out)@ + src@.take(i + 1 as int));
        }
        i = i + 1;
    }
    proof {
        assert(src@.take(src@.len() as int) =~= src@);
    }
}

/// Turns a finished body into a wire frame: ciphers the body and puts the
/// cleartext length in front.
pub fn seal_frame(key: &[u8], body: Vec<u8>) -> (frame: Vec<u8>)
    requires
        body@.len() <= u32::MAX,
    ensures
        frame@ == frame_bytes(key@, body@),
{
    let mut b = body;
    let blen = b.len() as u32;
    encode(key, &mut b);
    let mut frame = u32_to_le_bytes(blen);
    push_bytes(&mut frame, b.as_slice());
    frame
}

/// Builds a data frame for `target_id` carrying `payload` verbatim.
pub fn encode_data_frame(key: &[u8], target_id: u32, payload: &[u8]) -> (frame: Vec<u8>)
    requires
        payload@.len() + 4 <= u32::MAX,
    ensures
        frame@ == data_frame(key@, target_id, payload@),
{
    let mut body = u32_to_le_bytes(target_id);
    push_bytes(&mut body, payload);
    seal_frame(key, body)
}

/// Builds an `open` control frame for `service_id`.
pub fn encode_open_frame(key: &[u8], service_id: u32) -> (frame: Vec<u8>)
    ensures
        frame@ == open_frame(key@, service_id),
{
    let mut body = u32_to_le_bytes(GATEWAY_TARGET_ID);
    body.push(4u8);
    body.push(111u8);
    body.push(112u8);
    body.push(101u8);
    body.push(110u8);
    write_var_u32(&mut body, service_id);
    proof {
        lemma_var_u32_len(service_id);
        assert(body@ =~= frame_body(GATEWAY_TARGET_ID, open_payload(service_id)));
    }
    seal_frame(key, body)
}

/// Builds a `close` control frame for `service_id`.
pub fn encode_close_frame(key: &[u8], service_id: u32) -> (frame: Vec<u8>)
    ensures
        frame@ == close_frame(key@, service_id),
{
    let mut body = u32_to_le_bytes(GATEWAY_TARGET_ID);
    body.push(5u8);
    body.push(99u8);
    body.push(108u8);
    body.push(111u8);
    body.push(115u8);
    body.push(101u8);
    write_var_u32(&mut body, service_id);
    proof {
        lemma_var_u32_len(service_id);
        assert(body@ =~= frame_body(GATEWAY_TARGET_ID, close_payload(service_id)));
    }
    seal_frame(key, body)
}

/// Deciphers an inbound frame body and splits it into the target id and the
/// payload.
pub fn parse_frame_body(key: &[u8], data: Vec<u8>) -> (r: (u32, Vec<u8>))
    requires
        data@.len() > 4,
    ensures
        ({
            let body = cipher_seq(key@, data@);
            &&& r.0 == spec_u32_from_le_bytes(body.take(4))
            &&& r.1@ == body.skip(4)
        }),
{
    let mut d = data;
    decode(key, &mut d);
    let head = slice_subrange(d.as_slice(), 0, 4);
    let target_id = u32_from_le_bytes(head);
    let rest = slice_to_vec(slice_subrange(d.as_slice(), 4, d.len()));
    proof {
        let body = cipher_seq(key@, data@);
        assert(head@ =~= body.take(4));
        assert(rest@ =~= body.skip(4));
    }
    (target_id, rest)
}

/// Law: a data frame round-trips. Reading the cleartext length prefix of
/// `data_frame(key, t, p)` gives the body length; deciphering that body and
/// splitting it as `parse_frame_body` does yields `t` and `p` again.
pub proof fn lemma_frame_round_trip(key: Seq<u8>, target_id: u32, payload: Seq<u8>)
    requires
        payload.len() + 4 <= u32::MAX,
    ensures
        ({
            let f = data_frame(key, target_id, payload);
            let len = spec_u32_from_le_bytes(f.take(4));
            let body = cipher_seq(key, f.skip(4));
            &&& f.len() == 4 + len
            &&& len == 4 + payload.len()
            &&& spec_u32_from_le_bytes(body.take(4)) == target_id
            &&& body.skip(4) == payload
        }),
{
    lemma_auto_spec_u32_to_from_le_bytes();
    let body0 = frame_body(target_id, payload);
    let f = data_frame(key, target_id, payload);
    assert(cipher_seq(key, body0).len() == body0.len());
    assert(f.take(4) =~= spec_u32_to_le_bytes(body0.len() as u32));
    assert(f.skip(4) =~= cipher_seq(key, body0));
    lemma_cipher_involution(key, body0);
    let body = cipher_seq(key, f.skip(4));
    assert(body == body0);
    assert(body.take(4) =~= spec_u32_to_le_bytes(target_id));
    assert(body.skip(4) =~= payload);
}

} // verus!
