use vstd::prelude::*;
use vstd::utf8::encode_utf8;

use crate::error::EscrowError;
use crate::timelocks::TimelockDelays;

verus! {

/// The SHA-256 digest of a byte string.
pub uninterp spec fn sha256_of(data: Seq<u8>) -> Seq<u8>;

/// Whether `signature` is a valid Ed25519 signature of `message` under `public_key`.
pub uninterp spec fn ed25519_accepts(signature: Seq<u8>, message: Seq<u8>, public_key: Seq<u8>) -> bool;

/// What standard, padded base64 text decodes to; `None` for text that is not base64.
pub uninterp spec fn base64_decoded(text: Seq<char>) -> Option<Seq<u8>>;

/// Relies on `near_sdk::env::sha256_array`: the SHA-256 digest of `data`.
#[verifier::external_body]
pub(crate) fn sha256(data: &[u8]) -> (r: [u8; 32])
    ensures
        r@ == sha256_of(data@),
{
    near_sdk::env::sha256_array(data)
}

/// Relies on `near_sdk::env::ed25519_verify`: Ed25519 verification of
/// `message` against `signature` and the raw 32-byte `public_key`.
#[verifier::external_body]
fn ed25519_verify(signature: &[u8; 64], message: &[u8; 32], public_key: &[u8; 32]) -> (r: bool)
    ensures
        r == ed25519_accepts(signature@, message@, public_key@),
{
    near_sdk::env::ed25519_verify(signature, message, public_key)
}

/// Relies on `near_sdk::base64::decode`: standard base64 with padding.
#[verifier::external_body]
#[allow(deprecated)]
pub(crate) fn decode_base64(text: &str) -> (r: Option<Vec<u8>>)
    ensures
        match r {
            Some(v) => base64_decoded(text@) == Some(v@),
            None => base64_decoded(text@) is None,
        },
{
    match near_sdk::base64::decode(text) {
        Ok(v) => Some(v),
        Err(_) => None,
    }
}

/// The off-chain order a maker signs for a source-side swap.
#[derive(Clone, Debug)]
pub struct SignedOrder {
    pub nonce: u128,
    pub maker_id: String,
    pub asset_id: String,
    pub amount: u128,
    pub hashlock: [u8; 32],
    pub timelocks: TimelockDelays,
}

/// The `width` lowest bytes of `n`, least significant first.
pub open spec fn le_bytes(n: nat, width: nat) -> Seq<u8>
    decreases width,
{
    if width == 0 {
        Seq::empty()
    } else {
        seq![(n % 256) as u8] + le_bytes(n / 256, (width - 1) as nat)
    }
}

/// A string as its UTF-8 length (four bytes, little-endian) followed by its UTF-8 bytes.
pub open spec fn string_field(s: Seq<char>) -> Seq<u8> {
    le_bytes(encode_utf8(s).len(), 4) + encode_utf8(s)
}

/// The seven delays, eight little-endian bytes each, in declaration order.
pub open spec fn delays_bytes(d: TimelockDelays) -> Seq<u8> {
    le_bytes(d.src_withdrawal_delay as nat, 8) + le_bytes(d.src_public_withdrawal_delay as nat, 8)
        + le_bytes(d.src_cancellation_delay as nat, 8) + le_bytes(
        d.src_public_cancellation_delay as nat,
        8,
    ) + le_bytes(d.dst_withdrawal_delay as nat, 8) + le_bytes(d.dst_public_withdrawal_delay as nat, 8)
        + le_bytes(d.dst_cancellation_delay as nat, 8)
}

/// The canonical encoding of an order: every field in declaration order.
pub open spec fn order_bytes(o: SignedOrder) -> Seq<u8> {
    le_bytes(o.nonce as nat, 16) + string_field(o.maker_id@) + string_field(o.asset_id@) + le_bytes(
        o.amount as nat,
        16,
    ) + o.hashlock@ + delays_bytes(o.timelocks)
}

/// Both strings are short enough for their four-byte length prefix.
pub open spec fn order_encodable(o: SignedOrder) -> bool {
    &&& encode_utf8(o.maker_id@).len() <= u32::MAX
    &&& encode_utf8(o.asset_id@).len() <= u32::MAX
}

/// The outcome of checking a signed order against the consumed nonces.
pub open spec fn signature_check(
    o: SignedOrder,
    signature: Seq<u8>,
    public_key: Seq<u8>,
    used_nonces: Seq<u128>,
) -> Result<(), EscrowError> {
    if used_nonces.contains(o.nonce) {
        Err(EscrowError::NonceReused)
    } else if !order_encodable(o) || signature.len() != 64 || public_key.len() != 33 {
        Err(EscrowError::BadSigFormat)
    } else if !ed25519_accepts(signature, sha256_of(order_bytes(o)), public_key.subrange(1, 33)) {
        Err(EscrowError::BadSig)
    } else {
        Ok(())
    }
}

fn push_le(out: &mut Vec<u8>, n: u128, width: usize)
    ensures
        final(out)@ == old(out)@ + le_bytes(n as nat, width as nat),
{
    let mut v: u128 = n;
    let mut i: usize = 0;
    while i < width
        invariant
            i <= width,
            old(out)@ + le_bytes(n as nat, width as nat) == out@ + le_bytes(
                v as nat,
                (width - i) as nat,
            ),
        decreases width - i,
    {
        let ghost before = out@;
        let ghost rest = le_bytes(v as nat / 256, (width - i - 1) as nat);
        assert(le_bytes(v as nat, (width - i) as nat) == seq![(v as nat % 256) as u8] + rest);
        out.push((v % 256) as u8);
        assert(before + (seq![(v as nat % 256) as u8] + rest) =~= out@ + rest);
        v = v / 256;
        i = i + 1;
    }
    assert(out@ + le_bytes(v as nat, 0) =~= out@);
}

fn push_bytes(out: &mut Vec<u8>, b: &[u8])
    ensures
        final(out)@ == old(out)@ + b@,
{
    let mut i: usize = 0;
    while i < b.len()
        invariant
            i <= b@.len(),
            out@ == old(out)@ + b@.subrange(0, i as int),
        decreases b@.len() - i,
    {
        out.push(b[i]);
        assert(b@.subrange(0, i + 1) =~= b@.subrange(0, i as int).push(b@[i as int]));
        i = i + 1;
    }
    assert(b@.subrange(0, b@.len() as int) =~= b@);
}

fn push_string(out: &mut Vec<u8>, s: &String)
    requires
        encode_utf8(s@).len() <= u32::MAX,
    ensures
        final(out)@ == old(out)@ + string_field(s@),
{
    let bytes = s.as_str().as_bytes();
    push_le(out, bytes.len() as u128, 4);
    push_bytes(out, bytes);
    assert(old(out)@ + string_field(s@) =~= old(out)@ + le_bytes(encode_utf8(s@).len(), 4)
        + encode_utf8(s@));
}

impl SignedOrder {
    /// The canonical byte string the maker signs.
    pub fn to_message_bytes(&self) -> (r: Vec<u8>)
        requires
            order_encodable(*self),
        ensures
            r@ == order_bytes(*self),
    {
        let mut buffer: Vec<u8> = Vec::new();
        push_le(&mut buffer, self.nonce, 16);
        push_string(&mut buffer, &self.maker_id);
        push_string(&mut buffer, &self.asset_id);
        push_le(&mut buffer, self.amount, 16);
        push_bytes(&mut buffer, self.hashlock.as_slice());
        let d = &self.timelocks;
        push_le(&mut buffer, d.src_withdrawal_delay as u128, 8);
        push_le(&mut buffer, d.src_public_withdrawal_delay as u128, 8);
        push_le(&mut buffer, d.src_cancellation_delay as u128, 8);
        push_le(&mut buffer, d.src_public_cancellation_delay as u128, 8);
        push_le(&mut buffer, d.dst_withdrawal_delay as u128, 8);
        push_le(&mut buffer, d.dst_public_withdrawal_delay as u128, 8);
        push_le(&mut buffer, d.dst_cancellation_delay as u128, 8);
        assert(buffer@ =~= order_bytes(*self));
        buffer
    }

    /// Whether both strings fit their length prefix.
    pub fn is_encodable(&self) -> (r: bool)
        ensures
            r == order_encodable(*self),
    {
        self.maker_id.as_str().as_bytes().len() <= 0xffff_ffff && self.asset_id.as_str().as_bytes().len()
            <= 0xffff_ffff
    }
}

/// Whether `n` occurs in `nonces`.
pub fn nonce_used(nonces: &Vec<u128>, n: u128) -> (r: bool)
    ensures
        r == nonces@.contains(n),
{
    let mut i: usize = 0;
    while i < nonces.len()
        invariant
            i <= nonces@.len(),
            forall|j: int| 0 <= j < i ==> nonces@[j] != n,
        decreases nonces@.len() - i,
    {
        if nonces[i] == n {
            return true;
        }
        i = i + 1;
    }
    false
}

/// Checks that the maker signed `params` with `public_key` and that its nonce
/// is fresh, then records the nonce as consumed. On failure the nonces stay
/// as they were.
///
/// `public_key` is the curve tag byte followed by the 32 raw key bytes.
pub fn verify_maker_signature(
    params: &SignedOrder,
    signature_bytes: &[u8],
    public_key: &[u8],
    used_nonces: &mut Vec<u128>,
) -> (r: Result<(), EscrowError>)
    ensures
        r == signature_check(*params, signature_bytes@, public_key@, old(used_nonces)@),
        final(used_nonces)@ == (if r is Ok {
            old(used_nonces)@.push(params.nonce)
        } else {
            old(used_nonces)@
        }),
{
    if nonce_used(used_nonces, params.nonce) {
        return Err(EscrowError::NonceReused);
    }
    if !params.is_encodable() || signature_bytes.len() != 64 || public_key.len() != 33 {
        return Err(EscrowError::BadSigFormat);
    }
    let message_bytes = params.to_message_bytes();
    let message_hash = sha256(message_bytes.as_slice());
    let mut signature: [u8; 64] = [0u8; 64];
    let mut i: usize = 0;
    while i < 64
        invariant
            i <= 64,
            signature_bytes@.len() == 64,
            forall|j: int| 0 <= j < i ==> signature@[j] == signature_bytes@[j],
        decreases 64 - i,
    {
        signature[i] = signature_bytes[i];
        i = i + 1;
    }
    let mut key: [u8; 32] = [0u8; 32];
    let mut k: usize = 0;
    while k < 32
        invariant
            k <= 32,
            public_key@.len() == 33,
            forall|j: int| 0 <= j < k ==> key@[j] == public_key@[j + 1],
        decreases 32 - k,
    {
        key[k] = public_key[k + 1];
        k = k + 1;
    }
    assert(signature@ =~= signature_bytes@);
    assert(key@ =~= public_key@.subrange(1, 33));
    if !ed25519_verify(&signature, &message_hash, &key) {
        return Err(EscrowError::BadSig);
    }
    used_nonces.push(params.nonce);
    Ok(())
}

} // verus!
