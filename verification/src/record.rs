//! The persisted account record and its byte format.
//!
//! One record is stored per account name. It carries the account's public
//! key, the private seed that deterministically reconstructs the keypair,
//! and a self-signature over a fixed domain message, produced with the
//! account's own key at creation time. The serialized form is a versioned
//! byte layout, and the encrypted form on disk frames the per-record salt,
//! the cipher nonce and the authentication tag around the ciphertext.

use vstd::prelude::*;
use vstd::slice::{slice_subrange, slice_to_vec};

verus! {

/// Length in bytes of a public key.
pub const PUBLIC_KEY_LEN: usize = 32;

/// Length in bytes of a private seed.
pub const SEED_LEN: usize = 32;

/// Length in bytes of a self-signature.
pub const SIGNATURE_LEN: usize = 64;

/// Version tag of the serialized record layout.
pub const RECORD_VERSION: u8 = 1;

/// Bytes of the serialized layout before the variable-length message:
/// version, public key, seed, signature and the message length.
pub const RECORD_HEADER_LEN: usize = 133;

/// Largest accepted domain-message length; keeps every serialized record
/// within the sizes the cipher layer accepts.
pub const MAX_MESSAGE_LEN: usize = 0x1000_0000;

/// Length in bytes of a per-record key-derivation salt.
pub const SALT_LEN: usize = 16;

/// Bytes of the encrypted frame before the ciphertext: salt, nonce and tag.
pub const FRAME_HEADER_LEN: usize = 44;

/// The mathematical content of one account record.
pub struct KeystoreView {
    pub public_key: Seq<u8>,
    pub seed: Seq<u8>,
    pub signature: Seq<u8>,
    pub message: Seq<u8>,
}

/// A decrypted account record: the account's public key, its private seed,
/// and a self-signature over the domain message.
pub struct Keystore {
    pub public_key: Vec<u8>,
    pub seed: Vec<u8>,
    pub signature: Vec<u8>,
    pub message: Vec<u8>,
}

impl View for Keystore {
    type V = KeystoreView;

    open spec fn view(&self) -> KeystoreView {
        KeystoreView {
            public_key: self.public_key@,
            seed: self.seed@,
            signature: self.signature@,
            message: self.message@,
        }
    }
}

/// A record whose fields have the sizes the layout fixes.
pub open spec fn keystore_wf(k: KeystoreView) -> bool {
    &&& k.public_key.len() == PUBLIC_KEY_LEN
    &&& k.seed.len() == SEED_LEN
    &&& k.signature.len() == SIGNATURE_LEN
    &&& k.message.len() < MAX_MESSAGE_LEN
}

/// The four little-endian bytes of a 32-bit length.
pub open spec fn le32(n: u32) -> Seq<u8> {
    seq![
        (n & 0xff) as u8,
        ((n >> 8) & 0xff) as u8,
        ((n >> 16) & 0xff) as u8,
        ((n >> 24) & 0xff) as u8,
    ]
}

/// The 32-bit value read from four little-endian bytes.
pub open spec fn le32_val(b0: u8, b1: u8, b2: u8, b3: u8) -> u32 {
    (b0 as u32) | ((b1 as u32) << 8) | ((b2 as u32) << 16) | ((b3 as u32) << 24)
}

/// Reading back the four little-endian bytes of a value gives the value.
pub proof fn lemma_le32_round_trip(n: u32)
    ensures
        le32(n).len() == 4,
        le32_val(le32(n)[0], le32(n)[1], le32(n)[2], le32(n)[3]) == n,
{
    let b0 = (n & 0xff) as u8;
    let b1 = ((n >> 8) & 0xff) as u8;
    let b2 = ((n >> 16) & 0xff) as u8;
    let b3 = ((n >> 24) & 0xff) as u8;
    assert((b0 as u32) | ((b1 as u32) << 8) | ((b2 as u32) << 16) | ((b3 as u32) << 24) == n)
        by (bit_vector)
        requires
            b0 == (n & 0xff) as u8,
            b1 == ((n >> 8) & 0xff) as u8,
            b2 == ((n >> 16) & 0xff) as u8,
            b3 == ((n >> 24) & 0xff) as u8,
    ;
}

/// The serialized bytes of a record: version tag, public key, seed,
/// signature, message length, message.
pub open spec fn encode_keystore(k: KeystoreView) -> Seq<u8> {
    seq![RECORD_VERSION] + k.public_key + k.seed + k.signature + le32(k.message.len() as u32)
        + k.message
}

/// The record read back from serialized bytes, or nothing when the bytes do
/// not follow the layout.
pub open spec fn decode_keystore(b: Seq<u8>) -> Option<KeystoreView> {
    if b.len() < RECORD_HEADER_LEN {
        None
    } else if b[0] != RECORD_VERSION {
        None
    } else {
        let msg_len = le32_val(b[129], b[130], b[131], b[132]) as int;
        if msg_len < MAX_MESSAGE_LEN && b.len() - RECORD_HEADER_LEN == msg_len {
            Some(
                KeystoreView {
                    public_key: b.subrange(1, 33),
                    seed: b.subrange(33, 65),
                    signature: b.subrange(65, 129),
                    message: b.subrange(133, b.len() as int),
                },
            )
        } else {
            None
        }
    }
}

/// Law: the record layout round-trips. Decoding the serialized bytes of any
/// well-formed record gives back exactly that record.
pub proof fn lemma_record_round_trip(k: KeystoreView)
    requires
        keystore_wf(k),
    ensures
        decode_keystore(encode_keystore(k)) == Some(k),
{
    let e = encode_keystore(k);
    let n = k.message.len() as u32;
    lemma_le32_round_trip(n);
    assert(e.len() == RECORD_HEADER_LEN + k.message.len());
    assert(e[0] == RECORD_VERSION);
    assert(e[129] == le32(n)[0]);
    assert(e[130] == le32(n)[1]);
    assert(e[131] == le32(n)[2]);
    assert(e[132] == le32(n)[3]);
    assert(le32_val(e[129], e[130], e[131], e[132]) == n);
    assert(e.subrange(1, 33) =~= k.public_key);
    assert(e.subrange(33, 65) =~= k.seed);
    assert(e.subrange(65, 129) =~= k.signature);
    assert(e.subrange(133, e.len() as int) =~= k.message);
    let d = decode_keystore(e);
    assert(d matches Some(kd) && kd =~= k);
}

/// Serialize a record into its versioned byte layout.
pub fn encode_record(k: &Keystore) -> (r: Vec<u8>)
    requires
        keystore_wf(k@),
    ensures
        r@ == encode_keystore(k@),
        r@.len() == RECORD_HEADER_LEN + k@.message.len(),
{
    let mut out: Vec<u8> = Vec::new();
    out.push(RECORD_VERSION);
    out.extend_from_slice(k.public_key.as_slice());
    out.extend_from_slice(k.seed.as_slice());
    out.extend_from_slice(k.signature.as_slice());
    let len32: u32 = k.message.len() as u32;
    out.push((len32 & 0xff) as u8);
    out.push(((len32 >> 8) & 0xff) as u8);
    out.push(((len32 >> 16) & 0xff) as u8);
    out.push(((len32 >> 24) & 0xff) as u8);
    out.extend_from_slice(k.message.as_slice());
    proof {
        assert(out@ =~= encode_keystore(k@));
    }
    out
}

/// Deserialize a record from its byte layout; fails on malformed content.
pub fn decode_record(b: &[u8]) -> (r: Option<Keystore>)
    ensures
        match r {
            Some(k) => decode_keystore(b@) == Some(k@) && keystore_wf(k@),
            None => decode_keystore(b@) is None,
        },
{
    if b.len() < RECORD_HEADER_LEN {
        return None;
    }
    if b[0] != RECORD_VERSION {
        return None;
    }
    let b0 = b[129];
    let b1 = b[130];
    let b2 = b[131];
    let b3 = b[132];
    let len32: u32 = (b0 as u32) | ((b1 as u32) << 8) | ((b2 as u32) << 16) | ((b3 as u32) << 24);
    let msg_len: usize = len32 as usize;
    if msg_len >= MAX_MESSAGE_LEN {
        return None;
    }
    if b.len() - RECORD_HEADER_LEN != msg_len {
        return None;
    }
    let k = Keystore {
        public_key: slice_to_vec(slice_subrange(b, 1, 33)),
        seed: slice_to_vec(slice_subrange(b, 33, 65)),
        signature: slice_to_vec(slice_subrange(b, 65, 129)),
        message: slice_to_vec(slice_subrange(b, 133, b.len())),
    };
    proof {
        assert(decode_keystore(b@) == Some(k@));
    }
    Some(k)
}

/// A blob long enough to hold the encrypted frame's salt, nonce and tag.
pub open spec fn frame_wf(b: Seq<u8>) -> bool {
    b.len() >= FRAME_HEADER_LEN
}

/// The per-record salt stored in an encrypted frame.
pub open spec fn frame_salt(b: Seq<u8>) -> Seq<u8> {
    b.subrange(0, 16)
}

/// The cipher nonce stored in an encrypted frame.
pub open spec fn frame_nonce(b: Seq<u8>) -> Seq<u8> {
    b.subrange(16, 28)
}

/// The authentication tag stored in an encrypted frame.
pub open spec fn frame_tag(b: Seq<u8>) -> Seq<u8> {
    b.subrange(28, 44)
}

/// The ciphertext stored in an encrypted frame.
pub open spec fn frame_ct(b: Seq<u8>) -> Seq<u8> {
    b.subrange(44, b.len() as int)
}

/// Assemble the encrypted frame persisted for one record: salt, nonce and
/// tag, followed by the ciphertext.
pub fn encode_frame(salt: &[u8], nonce: &[u8], tag: &[u8], ciphertext: &[u8]) -> (r: Vec<u8>)
    requires
        salt@.len() == SALT_LEN,
        nonce@.len() == 12,
        tag@.len() == 16,
    ensures
        r@.len() == FRAME_HEADER_LEN + ciphertext@.len(),
        frame_wf(r@),
        frame_salt(r@) == salt@,
        frame_nonce(r@) == nonce@,
        frame_tag(r@) == tag@,
        frame_ct(r@) == ciphertext@,
{
    let mut out: Vec<u8> = Vec::new();
    out.extend_from_slice(salt);
    out.extend_from_slice(nonce);
    out.extend_from_slice(tag);
    out.extend_from_slice(ciphertext);
    proof {
        assert(frame_salt(out@) =~= salt@);
        assert(frame_nonce(out@) =~= nonce@);
        assert(frame_tag(out@) =~= tag@);
        assert(frame_ct(out@) =~= ciphertext@);
    }
    out
}

} // verus!
