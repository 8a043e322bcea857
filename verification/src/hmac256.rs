//! HMAC-SHA256.
//!
//! [`hmac_sha256`] states the construction over whole keys and messages;
//! [`HmacSha256`] computes it incrementally on top of [`Sha256`].

use crate::sha256::{sha256, Sha256};
use vstd::prelude::*;

verus! {

/// The byte that the key block is combined with for the inner digest.
pub const INNER_PAD: u8 = 0x36;

/// The byte that the key block is combined with for the outer digest.
pub const OUTER_PAD: u8 = 0x5c;

/// The key brought to exactly one block: a key longer than a block is
/// replaced by its digest, and what is shorter than a block is filled up with
/// zero bytes.
pub open spec fn key_block(key: Seq<u8>) -> Seq<u8> {
    if key.len() > 64 {
        sha256(key) + Seq::new(32, |i: int| 0u8)
    } else {
        key + Seq::new((64 - key.len()) as nat, |i: int| 0u8)
    }
}

/// Every byte of `block` combined with `pad` by exclusive or.
pub open spec fn xor_pad(block: Seq<u8>, pad: u8) -> Seq<u8> {
    Seq::new(block.len(), |i: int| block[i] ^ pad)
}

/// The HMAC-SHA256 tag of `message` under `key`.
pub open spec fn hmac_sha256(key: Seq<u8>, message: Seq<u8>) -> Seq<u8> {
    sha256(
        xor_pad(key_block(key), OUTER_PAD) + sha256(xor_pad(key_block(key), INNER_PAD) + message),
    )
}

/// What a MAC computation in progress stands for.
pub struct MacInput {
    /// The secret key.
    pub key: Seq<u8>,
    /// The message taken in so far.
    pub message: Seq<u8>,
}

/// An HMAC-SHA256 computation in progress.
pub struct HmacSha256 {
    opad_key: [u8; 64],
    hasher: Sha256,
    key: Ghost<Seq<u8>>,
}

impl View for HmacSha256 {
    type V = MacInput;

    closed spec fn view(&self) -> MacInput {
        MacInput { key: self.key@, message: self.hasher@.skip(64) }
    }
}

impl HmacSha256 {
    #[verifier::type_invariant]
    spec fn well_formed(self) -> bool {
        &&& self.opad_key@ == xor_pad(key_block(self.key@), OUTER_PAD)
        &&& self.hasher@.len() >= 64
        &&& self.hasher@.subrange(0, 64) == xor_pad(key_block(self.key@), INNER_PAD)
    }

    /// Starts a computation under `key`; any length of key is accepted.
    pub fn new(key: &[u8]) -> (mac: Self)
        ensures
            mac@.key == key@,
            mac@.message == Seq::<u8>::empty(),
    {
        let mut block = [0u8; 64];
        if key.len() > 64 {
            let mut sha = Sha256::new();
            sha.update(key);
            let hash = sha.finalize();
            assert(Seq::<u8>::empty() + key@ =~= key@);
            let mut i: usize = 0;
            while i < 32
                invariant
                    i <= 32,
                    forall|j: int| 0 <= j < i ==> block[j] == hash[j],
                    forall|j: int| i <= j < 64 ==> block[j] == 0u8,
                decreases 32 - i,
            {
                block[i] = hash[i];
                i += 1;
            }
        } else {
            let mut i: usize = 0;
            while i < key.len()
                invariant
                    i <= key.len() <= 64,
                    forall|j: int| 0 <= j < i ==> block[j] == key[j],
                    forall|j: int| i <= j < 64 ==> block[j] == 0u8,
                decreases key.len() - i,
            {
                block[i] = key[i];
                i += 1;
            }
        }
        assert(block@ =~= key_block(key@));
        let mut ipad = [0u8; 64];
        let mut opad = [0u8; 64];
        let mut i: usize = 0;
        while i < 64
            invariant
                i <= 64,
                forall|j: int| 0 <= j < i ==> ipad[j] == block[j] ^ INNER_PAD,
                forall|j: int| 0 <= j < i ==> opad[j] == block[j] ^ OUTER_PAD,
            decreases 64 - i,
        {
            ipad[i] = block[i] ^ INNER_PAD;
            opad[i] = block[i] ^ OUTER_PAD;
            i += 1;
        }
        assert(ipad@ =~= xor_pad(block@, INNER_PAD));
        assert(opad@ =~= xor_pad(block@, OUTER_PAD));
        let mut hasher = Sha256::new();
        hasher.update(ipad.as_slice());
        proof {
            assert(hasher@ =~= ipad@);
            assert(hasher@.subrange(0, 64) =~= ipad@);
            assert(hasher@.skip(64) =~= Seq::<u8>::empty());
        }
        HmacSha256 { opad_key: opad, hasher, key: Ghost(key@) }
    }

    /// Takes in `data` after what was taken in before.
    pub fn update(&mut self, data: &[u8])
        ensures
            final(self)@.key == old(self)@.key,
            final(self)@.message == old(self)@.message + data@,
    {
        proof {
            use_type_invariant(&*self);
        }
        let ghost before = self.hasher@;
        let mut hasher = self.hasher.fork();
        hasher.update(data);
        proof {
            assert((before + data@).subrange(0, 64) =~= before.subrange(0, 64));
            assert((before + data@).skip(64) =~= before.skip(64) + data@);
        }
        *self = HmacSha256 { opad_key: self.opad_key, hasher, key: self.key };
    }

    /// Ends the computation and returns the tag of all that was taken in.
    pub fn finalize(self) -> (tag: [u8; 32])
        ensures
            tag@ == hmac_sha256(self@.key, self@.message),
    {
        proof {
            use_type_invariant(&self);
            assert(self.hasher@ =~= self.hasher@.subrange(0, 64) + self.hasher@.skip(64));
        }
        let inner_hash = self.hasher.finalize();
        let mut outer = Sha256::new();
        outer.update(self.opad_key.as_slice());
        outer.update(inner_hash.as_slice());
        proof {
            assert(outer@ =~= self.opad_key@ + inner_hash@);
        }
        outer.finalize()
    }
}

} // verus!
