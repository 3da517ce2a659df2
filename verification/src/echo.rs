//! Echo suppression: every outbound text is recorded by hash, and an
//! inbound text whose hash is recorded is recognised as a looped copy of
//! our own output and dropped.  A collision or a repeated human message
//! is an accepted false positive; the guard prevents loops, nothing more.

use vstd::prelude::*;
use vstd::string::StrSliceExecFns;

use crate::shared_map::hashes_contains;
use crate::shared_map::hashes_insert;
use crate::state::State;

verus! {

/// Offset basis of the 64-bit FNV-1a hash.
pub const HASH_OFFSET: u64 = 0xcbf29ce484222325;

/// Prime of the 64-bit FNV-1a hash.
pub const HASH_PRIME: u64 = 0x100000001b3;

/// One FNV-1a accumulation step, over a whole character.
pub open spec fn hash_step(h: u64, c: char) -> u64 {
    (h ^ (c as u64)).wrapping_mul(HASH_PRIME)
}

/// The hash of a text, accumulated character by character.
pub open spec fn spec_hash(s: Seq<char>) -> u64
    decreases s.len(),
{
    if s.len() == 0 {
        HASH_OFFSET
    } else {
        hash_step(spec_hash(s.drop_last()), s.last())
    }
}

/// Hash a text for the sent-hash set.
pub fn hash_text(s: &str) -> (h: u64)
    ensures
        h == spec_hash(s@),
{
    let n = s.unicode_len();
    let mut h: u64 = HASH_OFFSET;
    let mut i: usize = 0;
    proof {
        assert(s@.take(0) =~= Seq::<char>::empty());
    }
    while i < n
        invariant
            n == s@.len(),
            i <= n,
            h == spec_hash(s@.take(i as int)),
        decreases n - i,
    {
        let c = s.get_char(i);
        h = (h ^ (c as u64)).wrapping_mul(HASH_PRIME);
        proof {
            assert(s@.take(i + 1).drop_last() =~= s@.take(i as int));
            assert(s@.take(i + 1).last() == s@[i as int]);
        }
        i += 1;
    }
    proof {
        assert(s@.take(n as int) =~= s@);
    }
    h
}

impl State {
    /// Record the hash of a text this process is about to send.
    pub fn record_sent(&mut self, text: &str)
        ensures
            *final(self) == (State { sent_hashes: final(self).sent_hashes, ..*old(self) }),
            final(self).sent_set() == old(self).sent_set().insert(spec_hash(text@)),
    {
        let h = hash_text(text);
        hashes_insert(&mut self.sent_hashes, h);
    }

    /// Is this inbound text a copy of something this process sent?
    pub fn is_echo(&self, text: &str) -> (r: bool)
        ensures
            r == self.sent_set().contains(spec_hash(text@)),
    {
        let h = hash_text(text);
        hashes_contains(&self.sent_hashes, h)
    }
}

} // verus!
