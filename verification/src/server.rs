//! The per-session state of a server: which video streams a session does not
//! want, as a 64-bit mask.

use vstd::prelude::*;

verus! {

/// The mask a new session starts with: streams 26 and 28 are withheld.
pub const DEFAULT_STREAM_MASK: u64 = 0x1400_0000;

/// What a server reports about a session.
#[derive(Copy, Clone, Debug, PartialEq, Eq, Structural)]
pub enum SessionState {
    Connected,
    ConnectError,
    Disconnected,
}

/// Whether bit `i` of `m` is set.
pub open spec fn bit_set(m: u64, i: u32) -> bool {
    i < 64 && (m >> i) & 1 == 1
}

/// The stream mask of a session; a set bit withholds that stream.
pub struct Session {
    stream_mask: u64,
}

impl Session {
    /// The mask.
    pub closed spec fn mask(&self) -> u64 {
        self.stream_mask
    }

    /// A session withholding the streams of `DEFAULT_STREAM_MASK`.
    pub fn new() -> (s: Self)
        ensures
            s.mask() == DEFAULT_STREAM_MASK,
    {
        Session { stream_mask: DEFAULT_STREAM_MASK }
    }

    /// The mask.
    pub fn stream_mask(&self) -> (r: u64)
        ensures
            r == self.mask(),
    {
        self.stream_mask
    }

    /// Stops withholding stream `stream_id`.
    pub fn clear_stream_mask(&mut self, stream_id: u32)
        requires
            stream_id < 64,
        ensures
            final(self).mask() == old(self).mask() & !(1u64 << stream_id),
    {
        let mask = 1u64 << stream_id;
        self.stream_mask = self.stream_mask & !mask;
    }

    /// Withholds stream `stream_id`; ids from 64 on are ignored.
    pub fn set_stream_mask(&mut self, stream_id: u32)
        ensures
            final(self).mask() == (if stream_id < 64 {
                old(self).mask() | (1u64 << stream_id)
            } else {
                old(self).mask()
            }),
    {
        if stream_id < 64 {
            let mask = 1u64 << stream_id;
            self.stream_mask = self.stream_mask | mask;
        }
    }

    /// Whether stream `stream_id` is withheld; ids from 64 on never are.
    pub fn test_stream_mask(&self, stream_id: u32) -> (r: bool)
        ensures
            r == bit_set(self.mask(), stream_id),
    {
        if stream_id < 64 {
            let mask = 1u64 << stream_id;
            let curr = self.stream_mask;
            proof {
                let m = curr;
                let i = stream_id;
                assert((m & (1u64 << i)) == (1u64 << i) <==> (m >> i) & 1 == 1) by (bit_vector)
                    requires
                        i < 64,
                ;
            }
            (curr & mask) == mask
        } else {
            false
        }
    }

    /// Withholds stream `stream_id` when `masked`, else stops withholding it.
    pub fn apply_mask(&mut self, stream_id: u32, masked: bool)
        requires
            !masked ==> stream_id < 64,
        ensures
            final(self).mask() == (if masked {
                if stream_id < 64 {
                    old(self).mask() | (1u64 << stream_id)
                } else {
                    old(self).mask()
                }
            } else {
                old(self).mask() & !(1u64 << stream_id)
            }),
    {
        if masked {
            self.set_stream_mask(stream_id);
        } else {
            self.clear_stream_mask(stream_id);
        }
    }
}

/// Withholding a stream makes it withheld and leaves every other stream as it
/// was; releasing it does the opposite.
pub proof fn lemma_stream_mask_bits(m: u64, i: u32, j: u32)
    requires
        i < 64,
        j < 64,
        i != j,
    ensures
        bit_set(m | (1u64 << i), i),
        !bit_set(m & !(1u64 << i), i),
        bit_set(m | (1u64 << i), j) == bit_set(m, j),
        bit_set(m & !(1u64 << i), j) == bit_set(m, j),
{
    assert(((m | (1u64 << i)) >> i) & 1 == 1) by (bit_vector)
        requires
            i < 64,
    ;
    assert(((m & !(1u64 << i)) >> i) & 1 == 0) by (bit_vector)
        requires
            i < 64,
    ;
    assert((((m | (1u64 << i)) >> j) & 1) == ((m >> j) & 1)) by (bit_vector)
        requires
            i < 64,
            j < 64,
            i != j,
    ;
    assert((((m & !(1u64 << i)) >> j) & 1) == ((m >> j) & 1)) by (bit_vector)
        requires
            i < 64,
            j < 64,
            i != j,
    ;
}

/// A new session withholds exactly streams 26 and 28.
pub proof fn lemma_default_mask(i: u32)
    ensures
        bit_set(DEFAULT_STREAM_MASK, i) <==> (i == 26 || i == 28),
{
    if i < 64 {
        assert(((0x1400_0000u64 >> i) & 1 == 1) <==> (i == 26 || i == 28)) by (bit_vector)
            requires
                i < 64,
        ;
    }
}

} // verus!
