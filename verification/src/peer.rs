//! Peer identities: the 32 bytes of a public key.

use vstd::prelude::*;

verus! {

/// Bytes of a peer identity.
pub const PEER_ID_LEN: usize = 32;

/// A peer's long-lived public key. It authenticates the peer on the
/// transport and names it in permissions and sync registrations.
#[derive(Debug, Clone, Copy, PartialEq, Eq, Hash)]
pub struct PeerId {
    pub bytes: [u8; 32],
}

impl View for PeerId {
    type V = Seq<u8>;

    open spec fn view(&self) -> Seq<u8> {
        self.bytes@
    }
}

/// The identities in a list, each as its bytes.
pub open spec fn peers_view(peers: Seq<PeerId>) -> Seq<Seq<u8>> {
    peers.map_values(|p: PeerId| p@)
}

impl PeerId {
    /// Every identity is `PEER_ID_LEN` bytes long.
    pub proof fn lemma_len(self)
        ensures
            self@.len() == PEER_ID_LEN,
    {
        broadcast use vstd::array::array_len_matches_n;

    }

    /// The identity that `bytes` holds, if they are exactly 32.
    pub fn from_bytes(bytes: &[u8]) -> (r: Option<PeerId>)
        ensures
            bytes@.len() == PEER_ID_LEN ==> (r matches Some(p) && p@ == bytes@),
            bytes@.len() != PEER_ID_LEN ==> r is None,
    {
        if bytes.len() != PEER_ID_LEN {
            return None;
        }
        Some(PeerId::read_at(bytes, 0))
    }

    /// The identity in the 32 bytes of `buf` from `pos` on.
    pub(crate) fn read_at(buf: &[u8], pos: usize) -> (p: PeerId)
        requires
            pos + PEER_ID_LEN <= buf@.len(),
        ensures
            p@ == buf@.subrange(pos as int, pos + PEER_ID_LEN),
    {
        let mut bytes: [u8; 32] = [0u8; 32];
        let total: usize = buf.len();
        let mut i: usize = 0;
        while i < PEER_ID_LEN
            invariant
                i <= PEER_ID_LEN,
                pos + PEER_ID_LEN <= buf@.len(),
                buf@.len() == total,
                bytes@.len() == PEER_ID_LEN,
                forall|j: int| 0 <= j < i ==> bytes@[j] == buf@[pos + j],
            decreases PEER_ID_LEN - i,
        {
            bytes[i] = buf[pos + i];
            i = i + 1;
        }
        let p = PeerId { bytes };
        proof {
            assert(p@ =~= buf@.subrange(pos as int, pos + PEER_ID_LEN));
        }
        p
    }

    /// Appends the identity's bytes to `out`.
    pub fn write_to(&self, out: &mut Vec<u8>)
        ensures
            final(out)@ == old(out)@ + self@,
    {
        let mut i: usize = 0;
        proof {
            self.lemma_len();
            assert(self@.take(0) =~= Seq::<u8>::empty());
            assert(out@ =~= old(out)@ + self@.take(0));
        }
        while i < PEER_ID_LEN
            invariant
                i <= PEER_ID_LEN,
                self@.len() == PEER_ID_LEN,
                out@ == old(out)@ + self@.take(i as int),
            decreases PEER_ID_LEN - i,
        {
            out.push(self.bytes[i]);
            proof {
                assert(out@ =~= old(out)@ + self@.take(i + 1));
            }
            i = i + 1;
        }
        proof {
            assert(self@.take(i as int) =~= self@);
        }
    }

    /// Whether two identities are the same key.
    pub fn same(&self, other: &PeerId) -> (r: bool)
        ensures
            r == (self@ == other@),
    {
        let mut i: usize = 0;
        proof {
            self.lemma_len();
            other.lemma_len();
        }
        while i < PEER_ID_LEN
            invariant
                i <= PEER_ID_LEN,
                self@.len() == PEER_ID_LEN,
                other@.len() == PEER_ID_LEN,
                forall|j: int| 0 <= j < i ==> self@[j] == other@[j],
            decreases PEER_ID_LEN - i,
        {
            if self.bytes[i] != other.bytes[i] {
                return false;
            }
            i = i + 1;
        }
        proof {
            assert(self@ =~= other@);
        }
        true
    }
}

} // verus!
