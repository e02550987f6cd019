use vstd::prelude::*;

verus! {

/// The identity of one participant: the raw bytes of its public key.
/// The engine only ever compares identities and copies them.
pub struct PlayerKey {
    pub bytes: Vec<u8>,
}

impl View for PlayerKey {
    type V = Seq<u8>;

    open spec fn view(&self) -> Seq<u8> {
        self.bytes@
    }
}

impl PlayerKey {
    pub fn new(bytes: Vec<u8>) -> (r: PlayerKey)
        ensures
            r@ == bytes@,
    {
        PlayerKey { bytes }
    }

    /// Whether two keys name the same participant.
    pub fn same_as(&self, other: &PlayerKey) -> (r: bool)
        ensures
            r == (self@ == other@),
    {
        let n = self.bytes.len();
        if n != other.bytes.len() {
            return false;
        }
        let mut i: usize = 0;
        while i < n
            invariant
                n == self@.len(),
                n == other@.len(),
                i <= n,
                forall|j: int| 0 <= j < i ==> self@[j] == other@[j],
            decreases n - i,
        {
            if self.bytes[i] != other.bytes[i] {
                return false;
            }
            i = i + 1;
        }
        assert(self@ =~= other@);
        true
    }

    /// A fresh key naming the same participant.
    pub fn duplicate(&self) -> (r: PlayerKey)
        ensures
            r@ == self@,
    {
        let mut bytes: Vec<u8> = Vec::new();
        let mut i: usize = 0;
        while i < self.bytes.len()
            invariant
                i <= self@.len(),
                bytes@ == self@.subrange(0, i as int),
            decreases self@.len() - i,
        {
            bytes.push(self.bytes[i]);
            i = i + 1;
            assert(bytes@ =~= self@.subrange(0, i as int));
        }
        assert(bytes@ =~= self@);
        PlayerKey { bytes }
    }
}

} // verus!
