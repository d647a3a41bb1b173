use vstd::prelude::*;

verus! {

/// A ledger field element: an unsigned integer native to the ledger's
/// cryptographic field, held here as its 32-byte big-endian encoding.
/// Addresses, class hashes and packed short strings are all carried in
/// this type; the replay logic only ever compares such values and decodes
/// the packed-string ones, so the byte encoding is the whole model.
pub struct Felt {
    pub bytes: Vec<u8>,
}

impl View for Felt {
    type V = Seq<u8>;

    open spec fn view(&self) -> Seq<u8> {
        self.bytes@
    }
}

pub open spec fn all_zero(s: Seq<u8>) -> bool {
    forall|i: int| 0 <= i < s.len() ==> s[i] == 0
}

impl Felt {
    /// A well-formed field element holds exactly its 32 big-endian bytes.
    pub open spec fn wf(self) -> bool {
        self@.len() == 32
    }

    /// The all-zero field element, the ledger's sentinel for "absent".
    pub fn zero() -> (r: Felt)
        ensures
            r.wf(),
            all_zero(r@),
    {
        let mut bytes: Vec<u8> = Vec::new();
        let mut i: usize = 0;
        while i < 32
            invariant
                i <= 32,
                bytes@.len() == i,
                all_zero(bytes@),
            decreases 32 - i,
        {
            bytes.push(0);
            i = i + 1;
        }
        Felt { bytes }
    }

    /// Builds a field element from at most 32 big-endian bytes; shorter
    /// input is left-padded with zeros, as the ledger's integer encoding does.
    pub fn from_bytes(b: &Vec<u8>) -> (r: Felt)
        requires
            b@.len() <= 32,
        ensures
            r.wf(),
            r@ == Seq::<u8>::new((32 - b@.len()) as nat, |i: int| 0u8) + b@,
    {
        let pad: usize = 32 - b.len();
        let mut bytes: Vec<u8> = Vec::new();
        let mut i: usize = 0;
        while i < pad
            invariant
                i <= pad,
                bytes@.len() == i,
                all_zero(bytes@),
            decreases pad - i,
        {
            bytes.push(0);
            i = i + 1;
        }
        let mut j: usize = 0;
        while j < b.len()
            invariant
                j <= b@.len(),
                pad == 32 - b@.len(),
                bytes@.len() == pad + j,
                forall|k: int| 0 <= k < pad ==> bytes@[k] == 0,
                forall|k: int| 0 <= k < j ==> bytes@[pad + k] == b@[k],
            decreases b@.len() - j,
        {
            bytes.push(b[j]);
            j = j + 1;
        }
        proof {
            assert(bytes@ =~= Seq::<u8>::new((32 - b@.len()) as nat, |i: int| 0u8) + b@);
        }
        Felt { bytes }
    }

    /// Byte-for-byte equality of the encoded values.
    pub fn equals(&self, other: &Felt) -> (r: bool)
        ensures
            r <==> self@ == other@,
    {
        if self.bytes.len() != other.bytes.len() {
            proof {
                assert(self@ != other@);
            }
            return false;
        }
        let n = self.bytes.len();
        let mut i: usize = 0;
        while i < n
            invariant
                i <= n,
                n == self@.len(),
                n == other@.len(),
                forall|j: int| 0 <= j < i ==> self@[j] == other@[j],
            decreases n - i,
        {
            if self.bytes[i] != other.bytes[i] {
                return false;
            }
            i = i + 1;
        }
        proof {
            assert(self@ =~= other@);
        }
        true
    }

    /// A fresh copy with the same bytes.
    pub fn dup(&self) -> (r: Felt)
        ensures
            r@ == self@,
    {
        let mut bytes: Vec<u8> = Vec::new();
        let mut i: usize = 0;
        while i < self.bytes.len()
            invariant
                i <= self@.len(),
                bytes@ == self@.take(i as int),
            decreases self@.len() - i,
        {
            bytes.push(self.bytes[i]);
            i = i + 1;
            proof {
                assert(bytes@ =~= self@.take(i as int));
            }
        }
        proof {
            assert(bytes@ =~= self@);
        }
        Felt { bytes }
    }

    /// True exactly when every byte is zero.
    pub fn is_zero(&self) -> (r: bool)
        ensures
            r <==> all_zero(self@),
    {
        let n = self.bytes.len();
        let mut i: usize = 0;
        while i < n
            invariant
                i <= n,
                n == self@.len(),
                forall|j: int| 0 <= j < i ==> self@[j] == 0,
            decreases n - i,
        {
            if self.bytes[i] != 0 {
                return false;
            }
            i = i + 1;
        }
        true
    }
}

} // verus!
