use vstd::prelude::*;

use crate::error::{Error, ErrorKind};

verus! {

/// Bit `i` of a bit-packed buffer, least significant bit of each byte first.
pub open spec fn bit_at(data: Seq<u8>, i: int) -> bool {
    (data[i / 8] >> ((i % 8) as u8)) & 1u8 == 1u8
}

proof fn lemma_or_bit(b: u8, k: u8, m: u8)
    requires
        k < 8,
        m < 8,
    ensures
        m == k ==> ((b | (1u8 << k)) >> m) & 1u8 == 1u8,
        m != k ==> ((b | (1u8 << k)) >> m) & 1u8 == (b >> m) & 1u8,
{
    assert(k < 8 && m < 8 && m == k ==> ((b | (1u8 << k)) >> m) & 1u8 == 1u8) by (bit_vector);
    assert(k < 8 && m < 8 && m != k ==> ((b | (1u8 << k)) >> m) & 1u8 == (b >> m) & 1u8)
        by (bit_vector);
}

proof fn lemma_zero_bit(m: u8)
    requires
        m < 8,
    ensures
        (0u8 >> m) & 1u8 == 0u8,
{
    assert(m < 8 ==> (0u8 >> m) & 1u8 == 0u8) by (bit_vector);
}

/// A borrowed bit-packed buffer: `number_of_bits` bits starting at bit
/// `offset` of `data`.
#[derive(Clone, Copy)]
pub struct BitBuffer<'a> {
    pub data: &'a [u8],
    pub offset: usize,
    pub number_of_bits: usize,
}

impl<'a> BitBuffer<'a> {
    /// Every declared bit lies inside `data`.
    pub open spec fn wf(&self) -> bool {
        &&& self.offset + self.number_of_bits <= self.data@.len() * 8
        &&& self.offset + self.number_of_bits <= usize::MAX
    }

    /// Whether bit `i` of the view is set.
    pub open spec fn is_set(&self, i: int) -> bool {
        bit_at(self.data@, self.offset + i)
    }
}

/// Read bit `idx` of a bit buffer; fails when `idx` is outside the buffer.
pub fn bitset_is_set(set: &BitBuffer, idx: usize) -> (r: Result<bool, Error>)
    requires
        set.wf(),
    ensures
        r is Ok <==> idx < set.number_of_bits,
        r matches Ok(b) ==> b == set.is_set(idx as int),
        r matches Err(e) ==> e.kind == ErrorKind::Exhausted,
{
    if idx >= set.number_of_bits {
        return Err(Error::new(ErrorKind::Exhausted, "bit index out of bounds"));
    }
    let bit = set.offset + idx;
    let byte = bit / 8;
    Ok((set.data[byte] >> ((bit % 8) as u8)) & 1u8 == 1u8)
}

/// A growable bit-packed buffer, as written for a validity bitmap.
#[derive(Debug, Clone)]
pub struct Bitmap {
    pub buffer: Vec<u8>,
    pub len: usize,
}

impl View for Bitmap {
    type V = Seq<bool>;

    open spec fn view(&self) -> Seq<bool> {
        Seq::new(self.len as nat, |i: int| bit_at(self.buffer@, i))
    }
}

impl Bitmap {
    /// Exactly the bytes that the bits need, with the unused high bits clear.
    pub open spec fn wf(&self) -> bool {
        &&& self.buffer@.len() == (self.len + 7) / 8
        &&& forall|i: int| self.len <= i < self.buffer@.len() * 8 ==> !bit_at(self.buffer@, i)
    }

    pub fn new() -> (r: Bitmap)
        ensures
            r.wf(),
            r@ == Seq::<bool>::empty(),
    {
        let r = Bitmap { buffer: Vec::new(), len: 0 };
        assert(r@ =~= Seq::<bool>::empty());
        r
    }

    /// Test well-formedness at run time (for bitmaps of up to
    /// `usize::MAX - 8` bits).
    pub fn check_wf(&self) -> (r: bool)
        ensures
            r == (self.wf() && self.len <= usize::MAX - 8),
    {
        if self.len > usize::MAX - 8 {
            return false;
        }
        let total = (self.len + 7) / 8;
        if self.buffer.len() != total {
            return false;
        }
        let end = total * 8;
        assert(end <= self.len + 7 && self.len <= end) by (nonlinear_arith)
            requires
                total == (self.len + 7) / 8,
                end == total * 8,
        ;
        let mut i: usize = self.len;
        while i < end
            invariant
                self.len <= i <= end,
                end == self.buffer@.len() * 8,
                total == self.buffer@.len(),
                total == (self.len + 7) / 8,
                forall|j: int| self.len <= j < i ==> !bit_at(self.buffer@, j),
            decreases end - i,
        {
            if (self.buffer[i / 8] >> ((i % 8) as u8)) & 1u8 == 1u8 {
                assert(bit_at(self.buffer@, i as int));
                return false;
            }
            i = i + 1;
        }
        true
    }

    pub fn len(&self) -> (r: usize)
        ensures
            r == self@.len(),
    {
        self.len
    }

    /// Read bit `i`.
    pub fn get(&self, i: usize) -> (r: bool)
        requires
            self.wf(),
            i < self@.len(),
        ensures
            r == self@[i as int],
    {
        (self.buffer[i / 8] >> ((i % 8) as u8)) & 1u8 == 1u8
    }

    /// Append one bit.
    pub fn push(&mut self, value: bool)
        requires
            old(self).wf(),
            old(self).len < usize::MAX - 8,
        ensures
            final(self).wf(),
            final(self)@ == old(self)@.push(value),
    {
        let ghost old_buf = self.buffer@;
        let n = self.len;
        if n % 8 == 0 {
            self.buffer.push(0u8);
        }
        let ghost mid = self.buffer@;
        assert forall|i: int| 0 <= i < mid.len() * 8 && i != n implies bit_at(mid, i) == (
        i < old_buf.len() * 8 && bit_at(old_buf, i)) by {
            if i >= old_buf.len() * 8 {
                lemma_zero_bit((i % 8) as u8);
            }
        }
        assert(!bit_at(mid, n as int)) by {
            if n % 8 == 0 {
                lemma_zero_bit(0u8);
            }
        }
        if value {
            let k = (n % 8) as u8;
            let byte = self.buffer[n / 8] | (1u8 << k);
            self.buffer.set(n / 8, byte);
            assert forall|i: int| 0 <= i < mid.len() * 8 implies bit_at(self.buffer@, i) == (
            i == n || bit_at(mid, i)) by {
                if i / 8 == n / 8 {
                    lemma_or_bit(mid[(n / 8) as int], k, (i % 8) as u8);
                }
            }
        }
        self.len = n + 1;
        assert(self.buffer@.len() == (self.len + 7) / 8);
        assert forall|i: int| self.len <= i < self.buffer@.len() * 8 implies !bit_at(
            self.buffer@,
            i,
        ) by {
            assert(i != n && i < mid.len() * 8);
            assert(bit_at(mid, i) == (i < old_buf.len() * 8 && bit_at(old_buf, i)));
            assert(!bit_at(mid, i));
            if value {
                assert(bit_at(self.buffer@, i) == (i == n || bit_at(mid, i)));
            }
        }
        assert(self@ =~= old(self)@.push(value));
    }
}

} // verus!
