//! Boolean sequences, eight bits to a byte: the growable `MutableBitmap` and
//! the frozen `Bitmap`, which caches how many of its bits are unset.

use vstd::prelude::*;
use std::sync::Arc;
use crate::buffer::share;

verus! {

/// Number of `false` entries of `s`.
pub open spec fn count_unset(s: Seq<bool>) -> nat
    decreases s.len(),
{
    if s.len() == 0 {
        0
    } else {
        count_unset(s.drop_last()) + if s.last() { 0nat } else { 1nat }
    }
}

/// A sequence without unset bits holds `true` everywhere, and conversely.
pub proof fn lemma_count_unset_zero(s: Seq<bool>)
    ensures
        count_unset(s) == 0 <==> (forall|i: int| 0 <= i < s.len() ==> s[i]),
        count_unset(s) <= s.len(),
    decreases s.len(),
{
    if s.len() > 0 {
        lemma_count_unset_zero(s.drop_last());
        if count_unset(s) == 0 {
            assert forall|i: int| 0 <= i < s.len() implies s[i] by {
                if i < s.len() - 1 {
                    assert(s.drop_last()[i]);
                }
            }
        } else if s.last() {
            let j = choose|j: int| 0 <= j < s.drop_last().len() && !s.drop_last()[j];
            assert(!s[j]);
        }
    }
}

/// Whether bit `j` of `byte` is set, counting from the lowest.
pub open spec fn bit_of(byte: u8, j: u8) -> bool {
    byte & (1u8 << j) != 0
}

/// Setting or clearing bit `j` of a byte gives that bit its new value and
/// leaves the other seven alone.
proof fn lemma_write_bit(byte: u8, j: u8, k: u8)
    requires
        j < 8,
        k < 8,
    ensures
        bit_of(byte | (1u8 << j), k) == (k == j || bit_of(byte, k)),
        bit_of(byte & !(1u8 << j), k) == (k != j && bit_of(byte, k)),
{
    assert((byte | (1u8 << j)) & (1u8 << k) != 0 <==> (k == j || byte & (1u8 << k) != 0))
        by (bit_vector)
        requires
            j < 8,
            k < 8,
    ;
    assert((byte & !(1u8 << j)) & (1u8 << k) != 0 <==> (k != j && byte & (1u8 << k) != 0))
        by (bit_vector)
        requires
            j < 8,
            k < 8,
    ;
}

/// The booleans that `len` bits packed into `bytes` stand for.
pub open spec fn unpacked(bytes: Seq<u8>, len: nat) -> Seq<bool> {
    Seq::new(len, |i: int| bit_of(bytes[i / 8], (i % 8) as u8))
}

/// A growable sequence of booleans, eight to a byte, exclusively owned.
#[derive(Debug)]
pub struct MutableBitmap {
    buffer: Vec<u8>,
    length: usize,
}

impl View for MutableBitmap {
    type V = Seq<bool>;

    closed spec fn view(&self) -> Seq<bool> {
        unpacked(self.buffer@, self.length as nat)
    }
}

impl MutableBitmap {
    /// The bytes are exactly those that the bits need.
    pub closed spec fn wf(&self) -> bool {
        self.buffer@.len() == (self.length + 7) / 8
    }

    /// The empty bitmap.
    pub fn new() -> (r: Self)
        ensures
            r.wf(),
            r@ == Seq::<bool>::empty(),
    {
        let r = MutableBitmap { buffer: Vec::new(), length: 0 };
        assert(r@ =~= Seq::<bool>::empty());
        r
    }

    /// The empty bitmap, with room reserved for `capacity` bits.
    pub fn with_capacity(capacity: usize) -> (r: Self)
        ensures
            r.wf(),
            r@ == Seq::<bool>::empty(),
    {
        let r = MutableBitmap { buffer: Vec::with_capacity(capacity / 8 + 1), length: 0 };
        assert(r@ =~= Seq::<bool>::empty());
        r
    }

    /// Whether the bitmap is in order, which every bitmap made and changed
    /// through these functions is.
    pub fn is_valid(&self) -> (r: bool)
        ensures
            r == self.wf(),
    {
        let whole = self.length / 8;
        let needed = if self.length % 8 == 0 {
            whole
        } else {
            whole + 1
        };
        self.buffer.len() == needed
    }

    /// Number of bits held.
    pub fn len(&self) -> (r: usize)
        ensures
            r == self@.len(),
    {
        self.length
    }

    /// Appends one bit.
    pub fn push(&mut self, value: bool)
        requires
            old(self).wf(),
            old(self)@.len() < usize::MAX,
        ensures
            final(self).wf(),
            final(self)@ == old(self)@.push(value),
    {
        if self.length % 8 == 0 {
            self.buffer.push(0u8);
        }
        let at = self.length / 8;
        let shift = (self.length % 8) as u8;
        let byte = self.buffer[at];
        let updated = if value {
            byte | (1u8 << shift)
        } else {
            byte & !(1u8 << shift)
        };
        self.buffer.set(at, updated);
        self.length = self.length + 1;
        proof {
            let before = old(self)@;
            let after = self@;
            assert forall|j: int| 0 <= j < after.len() implies after[j] == before.push(value)[j] by {
                if j / 8 == at {
                    lemma_write_bit(byte, shift, (j % 8) as u8);
                }
            }
            assert(after =~= before.push(value));
        }
    }

    /// Appends `additional` copies of `value`.
    pub fn extend_constant(&mut self, additional: usize, value: bool)
        requires
            old(self).wf(),
            old(self)@.len() + additional <= usize::MAX,
        ensures
            final(self).wf(),
            final(self)@ == old(self)@ + Seq::new(additional as nat, |i: int| value),
    {
        let mut k: usize = 0;
        while k < additional
            invariant
                k <= additional,
                self.wf(),
                old(self)@.len() + additional <= usize::MAX,
                self@ == old(self)@ + Seq::new(k as nat, |i: int| value),
            decreases additional - k,
        {
            self.push(value);
            k += 1;
            assert(self@ =~= old(self)@ + Seq::new(k as nat, |i: int| value));
        }
    }

    /// Overwrites bit `index`.
    pub fn set(&mut self, index: usize, value: bool)
        requires
            old(self).wf(),
            index < old(self)@.len(),
        ensures
            final(self).wf(),
            final(self)@ == old(self)@.update(index as int, value),
    {
        let at = index / 8;
        let shift = (index % 8) as u8;
        let byte = self.buffer[at];
        let updated = if value {
            byte | (1u8 << shift)
        } else {
            byte & !(1u8 << shift)
        };
        self.buffer.set(at, updated);
        proof {
            let before = old(self)@;
            let after = self@;
            assert forall|j: int| 0 <= j < after.len() implies after[j] == before.update(
                index as int,
                value,
            )[j] by {
                if j / 8 == at {
                    lemma_write_bit(byte, shift, (j % 8) as u8);
                }
            }
            assert(after =~= before.update(index as int, value));
        }
    }

    /// Bit `index`.
    pub fn get(&self, index: usize) -> (r: bool)
        requires
            self.wf(),
            index < self@.len(),
        ensures
            r == self@[index as int],
    {
        let shift = (index % 8) as u8;
        self.buffer[index / 8] & (1u8 << shift) != 0
    }
}

/// A frozen sequence of booleans, eight to a byte, that knows how many of
/// its bits are unset. Its clones share one allocation.
#[derive(Debug)]
pub struct Bitmap {
    bytes: Arc<Vec<u8>>,
    length: usize,
    unset: usize,
}

impl View for Bitmap {
    type V = Seq<bool>;

    closed spec fn view(&self) -> Seq<bool> {
        unpacked(self.bytes@, self.length as nat)
    }
}

fn count_unset_bits(bits: &Vec<bool>) -> (r: usize)
    ensures
        r == count_unset(bits@),
{
    let mut n: usize = 0;
    let mut k: usize = 0;
    while k < bits.len()
        invariant
            k <= bits.len(),
            n <= k,
            n == count_unset(bits@.take(k as int)),
        decreases bits.len() - k,
    {
        proof {
            assert(bits@.take(k + 1).drop_last() =~= bits@.take(k as int));
        }
        if !bits[k] {
            n += 1;
        }
        k += 1;
    }
    assert(bits@.take(k as int) =~= bits@);
    n
}

/// Number of unset bits among the first `length` bits packed into `bytes`.
fn count_unset_packed(bytes: &Vec<u8>, length: usize) -> (r: usize)
    requires
        bytes@.len() * 8 >= length,
    ensures
        r == count_unset(unpacked(bytes@, length as nat)),
{
    let ghost all = unpacked(bytes@, length as nat);
    let mut n: usize = 0;
    let mut k: usize = 0;
    while k < length
        invariant
            k <= length,
            n <= k,
            bytes@.len() * 8 >= length,
            all == unpacked(bytes@, length as nat),
            n == count_unset(all.take(k as int)),
        decreases length - k,
    {
        proof {
            assert(all.take(k + 1).drop_last() =~= all.take(k as int));
        }
        let shift = (k % 8) as u8;
        if bytes[k / 8] & (1u8 << shift) == 0 {
            n += 1;
        }
        k += 1;
    }
    assert(all.take(k as int) =~= all);
    n
}

/// Packs booleans into bytes, the first one into the lowest bit of the
/// first byte.
fn pack_bits(bits: &Vec<bool>) -> (r: Vec<u8>)
    ensures
        r@.len() * 8 >= bits@.len(),
        unpacked(r@, bits@.len()) == bits@,
{
    let count = bits.len();
    let mut bytes: Vec<u8> = Vec::with_capacity(count / 8 + 1);
    let mut i: usize = 0;
    while i < count
        invariant
            i <= count,
            count == bits@.len(),
            bytes@.len() == (i + 7) / 8,
            forall|j: int| 0 <= j < i ==> bit_of(#[trigger] bytes@[j / 8], (j % 8) as u8) == bits@[j],
        decreases count - i,
    {
        if i % 8 == 0 {
            bytes.push(0u8);
        }
        let at = i / 8;
        let shift = (i % 8) as u8;
        let byte = bytes[at];
        let updated = if bits[i] {
            byte | (1u8 << shift)
        } else {
            byte & !(1u8 << shift)
        };
        let ghost before = bytes@;
        bytes.set(at, updated);
        proof {
            assert forall|j: int| 0 <= j < i + 1 implies bit_of(
                #[trigger] bytes@[j / 8],
                (j % 8) as u8,
            ) == bits@[j] by {
                if j / 8 == at {
                    lemma_write_bit(byte, shift, (j % 8) as u8);
                    if j < i {
                        assert(bit_of(before[j / 8], (j % 8) as u8) == bits@[j]);
                    }
                } else {
                    assert(bit_of(before[j / 8], (j % 8) as u8) == bits@[j]);
                }
            }
        }
        i += 1;
    }
    assert(unpacked(bytes@, bits@.len()) =~= bits@);
    bytes
}

impl Bitmap {
    #[verifier::type_invariant]
    spec fn inv(self) -> bool {
        &&& self.bytes@.len() * 8 >= self.length
        &&& self.unset == count_unset(unpacked(self.bytes@, self.length as nat))
    }

    /// Freezes a vector of booleans, packing them.
    pub fn from_bools(bits: Vec<bool>) -> (r: Self)
        ensures
            r@ == bits@,
    {
        let unset = count_unset_bits(&bits);
        let bytes = pack_bits(&bits);
        Bitmap { bytes: Arc::new(bytes), length: bits.len(), unset }
    }

    /// Freezes a growable bitmap: its bytes move into the result, and its
    /// unset bits are counted once.
    pub fn from_mutable(bitmap: MutableBitmap) -> (r: Self)
        requires
            bitmap.wf(),
        ensures
            r@ == bitmap@,
    {
        let unset = count_unset_packed(&bitmap.buffer, bitmap.length);
        Bitmap { bytes: Arc::new(bitmap.buffer), length: bitmap.length, unset }
    }

    /// Number of bits held, whatever the bytes behind them could hold.
    pub fn len(&self) -> (r: usize)
        ensures
            r == self@.len(),
    {
        self.length
    }

    /// Number of unset bits, read from the cached count.
    pub fn null_count(&self) -> (r: usize)
        ensures
            r == count_unset(self@),
    {
        proof {
            use_type_invariant(self);
        }
        self.unset
    }

    /// Bit `index`, or `None` past the end.
    pub fn get(&self, index: usize) -> (r: Option<bool>)
        ensures
            r == if index < self@.len() { Some(self@[index as int]) } else { None::<bool> },
    {
        if index < self.length {
            Some(self.get_bit(index))
        } else {
            None
        }
    }

    /// Bit `index` of a bitmap known to hold it.
    pub fn get_bit(&self, index: usize) -> (r: bool)
        requires
            index < self@.len(),
        ensures
            r == self@[index as int],
    {
        proof {
            use_type_invariant(self);
        }
        let shift = (index % 8) as u8;
        self.bytes[index / 8] & (1u8 << shift) != 0
    }
}

impl Clone for Bitmap {
    fn clone(&self) -> (r: Self)
        ensures
            r@ == self@,
    {
        proof {
            use_type_invariant(self);
        }
        Bitmap { bytes: share(&self.bytes), length: self.length, unset: self.unset }
    }
}

} // verus!
