use vstd::prelude::*;
use vstd::arithmetic::power2::{pow2, lemma_pow2_unfold, lemma_pow2_strictly_increases, lemma_pow2_pos};
use vstd::arithmetic::div_mod::lemma_div_denominator;
use vstd::layout::unsigned_int_max_values;

verus! {

/// One bit of a byte, counting from the least significant end.
pub open spec fn byte_bit(b: u8, k: int) -> bool {
    (b >> (k as u8)) & 1u8 == 1u8
}

/// The k-th binary digit of v, counting from the least significant end.
pub open spec fn spec_bit(v: nat, k: nat) -> bool {
    v / pow2(k) % 2 == 1
}

/// The value of a bit string read little-endian: the first bit is the least
/// significant.
pub open spec fn bits_value(s: Seq<bool>) -> nat
    decreases s.len(),
{
    if s.len() == 0 {
        0
    } else {
        (if s[0] {
            1nat
        } else {
            0nat
        }) + 2 * bits_value(s.skip(1))
    }
}

pub proof fn lemma_bits_value_bound(s: Seq<bool>)
    ensures
        bits_value(s) < pow2(s.len()),
    decreases s.len(),
{
    if s.len() == 0 {
        assert(pow2(0) == 1) by {
            vstd::arithmetic::power2::lemma2_to64();
        }
    } else {
        lemma_bits_value_bound(s.skip(1));
        lemma_pow2_unfold(s.len());
    }
}

/// A bit string whose bits are exactly the binary digits of `v` has value `v`.
pub proof fn lemma_bits_value_is(s: Seq<bool>, v: nat)
    requires
        v < pow2(s.len()),
        forall|k: int| 0 <= k < s.len() ==> s[k] == spec_bit(v, k as nat),
    ensures
        bits_value(s) == v,
    decreases s.len(),
{
    if s.len() == 0 {
        assert(pow2(0) == 1) by {
            vstd::arithmetic::power2::lemma2_to64();
        }
    } else {
        let t = s.skip(1);
        assert(pow2(1) == 2) by {
            vstd::arithmetic::power2::lemma2_to64();
        }
        assert forall|k: int| 0 <= k < t.len() implies t[k] == spec_bit(v / 2, k as nat) by {
            assert(t[k] == s[k + 1]);
            assert(s[k + 1] == spec_bit(v, (k + 1) as nat));
            lemma_pow2_unfold((k + 1) as nat);
            lemma_pow2_pos(k as nat);
            lemma_div_denominator(v as int, 2, pow2(k as nat) as int);
            assert(v / pow2((k + 1) as nat) == (v / 2) / pow2(k as nat));
        }
        lemma_pow2_unfold(s.len());
        assert(v / 2 < pow2(t.len())) by {
            lemma_pow2_pos(t.len());
        }
        lemma_bits_value_is(t, v / 2);
        assert(s[0] == spec_bit(v, 0));
        assert(pow2(0) == 1) by {
            vstd::arithmetic::power2::lemma2_to64();
        }
        assert(spec_bit(v, 0) == (v % 2 == 1));
        assert(v == 2 * (v / 2) + v % 2);
    }
}

pub proof fn lemma_bits_value_all_false(s: Seq<bool>)
    requires
        forall|k: int| 0 <= k < s.len() ==> !s[k],
    ensures
        bits_value(s) == 0,
    decreases s.len(),
{
    if s.len() > 0 {
        let t = s.skip(1);
        assert(forall|k: int| 0 <= k < t.len() ==> t[k] == s[k + 1]);
        lemma_bits_value_all_false(t);
    }
}

/// Packed bit vector: bits are stored least-significant-first within each
/// byte, little-endian across bytes.
pub struct BitBuffer {
    bytes: Vec<u8>,
    len: usize,
}

impl View for BitBuffer {
    type V = Seq<bool>;

    closed spec fn view(&self) -> Seq<bool> {
        Seq::new(self.len as nat, |i: int| byte_bit(self.bytes@[i / 8], i % 8))
    }
}

impl BitBuffer {
    pub closed spec fn wf(&self) -> bool {
        &&& self.len + 7 <= usize::MAX
    &&& self.bytes@.len() == (self.len + 7) as int / 8
    }

    /// Create a zeroed buffer; `size` is a number of bits.
    pub fn new(size: usize) -> (r: BitBuffer)
        requires
            size + 7 <= usize::MAX,
        ensures
            r.wf(),
            r@.len() == size,
            forall|i: int| 0 <= i < size ==> r@[i] == false,
    {
        let nbytes = (size + 7) / 8;
        let mut bytes: Vec<u8> = Vec::new();
        let mut i: usize = 0;
        while i < nbytes
            invariant
                bytes@.len() == i,
                i <= nbytes,
                forall|j: int| 0 <= j < i ==> bytes@[j] == 0u8,
            decreases nbytes - i,
        {
            bytes.push(0u8);
            i = i + 1;
        }
        let r = BitBuffer { bytes, len: size };
        proof {
            assert(forall|k: u8| (0u8 >> k) & 1u8 != 1u8) by (bit_vector);
            assert forall|j: int| 0 <= j < size implies r@[j] == false by {
                assert(r.bytes@[j / 8] == 0u8);
            }
        }
        r
    }

    /// Number of bits held.
    pub fn len(&self) -> (r: usize)
        ensures
            r == self@.len(),
    {
        self.len
    }

    /// Read one bit.
    pub fn get_bit(&self, i: usize) -> (r: bool)
        requires
            self.wf(),
            i < self@.len(),
        ensures
            r == self@[i as int],
    {
        let byte = self.bytes[i / 8];
        let k: u8 = (i % 8) as u8;
        ((byte >> k) & 1u8) == 1u8
    }

    /// Write one bit.
    pub fn set_bit(&mut self, i: usize, b: bool)
        requires
            old(self).wf(),
            i < old(self)@.len(),
        ensures
            final(self).wf(),
            final(self)@ == old(self)@.update(i as int, b),
    {
        let idx = i / 8;
        let k: u8 = (i % 8) as u8;
        let old_byte = self.bytes[idx];
        let new_byte: u8 = if b {
            old_byte | (1u8 << k)
        } else {
            old_byte & !(1u8 << k)
        };
        self.bytes.set(idx, new_byte);
        proof {
            let ob = old_byte;
            let nb = new_byte;
            assert forall|m: int| 0 <= m < self@.len() implies self@[m] == old(self)@.update(
                i as int,
                b,
            )[m] by {
                let jm: u8 = (m % 8) as u8;
                if m / 8 == i as int / 8 {
                    assert(self.bytes@[m / 8] == nb);
                    if m == i {
                        if b {
                            assert(k < 8 ==> (((ob | (1u8 << k)) >> k) & 1u8) == 1u8)
                                by (bit_vector);
                        } else {
                            assert(k < 8 ==> (((ob & !(1u8 << k)) >> k) & 1u8) == 0u8)
                                by (bit_vector);
                        }
                    } else {
                        assert(m % 8 != i as int % 8);
                        assert(jm != k);
                        if b {
                            assert(jm != k && k < 8 && jm < 8 ==> (((ob | (1u8 << k)) >> jm)
                                & 1u8) == ((ob >> jm) & 1u8)) by (bit_vector);
                        } else {
                            assert(jm != k && k < 8 && jm < 8 ==> (((ob & !(1u8 << k)) >> jm)
                                & 1u8) == ((ob >> jm) & 1u8)) by (bit_vector);
                        }
                    }
                } else {
                    assert(self.bytes@[m / 8] == old(self).bytes@[m / 8]);
                }
            }
            assert(self@ =~= old(self)@.update(i as int, b));
        }
    }

    /// Read `width` bits starting at bit `idx`, as a little-endian value.
    pub fn get(&self, idx: usize, width: usize) -> (r: usize)
        requires
            self.wf(),
            idx + width <= self@.len(),
            width <= usize::BITS,
        ensures
            r as nat == bits_value(self@.subrange(idx as int, idx + width)),
            (r as nat) < pow2(width as nat),
    {
        let ghost s = self@.subrange(idx as int, idx + width);
        proof {
            unsigned_int_max_values();
        }
        let mut acc: usize = 0;
        let mut k: usize = width;
        while k > 0
            invariant
                self.wf(),
                idx + width <= self@.len(),
                width <= usize::BITS,
                k <= width,
                s == self@.subrange(idx as int, idx + width),
                acc as nat == bits_value(s.skip(k as int)),
                (usize::MAX as nat) == pow2(usize::BITS as nat) - 1,
            decreases k,
        {
            proof {
                lemma_bits_value_bound(s.skip(k as int));
                lemma_pow2_unfold((width - k + 1) as nat);
                if ((width - k + 1) as nat) < (usize::BITS as nat) {
                    lemma_pow2_strictly_increases((width - k + 1) as nat, usize::BITS as nat);
                }
            }
            k = k - 1;
            let bit = self.get_bit(idx + k);
            acc = acc * 2 + if bit {
                1
            } else {
                0
            };
            proof {
                assert(s.skip(k as int)[0] == s[k as int]);
                assert(s.skip(k as int).skip(1) =~= s.skip(k as int + 1));
                assert(bits_value(s.skip(k as int)) == (if s[k as int] {
                    1nat
                } else {
                    0nat
                }) + 2 * bits_value(s.skip(k as int + 1)));
            }
        }
        proof {
            assert(s.skip(0) =~= s);
            lemma_bits_value_bound(s);
        }
        acc
    }

    /// Write `value` into the `width` bits starting at bit `idx`; the rest of
    /// the buffer is untouched.
    pub fn set(&mut self, idx: usize, width: usize, value: usize)
        requires
            old(self).wf(),
            idx + width <= old(self)@.len(),
            width <= usize::BITS,
            (value as nat) < pow2(width as nat),
        ensures
            final(self).wf(),
            final(self)@.len() == old(self)@.len(),
            forall|j: int|
                0 <= j < old(self)@.len() && !(idx <= j < idx + width) ==> final(self)@[j] == old(
                    self,
                )@[j],
            forall|k: int|
                0 <= k < width ==> final(self)@[idx + k] == #[trigger] spec_bit(
                    value as nat,
                    k as nat,
                ),
            bits_value(final(self)@.subrange(idx as int, idx + width)) == value,
    {
        let mut rem: usize = value;
        let mut k: usize = 0;
        proof {
            assert(pow2(0) == 1) by {
                vstd::arithmetic::power2::lemma2_to64();
            }
        }
        while k < width
            invariant
                self.wf(),
                self@.len() == old(self)@.len(),
                idx + width <= self@.len(),
                k <= width,
                rem as nat == value as nat / pow2(k as nat),
                forall|j: int|
                    0 <= j < self@.len() && !(idx <= j < idx + k) ==> self@[j] == old(self)@[j],
                forall|j: int|
                    0 <= j < k ==> self@[idx + j] == #[trigger] spec_bit(value as nat, j as nat),
            decreases width - k,
        {
            let bit = rem % 2 == 1;
            proof {
                assert(spec_bit(value as nat, k as nat) == (rem % 2 == 1));
            }
            self.set_bit(idx + k, bit);
            rem = rem / 2;
            proof {
                lemma_pow2_unfold((k + 1) as nat);
                lemma_pow2_pos(k as nat);
                lemma_div_denominator(value as int, 2, pow2(k as nat) as int);
                assert(value as nat / pow2((k + 1) as nat) == (value as nat / 2) / pow2(k as nat));
                lemma_div_denominator(value as int, pow2(k as nat) as int, 2);
            }
            k = k + 1;
        }
        proof {
            let s = self@.subrange(idx as int, idx + width);
            assert forall|j: int| 0 <= j < s.len() implies s[j] == spec_bit(value as nat, j as nat)
                by {
                assert(s[j] == self@[idx + j]);
            }
            lemma_bits_value_is(s, value as nat);
        }
    }

    /// An exact copy of the buffer.
    pub fn duplicate(&self) -> (r: BitBuffer)
        ensures
            r@ == self@,
            self.wf() ==> r.wf(),
    {
        let r = BitBuffer { bytes: self.bytes.clone(), len: self.len };
        proof {
            assert(forall|i: int| 0 <= i < r.bytes@.len() ==> cloned::<u8>(self.bytes@[i], r.bytes@[i]));
            assert(r.bytes@ =~= self.bytes@);
            assert(r@ =~= self@);
        }
        r
    }
}

} // verus!
