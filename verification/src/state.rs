//! Plain 8-bit and 16-bit machine words with explicit mask-and-shift
//! semantics, and the small indexed stores built from them: a byte-addressed
//! memory and a register file.

use vstd::prelude::*;
use vstd::arithmetic::power2::pow2;

verus! {

proof fn lemma_low_byte(x: u16)
    ensures
        x & 0xFF == x % 256,
{
    vstd::bits::lemma_u16_low_bits_mask_is_mod(x, 8);
    vstd::bits::lemma_low_bits_mask_values();
    vstd::arithmetic::power2::lemma2_to64();
}

/// One 8-bit machine word.
#[derive(Debug, Eq, PartialEq, Copy, Clone, Structural)]
pub struct Byte {
    data: u8,
}

impl View for Byte {
    type V = u8;

    closed spec fn view(&self) -> u8 {
        self.data
    }
}

impl Byte {
    /// The zero byte.
    pub fn new() -> (r: Self)
        ensures
            r@ == 0,
    {
        Self { data: 0 }
    }

    /// Wraps a raw byte.
    pub fn from(d: u8) -> (r: Self)
        ensures
            r@ == d,
    {
        Self { data: d }
    }

    /// Wraps an index, truncated to the low byte.
    pub fn from_usize(d: usize) -> (r: Self)
        ensures
            r@ == d % 256,
    {
        proof {
            vstd::bits::lemma_usize_low_bits_mask_is_mod(d, 8);
            vstd::bits::lemma_low_bits_mask_values();
            vstd::arithmetic::power2::lemma2_to64();
        }
        Self { data: (d & 0xFF) as u8 }
    }

    /// The byte as an index.
    pub fn as_usize(&self) -> (r: usize)
        ensures
            r == self@ as usize,
    {
        self.data as usize
    }

    /// Bitwise and with a mask byte.
    pub fn mask_bits(&self, mask: &Self) -> (r: Self)
        ensures
            r@ == self@ & mask@,
    {
        Self::from(self.data & mask.data)
    }

    /// Shifts left by `amount` bits, discarding the bits shifted out of the
    /// byte.
    pub fn shift_left(&self, amount: u8) -> (r: Self)
        requires
            amount < 8,
        ensures
            r@ as nat == ((self@ as nat) * pow2(amount as nat)) % 256,
    {
        proof {
            vstd::bits::lemma_u16_pow2_no_overflow(amount as nat);
            vstd::arithmetic::power2::lemma_pow2_strictly_increases(amount as nat, 8);
            vstd::arithmetic::power2::lemma2_to64();
            assert((self.data as nat) * pow2(amount as nat) < 256 * 256) by (nonlinear_arith)
                requires
                    (self.data as nat) < 256,
                    pow2(amount as nat) <= 256,
            ;
            vstd::bits::lemma_u16_shl_is_mul(self.data as u16, amount as u16);
            lemma_low_byte((self.data as u16) << (amount as u16));
        }
        Self { data: (((self.data as u16) << (amount as u16)) & 0xFF) as u8 }
    }

    /// Shifts right by `amount` bits.
    pub fn shift_right(&self, amount: u8) -> (r: Self)
        requires
            amount < 8,
        ensures
            r@ as nat == (self@ as nat) / pow2(amount as nat),
    {
        proof {
            vstd::bits::lemma_u8_shr_is_div(self.data, amount);
        }
        Self { data: self.data >> amount }
    }

    /// Whether bit `bit` of the byte is set.
    pub fn get_bit(&self, bit: u8) -> (r: bool)
        requires
            bit < 8,
        ensures
            r == (((self@ as nat) / pow2(bit as nat)) % 2 == 1),
    {
        proof {
            vstd::bits::lemma_u8_shr_is_div(self.data, bit);
            let n = self.data;
            let b = bit;
            assert((n >> b) & 1 == (n >> b) % 2) by (bit_vector);
        }
        ((self.data >> bit) & 1) == 1
    }

    /// Modular sum of two bytes.
    pub fn add_byte(&self, byte: Byte) -> (r: Byte)
        ensures
            r@ == (self@ + byte@) % 256,
    {
        proof {
            lemma_low_byte((self.data + byte.data) as u16);
        }
        Byte::from(((self.data as u16 + byte.data as u16) & 0xFF) as u8)
    }

    /// Modular sum of the byte and a raw value.
    pub fn add(&self, amount: u8) -> (r: Byte)
        ensures
            r@ == (self@ + amount) % 256,
    {
        self.add_byte(Byte::from(amount))
    }

    /// Subtracts `amount` from the byte; the caller keeps it in range.
    pub fn decrease(&mut self, amount: u8)
        requires
            amount <= old(self)@,
        ensures
            final(self)@ == old(self)@ - amount,
    {
        self.data = self.data - amount;
    }
}

/// One 16-bit machine word.
#[derive(Debug, Eq, PartialEq, Copy, Clone, Structural)]
pub struct TwoBytes {
    data: u16,
}

impl View for TwoBytes {
    type V = u16;

    closed spec fn view(&self) -> u16 {
        self.data
    }
}

impl TwoBytes {
    /// The zero word.
    pub fn new() -> (r: Self)
        ensures
            r@ == 0,
    {
        Self { data: 0 }
    }

    /// Wraps a raw word.
    pub fn from(d: u16) -> (r: Self)
        ensures
            r@ == d,
    {
        Self { data: d }
    }

    /// The word as an index.
    pub fn as_usize(&self) -> (r: usize)
        ensures
            r == self@ as usize,
    {
        self.data as usize
    }

    /// The low byte of the word.
    pub fn as_byte(&self) -> (r: Byte)
        ensures
            r@ == self@ % 256,
    {
        proof {
            lemma_low_byte(self.data);
        }
        Byte::from((self.data & 0xFF) as u8)
    }

    /// Bitwise and with a mask word.
    pub fn mask_bits(&self, mask: &Self) -> (r: Self)
        ensures
            r@ == self@ & mask@,
    {
        Self::from(self.data & mask.data)
    }

    /// Shifts left by `amount` bits, discarding the bits shifted out of the
    /// word.
    pub fn shift_left(&self, amount: u8) -> (r: Self)
        requires
            amount < 16,
        ensures
            r@ as nat == ((self@ as nat) * pow2(amount as nat)) % 0x1_0000,
    {
        proof {
            vstd::bits::lemma_u32_pow2_no_overflow(amount as nat);
            vstd::arithmetic::power2::lemma_pow2_strictly_increases(amount as nat, 16);
            vstd::arithmetic::power2::lemma2_to64();
            assert((self.data as nat) * pow2(amount as nat) < 0x1_0000 * 0x1_0000)
                by (nonlinear_arith)
                requires
                    (self.data as nat) < 0x1_0000,
                    pow2(amount as nat) <= 0x1_0000,
            ;
            vstd::bits::lemma_u32_shl_is_mul(self.data as u32, amount as u32);
            vstd::bits::lemma_u32_low_bits_mask_is_mod((self.data as u32) << (amount as u32), 16);
            vstd::bits::lemma_low_bits_mask_values();
        }
        Self { data: (((self.data as u32) << (amount as u32)) & 0xFFFF) as u16 }
    }

    /// Shifts right by `amount` bits.
    pub fn shift_right(&self, amount: u8) -> (r: Self)
        requires
            amount < 16,
        ensures
            r@ as nat == (self@ as nat) / pow2(amount as nat),
    {
        proof {
            vstd::bits::lemma_u16_shr_is_div(self.data, amount as u16);
        }
        Self { data: self.data >> (amount as u16) }
    }

    /// Whether bit `bit` of the word is set.
    pub fn get_bit(&self, bit: u8) -> (r: bool)
        requires
            bit < 16,
        ensures
            r == (((self@ as nat) / pow2(bit as nat)) % 2 == 1),
    {
        proof {
            vstd::bits::lemma_u16_shr_is_div(self.data, bit as u16);
            let n = self.data;
            let b = bit as u16;
            assert((n >> b) & 1 == (n >> b) % 2) by (bit_vector);
        }
        ((self.data >> (bit as u16)) & 1) == 1
    }

    /// Adds `amount` in place; the caller keeps the sum in range.
    pub fn increase(&mut self, amount: u16)
        requires
            old(self)@ + amount <= u16::MAX,
        ensures
            final(self)@ == old(self)@ + amount,
    {
        self.data = self.data + amount;
    }

    /// Adds a byte in place; the caller keeps the sum in range.
    pub fn increase_with_byte(&mut self, byte: Byte)
        requires
            old(self)@ + byte@ <= u16::MAX,
        ensures
            final(self)@ == old(self)@ + byte@,
    {
        self.data = self.data + byte.as_usize() as u16;
    }

    /// The sum of the word and a byte.
    pub fn add_byte(&self, byte: Byte) -> (r: Self)
        requires
            self@ + byte@ <= u16::MAX,
        ensures
            r@ == self@ + byte@,
    {
        Self::from(self.data + byte.as_usize() as u16)
    }

    /// The sum of the word and a raw value.
    pub fn add(&self, amount: u16) -> (r: Self)
        requires
            self@ + amount <= u16::MAX,
        ensures
            r@ == self@ + amount,
    {
        Self::from(self.data + amount)
    }
}

/// A byte-addressed memory of a fixed size, zero on construction.
#[derive(Debug)]
pub struct Memory {
    data: Vec<Byte>,
}

impl View for Memory {
    type V = Seq<u8>;

    closed spec fn view(&self) -> Seq<u8> {
        Seq::new(self.data@.len(), |i: int| self.data@[i]@)
    }
}

impl Memory {
    /// A zeroed memory of `size` bytes.
    pub fn new(size: u64) -> (r: Self)
        requires
            size <= usize::MAX,
        ensures
            r@.len() == size,
            forall|i: int| 0 <= i < size ==> r@[i] == 0,
    {
        let mut data: Vec<Byte> = Vec::new();
        let mut n: u64 = 0;
        while n < size
            invariant
                n <= size,
                data@.len() == n,
                forall|i: int| 0 <= i < n ==> data@[i]@ == 0,
            decreases size - n,
        {
            data.push(Byte::new());
            n = n + 1;
        }
        Self { data }
    }

    /// The number of bytes held.
    pub fn len(&self) -> (r: usize)
        ensures
            r == self@.len(),
    {
        self.data.len()
    }

    /// The byte at address `i`.
    pub fn get(&self, i: usize) -> (r: Byte)
        requires
            i < self@.len(),
        ensures
            r@ == self@[i as int],
    {
        self.data[i]
    }

    /// Stores a byte at address `i`.
    pub fn set(&mut self, i: usize, b: Byte)
        requires
            i < old(self)@.len(),
        ensures
            final(self)@ == old(self)@.update(i as int, b@),
    {
        self.data.set(i, b);
        proof {
            assert(final(self)@ =~= old(self)@.update(i as int, b@));
        }
    }

    /// The big-endian word formed by the bytes at `start` and `start + 1`.
    pub fn get_two_bytes(&self, start: TwoBytes) -> (r: TwoBytes)
        requires
            start@ + 1 < self@.len(),
        ensures
            r@ == self@[start@ as int] * 256 + self@[start@ as int + 1],
    {
        let hi = self.data[start.as_usize()];
        let lo = self.data[start.as_usize() + 1];
        proof {
            vstd::arithmetic::power2::lemma2_to64();
            vstd::bits::lemma_u16_shl_is_mul(hi@ as u16, 8);
        }
        TwoBytes::from(((hi.as_usize() as u16) << 8u16) + lo.as_usize() as u16)
    }
}

/// The file of general-purpose byte registers; register `0xF` doubles as the
/// arithmetic flags register.
pub struct DataRegisters {
    data: Vec<Byte>,
}

impl View for DataRegisters {
    type V = Seq<u8>;

    closed spec fn view(&self) -> Seq<u8> {
        Seq::new(self.data@.len(), |i: int| self.data@[i]@)
    }
}

/// The register index named by bits 8 to 11 of an instruction word.
pub open spec fn reg_x_of(v: u16) -> int {
    (v as int / 256) % 16
}

/// The register index named by bits 4 to 7 of an instruction word.
pub open spec fn reg_y_of(v: u16) -> int {
    (v as int / 16) % 16
}

impl DataRegisters {
    /// A file of `size` zeroed registers.
    pub fn new(size: u64) -> (r: Self)
        requires
            size <= usize::MAX,
        ensures
            r@.len() == size,
            forall|i: int| 0 <= i < size ==> r@[i] == 0,
    {
        let mut data: Vec<Byte> = Vec::new();
        let mut n: u64 = 0;
        while n < size
            invariant
                n <= size,
                data@.len() == n,
                forall|i: int| 0 <= i < n ==> data@[i]@ == 0,
            decreases size - n,
        {
            data.push(Byte::new());
            n = n + 1;
        }
        Self { data }
    }

    /// The number of registers held.
    pub fn len(&self) -> (r: usize)
        ensures
            r == self@.len(),
    {
        self.data.len()
    }

    /// The register at index `i`.
    pub fn get(&self, i: usize) -> (r: Byte)
        requires
            i < self@.len(),
        ensures
            r@ == self@[i as int],
    {
        self.data[i]
    }

    /// Stores a register at index `i`.
    pub fn set(&mut self, i: usize, b: Byte)
        requires
            i < old(self)@.len(),
        ensures
            final(self)@ == old(self)@.update(i as int, b@),
    {
        self.data.set(i, b);
        proof {
            assert(final(self)@ =~= old(self)@.update(i as int, b@));
        }
    }

    /// The flags register.
    pub fn get_f(&self) -> (r: Byte)
        requires
            self@.len() == 16,
        ensures
            r@ == self@[0xF],
    {
        self.data[0xF]
    }

    /// Stores 1 or 0 into the flags register.
    pub fn set_f(&mut self, v: bool)
        requires
            old(self)@.len() == 16,
        ensures
            final(self)@ == old(self)@.update(0xF, if v {
                1u8
            } else {
                0u8
            }),
    {
        if v {
            self.set(0xF, Byte::from(1));
        } else {
            self.set(0xF, Byte::from(0));
        }
    }

    /// Register zero.
    pub fn get_0(&self) -> (r: Byte)
        requires
            self@.len() >= 1,
        ensures
            r@ == self@[0],
    {
        self.data[0x0]
    }

    /// The register named by the `X` field of the instruction word `v`.
    pub fn get_x(&self, v: TwoBytes) -> (r: Byte)
        requires
            self@.len() == 16,
        ensures
            r@ == self@[reg_x_of(v@)],
    {
        proof {
            vstd::arithmetic::power2::lemma2_to64();
        }
        let i = v.shift_right(8).mask_bits(&TwoBytes::from(0xF));
        proof {
            let s = v@ >> 8u16;
            assert(s & 0xF == s % 16) by (bit_vector);
            vstd::bits::lemma_u16_shr_is_div(v@, 8);
        }
        self.data[i.as_usize()]
    }

    /// Stores into the register named by the `X` field of `v`.
    pub fn set_x(&mut self, v: TwoBytes, value: Byte)
        requires
            old(self)@.len() == 16,
        ensures
            final(self)@ == old(self)@.update(reg_x_of(v@), value@),
    {
        proof {
            vstd::arithmetic::power2::lemma2_to64();
        }
        let i = v.shift_right(8).mask_bits(&TwoBytes::from(0xF));
        proof {
            let s = v@ >> 8u16;
            assert(s & 0xF == s % 16) by (bit_vector);
            vstd::bits::lemma_u16_shr_is_div(v@, 8);
        }
        self.set(i.as_usize(), value);
    }

    /// The register named by the `Y` field of the instruction word `v`.
    pub fn get_y(&self, v: TwoBytes) -> (r: Byte)
        requires
            self@.len() == 16,
        ensures
            r@ == self@[reg_y_of(v@)],
    {
        proof {
            vstd::arithmetic::power2::lemma2_to64();
        }
        let i = v.shift_right(4).mask_bits(&TwoBytes::from(0xF));
        proof {
            let s = v@ >> 4u16;
            assert(s & 0xF == s % 16) by (bit_vector);
            vstd::bits::lemma_u16_shr_is_div(v@, 4);
        }
        self.data[i.as_usize()]
    }

    /// Stores into the register named by the `Y` field of `v`.
    pub fn set_y(&mut self, v: TwoBytes, value: Byte)
        requires
            old(self)@.len() == 16,
        ensures
            final(self)@ == old(self)@.update(reg_y_of(v@), value@),
    {
        proof {
            vstd::arithmetic::power2::lemma2_to64();
        }
        let i = v.shift_right(4).mask_bits(&TwoBytes::from(0xF));
        proof {
            let s = v@ >> 4u16;
            assert(s & 0xF == s % 16) by (bit_vector);
            vstd::bits::lemma_u16_shr_is_div(v@, 4);
        }
        self.set(i.as_usize(), value);
    }
}

} // verus!
