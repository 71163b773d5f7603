//! An N-bit unsigned register value (`N <= 31`) stored in a `u32` and re-masked
//! by every mutating operation. Arithmetic reports overflow, borrow and
//! shifted-out bits the way a CPU flags register expects them.

use vstd::prelude::*;
use vstd::arithmetic::power2::pow2;
use vstd::arithmetic::div_mod::{lemma_small_mod, lemma_mod_multiples_vanish};
use vstd::bits::{lemma_u32_pow2_no_overflow, lemma_u32_low_bits_mask_is_mod};
use vstd::arithmetic::power2::lemma_pow2_strictly_increases;

verus! {

/// The width a register of nominal width `n` really has: widths above 31 are
/// clamped to 31, mirroring the 32-bit backing store.
pub open spec fn eff_width(n: u8) -> nat {
    if n <= 31 {
        n as nat
    } else {
        31
    }
}

/// The modulus of an `n`-bit register: `2^eff_width(n)`.
pub open spec fn width_mod(n: u8) -> nat {
    pow2(eff_width(n))
}

/// Masked modular addition of `a` and `b` in an `n`-bit register.
pub open spec fn inc_spec(n: u8, a: int, b: int) -> int {
    (a + b) % (width_mod(n) as int)
}

/// Masked modular subtraction `a - b` in an `n`-bit register, written without
/// negative intermediate values, exactly as the hardware computes it.
pub open spec fn dec_spec(n: u8, a: int, b: int) -> int {
    (a + width_mod(n) - b % (width_mod(n) as int)) % (width_mod(n) as int)
}

proof fn lemma_width_mod_bounds(n: u8)
    ensures
        0 < width_mod(n) <= 0x8000_0000,
{
    lemma_u32_pow2_no_overflow(eff_width(n));
    if eff_width(n) < 31 {
        lemma_pow2_strictly_increases(eff_width(n), 31);
    }
    vstd::arithmetic::power2::lemma2_to64();
}

/// A wider register has the larger modulus.
pub proof fn lemma_width_mod_increases(a: u8, b: u8)
    requires
        a <= b,
    ensures
        width_mod(a) <= width_mod(b),
{
    if eff_width(a) < eff_width(b) {
        vstd::arithmetic::power2::lemma_pow2_strictly_increases(eff_width(a), eff_width(b));
    }
}

/// Masking with the low `eff_width(n)` bits is reduction modulo `width_mod(n)`.
proof fn lemma_mask_is_mod(x: u32, n: u8)
    ensures
        0 < width_mod(n) <= 0x8000_0000,
        x & ((width_mod(n) - 1) as u32) == x % (width_mod(n) as u32),
{
    lemma_width_mod_bounds(n);
    lemma_u32_low_bits_mask_is_mod(x, eff_width(n));
}

/// An unsigned integer masked to `N` bits. The invariant keeps the stored
/// value strictly below `2^eff_width(N)`; every mutating operation re-masks.
#[derive(Debug, Clone, Copy, PartialEq, Eq)]
pub struct FixedBitNumber<const N: u8> {
    number: u32,
}

impl<const N: u8> View for FixedBitNumber<N> {
    type V = u32;

    closed spec fn view(&self) -> u32 {
        self.number
    }
}

impl<const N: u8> FixedBitNumber<N> {
    /// The stored value is always strictly below the register's modulus.
    #[verifier::type_invariant]
    pub open spec fn inv(self) -> bool {
        (self@ as nat) < width_mod(N)
    }

    /// The zero register.
    pub fn new() -> (r: Self)
        ensures
            r@ == 0,
    {
        proof {
            lemma_width_mod_bounds(N);
        }
        Self::from(0)
    }

    /// Builds a register from a `u32`; a value that exceeds the width is
    /// silently truncated (load semantics, not an error).
    pub fn from(number: u32) -> (r: Self)
        ensures
            r@ == number as int % width_mod(N) as int,
            number < width_mod(N) ==> r@ == number,
    {
        proof {
            lemma_mask_is_mod(number, N);
            if (number as nat) < width_mod(N) {
                lemma_small_mod(number as nat, width_mod(N));
            }
        }
        Self { number: number & Self::get_max() }
    }

    /// Builds a register from a byte, truncating like [`Self::from`].
    pub fn from_u8(number: u8) -> (r: Self)
        ensures
            r@ == number as int % width_mod(N) as int,
            number < width_mod(N) ==> r@ == number,
    {
        Self::from(number as u32)
    }

    /// The nominal bit width of this register.
    pub fn len(&self) -> (r: u8)
        ensures
            r == N,
    {
        N
    }

    /// Concatenates the low `N - C` bits of `n1` above the `C`-bit value of
    /// `n2`, truncating the result to `N` bits.
    pub fn from_combined<const B: u8, const C: u8>(
        n1: &FixedBitNumber<B>,
        n2: &FixedBitNumber<C>,
    ) -> (r: Self)
        requires
            N <= 31,
            C <= N,
        ensures
            r@ == ((n1@ as int % pow2((N - C) as nat) as int) * pow2(C as nat) as int
                + n2@ as int % width_mod(N) as int) % width_mod(N) as int,
    {
        proof {
            use_type_invariant(*n1);
            lemma_mask_is_mod(n1.number, (N - C) as u8);
            lemma_mask_is_mod(n2.number, N);
            lemma_width_mod_bounds(N);
            vstd::arithmetic::power2::lemma_pow2_adds((N - C) as nat, C as nat);
            vstd::arithmetic::power2::lemma_pow2_pos(C as nat);
            let hi = (n1.number & ((width_mod((N - C) as u8) - 1) as u32)) as nat;
            let ph = pow2((N - C) as nat);
            let pc = pow2(C as nat);
            vstd::arithmetic::div_mod::lemma_mod_bound(
                n1.number as int,
                width_mod((N - C) as u8) as int,
            );
            assert(hi < ph);
            assert(hi * pc < ph * pc) by (nonlinear_arith)
                requires
                    hi < ph,
                    pc > 0,
            ;
            vstd::bits::lemma_u32_shl_is_mul(
                (n1.number & ((width_mod((N - C) as u8) - 1) as u32)),
                C as u32,
            );
        }
        Self::from(
            ((n1.number & Self::get_max_by_length((N - C) as u8)) << (C as u32)) + (n2.number
                & Self::get_max()),
        )
    }

    /// The all-ones value of this register's width.
    pub fn get_max() -> (r: u32)
        ensures
            r as nat == width_mod(N) - 1,
    {
        Self::get_max_by_length(N)
    }

    /// The all-ones value of a register of width `length` (clamped to 31).
    pub fn get_max_by_length(length: u8) -> (r: u32)
        ensures
            r as nat == width_mod(length) - 1,
    {
        let l: u32 = if length < 31 {
            length as u32
        } else {
            31
        };
        proof {
            lemma_u32_pow2_no_overflow(l as nat);
            vstd::bits::lemma_u32_shl_is_mul(1u32, l);
        }
        (1u32 << l) - 1
    }

    /// Extracts the `length`-bit field that begins at bit `start`, as a value
    /// of this register's width.
    pub fn get_bitrange(&self, start: u8, length: u8) -> (r: Self)
        requires
            start <= 31,
        ensures
            r@ as nat == ((self@ as nat) / pow2(start as nat)) % pow2(
                if length <= 31 - start {
                    length as nat
                } else {
                    (31 - start) as nat
                },
            ),
    {
        let len: u8 = if length < 31 - start {
            length
        } else {
            31 - start
        };
        let shifted: u32 = self.number >> (start as u32);
        proof {
            vstd::bits::lemma_u32_shr_is_div(self.number, start as u32);
            vstd::arithmetic::power2::lemma_pow2_pos(start as nat);
            lemma_mask_is_mod(shifted, len);
            use_type_invariant(*self);
            lemma_width_mod_bounds(N);
            assert(((shifted & ((width_mod(len) - 1) as u32)) as nat) < width_mod(N)) by {
                assert((shifted as nat) <= (self.number as nat)) by (nonlinear_arith)
                    requires
                        shifted as nat == (self.number as nat) / pow2(start as nat),
                        pow2(start as nat) >= 1,
                ;
                vstd::arithmetic::div_mod::lemma_mod_decreases(
                    shifted as nat,
                    width_mod(len),
                );
            }
        }
        Self { number: shifted & Self::get_max_by_length(len) }
    }

    /// The low byte of the register.
    pub fn into_u8(self) -> (r: u8)
        ensures
            r as u32 == self@ % 256,
    {
        proof {
            lemma_mask_is_mod(self.number, 8);
            vstd::arithmetic::power2::lemma2_to64();
        }
        (self.number & 0xFF) as u8
    }

    /// The raw value of the register.
    pub fn into_u32(self) -> (r: u32)
        ensures
            r == self@,
    {
        self.number
    }

    /// The raw value of the register, as an index.
    pub fn into_usize(self) -> (r: usize)
        ensures
            r == self@ as usize,
    {
        self.number as usize
    }

    /// Whether bit `bit` of the register is set; bits outside the width read
    /// as clear.
    pub fn get_bit(&self, bit: u8) -> (r: bool)
        requires
            N <= 31,
        ensures
            r == (bit <= N && ((self@ as nat) / pow2(bit as nat)) % 2 == 1),
    {
        if bit <= N {
            proof {
                vstd::bits::lemma_u32_shr_is_div(self.number, bit as u32);
                let n = self.number;
                let b = bit as u32;
                assert((n >> b) & 1 == (n >> b) % 2) by (bit_vector);
            }
            ((self.number >> (bit as u32)) & 1) == 1
        } else {
            false
        }
    }

    /// Adds another register's value; returns whether the unmasked sum
    /// overflowed this register's width.
    pub fn increase<const B: u8>(&mut self, other: &FixedBitNumber<B>) -> (r: bool)
        requires
            old(self)@ + other@ <= u32::MAX,
        ensures
            final(self)@ == inc_spec(N, old(self)@ as int, other@ as int),
            r == (old(self)@ + other@ >= width_mod(N)),
    {
        self.increase_by_u32(other.number)
    }

    /// Adds a raw value; returns whether the unmasked sum overflowed.
    pub fn increase_by_u32(&mut self, other: u32) -> (r: bool)
        requires
            old(self)@ + other <= u32::MAX,
        ensures
            final(self)@ == inc_spec(N, old(self)@ as int, other as int),
            r == (old(self)@ + other >= width_mod(N)),
    {
        let mut overflowed = false;
        let new = self.number + other;
        if new > Self::get_max() {
            overflowed = true;
        }
        self.set_by_u32(new);
        overflowed
    }

    /// The sum of this register and a raw value, as a fresh register.
    pub fn add_by_u32(&self, value: u32) -> (r: Self)
        requires
            self@ + value <= u32::MAX,
        ensures
            r@ == inc_spec(N, self@ as int, value as int),
    {
        Self::from(self.number + value)
    }

    /// The sum of this register and a byte, as a fresh register.
    pub fn add_by_u8(&self, value: u8) -> (r: Self)
        requires
            self@ + value <= u32::MAX,
        ensures
            r@ == inc_spec(N, self@ as int, value as int),
    {
        Self::from(self.number + value as u32)
    }

    /// The sum of this register and an index, as a fresh register.
    pub fn add_by_usize(&self, value: usize) -> (r: Self)
        requires
            value <= u32::MAX,
            self@ + value <= u32::MAX,
        ensures
            r@ == inc_spec(N, self@ as int, value as int),
    {
        self.add_by_u32(value as u32)
    }

    /// The sum of two registers, as a fresh register of this width.
    pub fn add<const B: u8>(&self, other: &FixedBitNumber<B>) -> (r: Self)
        requires
            self@ + other@ <= u32::MAX,
        ensures
            r@ == inc_spec(N, self@ as int, other@ as int),
    {
        self.add_by_u32(other.number)
    }

    /// Stores a raw value, truncated to the register's width.
    pub fn set_by_u32(&mut self, value: u32)
        ensures
            final(self)@ == value as int % width_mod(N) as int,
            value < width_mod(N) ==> final(self)@ == value,
    {
        proof {
            lemma_mask_is_mod(value, N);
            if (value as nat) < width_mod(N) {
                lemma_small_mod(value as nat, width_mod(N));
            }
        }
        self.number = value & Self::get_max();
    }

    /// Stores another register's value, truncated to this width.
    pub fn set<const B: u8>(&mut self, other: &FixedBitNumber<B>)
        ensures
            final(self)@ == other@ as int % width_mod(N) as int,
            other@ < width_mod(N) ==> final(self)@ == other@,
            B <= N ==> final(self)@ == other@,
    {
        proof {
            lemma_mask_is_mod(other.number, N);
            use_type_invariant(*other);
            if B <= N {
                lemma_width_mod_increases(B, N);
            }
            if (other.number as nat) < width_mod(N) {
                lemma_small_mod(other.number as nat, width_mod(N));
            }
        }
        self.number = other.number & Self::get_max();
    }

    /// Stores another register's value, consuming it.
    pub fn set_take_ownership<const B: u8>(&mut self, other: FixedBitNumber<B>)
        ensures
            final(self)@ == other@ as int % width_mod(N) as int,
            other@ < width_mod(N) ==> final(self)@ == other@,
            B <= N ==> final(self)@ == other@,
    {
        self.set(&other);
    }

    /// Stores 1 for `true` and 0 for `false`.
    pub fn set_bool(&mut self, v: bool)
        ensures
            final(self)@ == (if v {
                1int
            } else {
                0int
            }) % width_mod(N) as int,
    {
        if v {
            self.set_by_u32(1);
        } else {
            self.set_by_u32(0);
        }
    }

    /// Subtracts another register's value; returns `true` when there was no
    /// borrow, the convention the flags register expects.
    pub fn decrease<const B: u8>(&mut self, other: &FixedBitNumber<B>) -> (r: bool)
        ensures
            final(self)@ == dec_spec(N, old(self)@ as int, other@ as int),
            r == (other@ <= old(self)@),
    {
        self.decrease_by_u32(other.number)
    }

    /// Subtracts a raw value; returns `true` when there was no borrow.
    pub fn decrease_by_u32(&mut self, other: u32) -> (r: bool)
        ensures
            final(self)@ == dec_spec(N, old(self)@ as int, other as int),
            r == (other <= old(self)@),
    {
        proof {
            use_type_invariant(*self);
            lemma_mask_is_mod(other, N);
        }
        let borrow = other > self.number;
        self.set_by_u32(self.number + Self::get_max() - (other & Self::get_max()) + 1);
        proof {
            lemma_mod_multiples_vanish(
                1,
                old(self)@ - (other as int % width_mod(N) as int),
                width_mod(N) as int,
            );
        }
        !borrow
    }

    /// Replaces this register with `other - self`; returns `true` when there
    /// was no borrow.
    pub fn reversed_decrease<const B: u8>(&mut self, other: &FixedBitNumber<B>) -> (r: bool)
        ensures
            final(self)@ == dec_spec(N, other@ as int % width_mod(N) as int, old(self)@ as int),
            r == (old(self)@ <= other@),
    {
        proof {
            use_type_invariant(*self);
            use_type_invariant(*other);
            lemma_mask_is_mod(other.number, N);
        }
        let borrow = self.number > other.number;
        let masked_other = other.number & Self::get_max();
        let ghost pre = self.number;
        self.set_by_u32(masked_other + Self::get_max() - self.number + 1);
        proof {
            lemma_small_mod(pre as nat, width_mod(N));
            lemma_mod_multiples_vanish(
                1,
                (masked_other as int) - pre,
                width_mod(N) as int,
            );
        }
        !borrow
    }

    /// Shifts right by one bit; returns the bit shifted out.
    pub fn shift_right(&mut self) -> (r: bool)
        ensures
            final(self)@ == old(self)@ / 2,
            r == (old(self)@ % 2 == 1),
    {
        proof {
            use_type_invariant(*self);
            vstd::bits::lemma_u32_shr_is_div(self.number, 1);
            let n = self.number;
            assert(n & 1 == n % 2) by (bit_vector);
            vstd::arithmetic::power2::lemma2_to64();
        }
        let shifted_one = (self.number & 1) == 1;
        let next = self.number >> 1u32;
        proof {
            lemma_width_mod_bounds(N);
        }
        self.number = next;
        shifted_one
    }

    /// Shifts left by one bit, truncating to the width; returns the bit
    /// shifted out of the register.
    pub fn shift_left(&mut self) -> (r: bool)
        requires
            1 <= N <= 31,
        ensures
            final(self)@ == (old(self)@ * 2) % width_mod(N) as int,
            r == (old(self)@ >= pow2((N - 1) as nat)),
    {
        proof {
            use_type_invariant(*self);
        }
        let remaining = self.number & (Self::get_max_by_length((N - 1) as u8));
        let shifted_one = remaining != self.number;
        proof {
            lemma_mask_is_mod(self.number, (N - 1) as u8);
            lemma_width_mod_bounds((N - 1) as u8);
            lemma_width_mod_bounds(N);
            vstd::arithmetic::power2::lemma_pow2_adds((N - 1) as nat, 1);
            vstd::arithmetic::power2::lemma2_to64();
            // remaining == self.number % 2^(N-1); it differs from the stored
            // value exactly when the top bit is set
            vstd::arithmetic::div_mod::lemma_fundamental_div_mod(
                self.number as int,
                pow2((N - 1) as nat) as int,
            );
            assert(((self.number as nat) / pow2((N - 1) as nat)) < 2) by (nonlinear_arith)
                requires
                    (self.number as nat) < pow2((N - 1) as nat) * 2,
                    pow2((N - 1) as nat) > 0,
            ;
        }
        let doubled = remaining * 2;
        self.set_by_u32(doubled);
        proof {
            vstd::arithmetic::div_mod::lemma_mod_sub_multiples_vanish(
                old(self)@ * 2,
                width_mod(N) as int,
            );
        }
        shifted_one
    }

    /// Bitwise and with another register, truncated to this width.
    pub fn and<const B: u8>(&mut self, other: &FixedBitNumber<B>)
        ensures
            final(self)@ == (old(self)@ & other@) as int % width_mod(N) as int,
    {
        self.set_by_u32(self.number & other.number)
    }

    /// Bitwise xor with another register, truncated to this width.
    pub fn xor<const B: u8>(&mut self, other: &FixedBitNumber<B>)
        ensures
            final(self)@ == (old(self)@ ^ other@) as int % width_mod(N) as int,
    {
        self.set_by_u32(self.number ^ other.number)
    }

    /// Bitwise or with another register, truncated to this width.
    pub fn or<const B: u8>(&mut self, other: &FixedBitNumber<B>)
        ensures
            final(self)@ == (old(self)@ | other@) as int % width_mod(N) as int,
    {
        self.set_by_u32(self.number | other.number)
    }

    /// Runs `f` exactly when the two registers hold equal values.
    pub fn execute_if_equals<const B: u8, F: FnOnce()>(&self, other: &FixedBitNumber<B>, f: F)
        requires
            self@ == other@ ==> f.requires(()),
    {
        if self.number == other.number {
            f();
        }
    }

    /// Runs `f` exactly when the two registers hold different values.
    pub fn execute_if_not_equals<const B: u8, F: FnOnce()>(&self, other: &FixedBitNumber<B>, f: F)
        requires
            self@ != other@ ==> f.requires(()),
    {
        if self.number != other.number {
            f();
        }
    }
}

/// Rounding `decrease` and `increase` through the same register restores the
/// original value whenever no borrow occurred: for `b <= a` in range,
/// subtracting `b` and adding `b` again yields `a`, and the borrow flag of
/// the subtraction reports "no borrow".
pub proof fn lemma_decrease_increase_round_trip(n: u8, a: u32, b: u32)
    requires
        (a as nat) < width_mod(n),
        b <= a,
    ensures
        inc_spec(n, dec_spec(n, a as int, b as int), b as int) == a,
{
    lemma_width_mod_bounds(n);
    let m = width_mod(n) as int;
    lemma_small_mod(b as nat, width_mod(n));
    lemma_mod_multiples_vanish(1, a - b, m);
    lemma_small_mod((a - b) as nat, width_mod(n));
    lemma_small_mod(a as nat, width_mod(n));
}

/// Discards a value, making a statement out of an expression.
pub trait IntoEmpty: Sized {
    /// Drops `self`.
    fn into_empty(self);
}

impl<T> IntoEmpty for T {
    fn into_empty(self) {
    }
}

} // verus!
