use bit_field::BitField;
use vstd::prelude::*;
use vstd::std_specs::convert::FromSpecImpl;

verus! {

/// The word with exactly the bits `lo ..= hi` set.
pub open spec fn range_mask(lo: usize, hi: usize) -> u32 {
    ((u32::MAX << ((31 - hi) as u32)) >> ((31 - hi) as u32) >> (lo as u32)) << (lo as u32)
}

/// `BitField::get_bit` of `bit_field` on a `u32`: whether the bit at index
/// `bit`, counted from the least significant one, is set. The crate panics
/// on an index past the word, which `requires` leaves out.
#[verifier::external_body]
fn word_get_bit(word: u32, bit: usize) -> (r: bool)
    requires
        bit < 32,
    ensures
        r == ((word & (1u32 << (bit as u32))) != 0),
{
    word.get_bit(bit)
}

/// `BitField::get_bits` of `bit_field` on a `u32` with the range
/// `lo ..= hi`: the bits of that range, moved down to bit 0. The crate
/// panics on a range past the word, which `requires` leaves out.
#[verifier::external_body]
fn word_get_bits(word: u32, lo: usize, hi: usize) -> (r: u32)
    requires
        lo <= hi < 32,
    ensures
        r == ((word << ((31 - hi) as u32)) >> ((31 - hi) as u32)) >> (lo as u32),
{
    word.get_bits(lo..=hi)
}

/// `BitField::set_bit` of `bit_field` on a `u32`: the bit at index `bit` is
/// set or cleared and the others stay. The crate panics on an index past
/// the word, which `requires` leaves out.
#[verifier::external_body]
fn word_set_bit(word: &mut u32, bit: usize, value: bool)
    requires
        bit < 32,
    ensures
        *final(word) == if value {
            *old(word) | (1u32 << (bit as u32))
        } else {
            *old(word) & !(1u32 << (bit as u32))
        },
{
    word.set_bit(bit, value);
}

/// `BitField::set_bits` of `bit_field` on a `u32` with the range
/// `lo ..= hi`: the bits of that range are replaced by the low bits of
/// `value` and the others stay. The crate panics on a range past the word
/// and on a value with bits above the width of the range, which `requires`
/// leaves out.
#[verifier::external_body]
fn word_set_bits(word: &mut u32, lo: usize, hi: usize, value: u32)
    requires
        lo <= hi < 32,
        (value << ((31 - (hi - lo)) as u32)) >> ((31 - (hi - lo)) as u32) == value,
    ensures
        *final(word) == (*old(word) & !range_mask(lo, hi)) | (value << (lo as u32)),
{
    word.set_bits(lo..=hi, value);
}

/// The sleep state that the power management control register asks for.
#[derive(Clone, Copy, Debug, PartialEq, Eq)]
pub enum SleepType {
    /// Fully working.
    S0,
    /// Suspend to memory.
    S3,
    /// Suspend to disk.
    S4,
    /// Soft off.
    S5,
}

impl SleepType {
    /// The three bits that stand for the state in the register.
    pub open spec fn spec_bits(self) -> usize {
        match self {
            SleepType::S0 => 0b000,
            SleepType::S3 => 0b101,
            SleepType::S4 => 0b110,
            SleepType::S5 => 0b111,
        }
    }

    /// The state that `number` stands for; the number itself where it
    /// stands for none.
    pub fn try_from_primitive(number: usize) -> (r: Result<SleepType, usize>)
        ensures
            match r {
                Ok(t) => t.spec_bits() == number,
                Err(n) => n == number && forall|t: SleepType| t.spec_bits() != number,
            },
    {
        if number == 0b000 {
            Ok(SleepType::S0)
        } else if number == 0b101 {
            Ok(SleepType::S3)
        } else if number == 0b110 {
            Ok(SleepType::S4)
        } else if number == 0b111 {
            Ok(SleepType::S5)
        } else {
            Err(number)
        }
    }
}

impl From<SleepType> for usize {
    fn from(t: SleepType) -> (r: usize) {
        match t {
            SleepType::S0 => 0b000,
            SleepType::S3 => 0b101,
            SleepType::S4 => 0b110,
            SleepType::S5 => 0b111,
        }
    }
}

impl FromSpecImpl<SleepType> for usize {
    open spec fn obeys_from_spec() -> bool {
        true
    }

    open spec fn from_spec(t: SleepType) -> usize {
        t.spec_bits()
    }
}

/// The power management 1 control register.
#[derive(Clone, Copy, Debug)]
pub struct Pm1Cnt {
    pub bits: u32,
}

impl Pm1Cnt {
    /// Whether the sleep enable bit, bit 13, is set.
    pub fn get_slp_en(&self) -> (r: bool)
        ensures
            r == ((self.bits & 0x2000) != 0),
    {
        proof {
            assert(1u32 << 13u32 == 0x2000u32) by (bit_vector);
        }
        word_get_bit(self.bits, 13)
    }

    /// Sets or clears the sleep enable bit, bit 13. Writing 1 puts the
    /// machine into the state that the sleep type bits name.
    pub fn set_slp_en(&mut self, value: bool) -> (r: &mut Self)
        ensures
            r.bits == if value {
                old(self).bits | 0x2000
            } else {
                old(self).bits & !0x2000u32
            },
            *final(self) == *final(r),
    {
        proof {
            assert(1u32 << 13u32 == 0x2000u32) by (bit_vector);
        }
        word_set_bit(&mut self.bits, 13, value);
        self
    }

    /// The sleep type, bits 10 to 12.
    pub fn get_slp_typ(&self) -> (r: usize)
        ensures
            r == (self.bits >> 10) & 7,
    {
        let word = self.bits;
        let field = word_get_bits(word, 10, 12);
        proof {
            assert(((word << 19u32) >> 19u32) >> 10u32 == (word >> 10) & 7) by (bit_vector);
            assert((word >> 10) & 7 <= 7) by (bit_vector);
        }
        field as usize
    }

    /// Sets the sleep type, bits 10 to 12, to `value`, which fits in three
    /// bits.
    pub fn set_slp_typ(&mut self, value: usize) -> (r: &mut Self)
        requires
            value < 8,
        ensures
            r.bits == (old(self).bits & !0x1c00u32) | ((value as u32) << 10),
            *final(self) == *final(r),
    {
        let field = value as u32;
        proof {
            assert(field < 8 ==> (field << 29u32) >> 29u32 == field) by (bit_vector);
            assert(((u32::MAX << 19u32) >> 19u32 >> 10u32) << 10u32 == 0x1c00u32) by (bit_vector);
        }
        word_set_bits(&mut self.bits, 10, 12, field);
        self
    }

    /// Asks for the soft-off state: the sleep type becomes S5 and the sleep
    /// enable bit is set.
    pub fn set_s5(&mut self) -> (r: &mut Self)
        ensures
            r.bits == old(self).bits | 0x3c00,
            *final(self) == *final(r),
    {
        let ghost start = self.bits;
        self.set_slp_typ(SleepType::S5.into());
        self.set_slp_en(true);
        proof {
            assert((((start & !0x1c00u32) | (7u32 << 10)) | 0x2000) == start | 0x3c00)
                by (bit_vector);
        }
        self
    }
}

} // verus!
