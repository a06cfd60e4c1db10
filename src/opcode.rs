use vstd::prelude::*;

verus! {

/// High nibble of a 16-bit instruction word.
pub open spec fn nib0(v: u16) -> u8 {
    (v / 4096) as u8
}

pub open spec fn nib1(v: u16) -> u8 {
    ((v / 256) % 16) as u8
}

pub open spec fn nib2(v: u16) -> u8 {
    ((v / 16) % 16) as u8
}

/// Low nibble of a 16-bit instruction word.
pub open spec fn nib3(v: u16) -> u8 {
    (v % 16) as u8
}

/// The instruction word made of a high and a low byte, big-endian.
pub open spec fn word_of(hi: u8, lo: u8) -> u16 {
    (hi as int * 256 + lo as int) as u16
}

/// A 16-bit instruction word.
#[derive(Debug, Clone, Copy, PartialEq, Eq, Structural)]
pub struct OpCode {
    pub inner: u16,
}

impl OpCode {
    /// The four 4-bit fields, most significant first.
    pub fn nibbles(&self) -> (r: (u8, u8, u8, u8))
        ensures
            r.0 == nib0(self.inner),
            r.1 == nib1(self.inner),
            r.2 == nib2(self.inner),
            r.3 == nib3(self.inner),
    {
        let v = self.inner;
        proof {
            assert((v & 0xF000) >> 12u16 == v / 4096) by (bit_vector);
            assert((v & 0x0F00) >> 8u16 == (v / 256) % 16) by (bit_vector);
            assert((v & 0x00F0) >> 4u16 == (v / 16) % 16) by (bit_vector);
            assert(v & 0x000F == v % 16) by (bit_vector);
        }
        (
            ((v & 0xF000) >> 12u16) as u8,
            ((v & 0x0F00) >> 8u16) as u8,
            ((v & 0x00F0) >> 4u16) as u8,
            (v & 0x000F) as u8,
        )
    }

    /// The low 12 bits: an address.
    pub fn nnn(&self) -> (r: u16)
        ensures
            r == self.inner % 4096,
    {
        let v = self.inner;
        proof {
            assert(v & 0x0FFF == v % 4096) by (bit_vector);
        }
        v & 0x0FFF
    }

    /// The low 8 bits: an immediate byte.
    pub fn kk(&self) -> (r: u8)
        ensures
            r == self.inner % 256,
    {
        let v = self.inner;
        proof {
            assert(v & 0x00FF == v % 256) by (bit_vector);
        }
        (v & 0x00FF) as u8
    }

    /// The second nibble: a register index.
    pub fn x(&self) -> (r: u8)
        ensures
            r == nib1(self.inner),
            r < 16,
    {
        self.nibbles().1
    }

    /// The third nibble: a register index.
    pub fn y(&self) -> (r: u8)
        ensures
            r == nib2(self.inner),
            r < 16,
    {
        self.nibbles().2
    }

    /// The low nibble.
    pub fn n(&self) -> (r: u8)
        ensures
            r == nib3(self.inner),
            r < 16,
    {
        self.nibbles().3
    }
}

impl From<(u8, u8)> for OpCode {
    fn from(next_bytes: (u8, u8)) -> (r: OpCode) {
        let hi = next_bytes.0 as u16;
        let lo = next_bytes.1 as u16;
        proof {
            assert((hi << 8u16) | lo == hi * 256 + lo) by (bit_vector)
                requires
                    hi < 256,
                    lo < 256,
            ;
        }
        OpCode { inner: (hi << 8u16) | lo }
    }
}

impl vstd::std_specs::convert::FromSpecImpl<(u8, u8)> for OpCode {
    open spec fn obeys_from_spec() -> bool {
        true
    }

    open spec fn from_spec(v: (u8, u8)) -> OpCode {
        OpCode { inner: word_of(v.0, v.1) }
    }
}

/// Splitting the word made of `hi` and `lo` into nibbles and putting them back
/// together gives the same word, and the high and low bytes are recovered.
pub proof fn lemma_nibbles_round_trip(hi: u8, lo: u8)
    ensures
        nib0(word_of(hi, lo)) as int * 4096 + nib1(word_of(hi, lo)) as int * 256
            + nib2(word_of(hi, lo)) as int * 16 + nib3(word_of(hi, lo)) as int
            == word_of(hi, lo) as int,
        word_of(hi, lo) as int == hi as int * 256 + lo as int,
        nib0(word_of(hi, lo)) as int * 16 + nib1(word_of(hi, lo)) as int == hi as int,
        nib2(word_of(hi, lo)) as int * 16 + nib3(word_of(hi, lo)) as int == lo as int,
{
    let v = word_of(hi, lo);
    assert(v as int == hi as int * 256 + lo as int);
    assert(v / 4096 * 4096 + (v / 256) % 16 * 256 + (v / 16) % 16 * 16 + v % 16 == v)
        by (nonlinear_arith);
    assert(v / 4096 * 16 + (v / 256) % 16 == v / 256) by (nonlinear_arith);
    assert((v / 16) % 16 * 16 + v % 16 == v % 256) by (nonlinear_arith);
    assert(v / 256 == hi as int && v % 256 == lo as int) by (nonlinear_arith)
        requires
            v as int == hi as int * 256 + lo as int,
            0 <= lo < 256,
    ;
}

} // verus!
