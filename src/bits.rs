//! Packed boolean arrays: bit `i` is bit `i % 8` (least significant first) of
//! byte `i / 8`.

use vstd::prelude::*;

use crate::error::TilingError;

verus! {

/// Bit `k` (0 = least significant) of byte `b`.
pub open spec fn byte_bit(b: u8, k: u8) -> bool {
    (b >> k) & 1u8 == 1u8
}

/// Bit `i` of the packed array that starts at byte `start` of `bytes`.
pub open spec fn packed_bit(bytes: Seq<u8>, start: int, i: int) -> bool {
    byte_bit(bytes[start + i / 8], (i % 8) as u8)
}

/// Number of bytes that hold `bits` packed bits: `ceil(bits / 8)`.
pub open spec fn bytes_for_bits(bits: nat) -> nat {
    if bits % 8 == 0 {
        bits / 8
    } else {
        bits / 8 + 1
    }
}

/// `ceil(bits / 8)`.
pub fn byte_count_for(bits: u64) -> (r: u64)
    ensures
        r as nat == bytes_for_bits(bits as nat),
{
    if bits % 8 == 0 {
        bits / 8
    } else {
        bits / 8 + 1
    }
}

/// Reads bit `i` of the packed array that starts at byte `start`.
pub fn read_packed(bytes: &Vec<u8>, start: usize, i: u64) -> (r: bool)
    requires
        start + i / 8 < bytes@.len(),
    ensures
        r == packed_bit(bytes@, start as int, i as int),
{
    let len: usize = bytes.len();
    assert(start + i / 8 < len);
    let q: usize = (i / 8) as usize;
    let b = bytes[start + q];
    let k: u8 = (i % 8) as u8;
    assert(k == ((i as int) % 8) as u8);
    (b >> k) & 1u8 == 1u8
}

/// Where a reader's bits come from.
pub enum BitSource {
    /// The same answer for every index.
    Constant(bool),
    /// Packed bits, least significant bit of the first byte first.
    Bytes(Vec<u8>),
}

/// Random access to `bit_count` booleans.
pub struct BitReader {
    pub source: BitSource,
    pub bit_count: u64,
}

impl BitReader {
    /// The reader's bytes are enough for its bit count.
    pub open spec fn wf(&self) -> bool {
        match self.source {
            BitSource::Constant(_) => true,
            BitSource::Bytes(b) => bytes_for_bits(self.bit_count as nat) <= b@.len(),
        }
    }

    /// Bit `i` of the reader.
    pub open spec fn bit(&self, i: int) -> bool {
        match self.source {
            BitSource::Constant(c) => c,
            BitSource::Bytes(b) => packed_bit(b@, 0, i),
        }
    }

    /// A reader over `source`; `MisalignedBufferView` when the bytes are
    /// fewer than `ceil(bit_count / 8)`.
    pub fn new(source: BitSource, bit_count: u64) -> (r: Result<BitReader, TilingError>)
        ensures
            match source {
                BitSource::Constant(_) => r.is_ok(),
                BitSource::Bytes(b) => r.is_ok() <==> bytes_for_bits(bit_count as nat) <= b@.len(),
            },
            r.is_err() ==> r == Err::<BitReader, TilingError>(TilingError::MisalignedBufferView),
            r matches Ok(reader) ==> reader.wf() && reader.bit_count == bit_count && reader.source
                == source,
    {
        let aligned = match &source {
            BitSource::Constant(_) => true,
            BitSource::Bytes(b) => byte_count_for(bit_count) <= b.len() as u64,
        };
        if aligned {
            Ok(BitReader { source, bit_count })
        } else {
            Err(TilingError::MisalignedBufferView)
        }
    }

    /// Bit `index`; `IndexOutOfRange` when `index >= bit_count`.
    pub fn read(&self, index: u64) -> (r: Result<bool, TilingError>)
        requires
            self.wf(),
        ensures
            index < self.bit_count ==> r == Ok::<bool, TilingError>(self.bit(index as int)),
            index >= self.bit_count ==> r == Err::<bool, TilingError>(TilingError::IndexOutOfRange),
    {
        if index >= self.bit_count {
            return Err(TilingError::IndexOutOfRange);
        }
        match &self.source {
            BitSource::Constant(c) => Ok(*c),
            BitSource::Bytes(b) => Ok(read_packed(b, 0, index)),
        }
    }
}

} // verus!
