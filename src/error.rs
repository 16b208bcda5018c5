//! Errors of subtree decoding and availability resolution.

use vstd::prelude::*;

verus! {

/// The class an error belongs to, which decides how a caller treats it.
#[derive(PartialEq, Eq, Structural, Clone, Copy, Debug)]
pub enum ErrorKind {
    /// A malformed subtree; fatal for that subtree and never retried.
    Malformed,
    /// Availability that contradicts itself; fatal and never repaired.
    Consistency,
    /// A tiling configuration that cannot be used: a depth of zero, or a
    /// branching factor raised to a depth that does not fit in 64 bits.
    Configuration,
    /// A caller asked for something outside the data it holds.
    Usage,
}

/// Every way decoding or resolving availability can fail.
#[derive(PartialEq, Eq, Structural, Clone, Copy, Debug)]
pub enum TilingError {
    /// An availability record holds both a bitstream and a constant.
    AmbiguousAvailability,
    /// An availability record holds neither a bitstream nor a constant.
    MissingAvailability,
    /// A binary subtree file whose header is wrong or whose chunks do not fit.
    InvalidSubtreeFile,
    /// A buffer view reaches past the buffer it names, or names none.
    BufferIndexOutOfRange,
    /// A bitstream names a buffer view that does not exist.
    BufferViewIndexOutOfRange,
    /// A bitstream's buffer view holds fewer than `ceil(bits / 8)` bytes.
    MisalignedBufferView,
    /// The tile availability is the constant `false`.
    ConstantFalseTileAvailability,
    /// An available tile has a parent that is not available.
    InconsistentAvailability,
    /// The branching factor raised to the subtree depth overflows 64 bits.
    ConfigurationOverflow,
    /// A configuration value is out of its range (a depth of zero).
    InvalidConfiguration,
    /// A content slot beyond the subtree's content availability list.
    InvalidContentSlot,
    /// A bit index, or a coordinate, outside the range it must lie in.
    IndexOutOfRange,
}

impl TilingError {
    /// The class of an error.
    pub open spec fn spec_kind(self) -> ErrorKind {
        match self {
            TilingError::InvalidSubtreeFile => ErrorKind::Malformed,
            TilingError::AmbiguousAvailability => ErrorKind::Malformed,
            TilingError::MissingAvailability => ErrorKind::Malformed,
            TilingError::BufferIndexOutOfRange => ErrorKind::Malformed,
            TilingError::BufferViewIndexOutOfRange => ErrorKind::Malformed,
            TilingError::MisalignedBufferView => ErrorKind::Malformed,
            TilingError::ConstantFalseTileAvailability => ErrorKind::Malformed,
            TilingError::InconsistentAvailability => ErrorKind::Consistency,
            TilingError::ConfigurationOverflow => ErrorKind::Configuration,
            TilingError::InvalidConfiguration => ErrorKind::Configuration,
            TilingError::InvalidContentSlot => ErrorKind::Usage,
            TilingError::IndexOutOfRange => ErrorKind::Usage,
        }
    }

    /// The class of this error.
    pub fn kind(&self) -> (r: ErrorKind)
        ensures
            r == self.spec_kind(),
    {
        match self {
            TilingError::InvalidSubtreeFile => ErrorKind::Malformed,
            TilingError::AmbiguousAvailability => ErrorKind::Malformed,
            TilingError::MissingAvailability => ErrorKind::Malformed,
            TilingError::BufferIndexOutOfRange => ErrorKind::Malformed,
            TilingError::BufferViewIndexOutOfRange => ErrorKind::Malformed,
            TilingError::MisalignedBufferView => ErrorKind::Malformed,
            TilingError::ConstantFalseTileAvailability => ErrorKind::Malformed,
            TilingError::InconsistentAvailability => ErrorKind::Consistency,
            TilingError::ConfigurationOverflow => ErrorKind::Configuration,
            TilingError::InvalidConfiguration => ErrorKind::Configuration,
            TilingError::InvalidContentSlot => ErrorKind::Usage,
            TilingError::IndexOutOfRange => ErrorKind::Usage,
        }
    }
}

} // verus!
