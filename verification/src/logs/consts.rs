use vstd::prelude::*;

verus! {

/// Bit set in a logged arbitration id when the frame carries an extended id.
pub const CAN_EFF_FLAG: u32 = 0x8000_0000;

/// Mask for the 29-bit extended arbitration id space.
pub const CAN_EXT_ID_MASK: u32 = 0x1FFF_FFFF;

/// Mask for the 11-bit standard arbitration id space.
pub const CAN_STD_ID_MASK: u32 = 0x0000_07FF;

/// Size of one fixed-layout binary log record.
pub const MSG_BYTE_LEN: usize = 19;

/// Offset of the relative timestamp field (4 bytes, little endian).
pub const FRAME_TYPE_OFFSET: usize = 1;

/// End of the timestamp field and start of the logged arbitration id
/// field (4 bytes, little endian).
pub const TIMESTAMP_OFFSET: usize = 5;

/// End of the logged arbitration id field.
pub const ID_OFFSET: usize = 9;

/// Offset of the one-byte data length code.
pub const DLC_OFFSET: usize = 10;

/// Offset of the payload bytes.
pub const DATA_OFFSET: usize = 11;

/// A forward timestamp gap of at least this many milliseconds starts a
/// new output file.
pub const MAX_JUMP_MS: u32 = 300_000;

/// Width of one table row's time bin, in milliseconds.
pub const BIN_WIDTH_MS: u32 = 15;

} // verus!
