use vstd::prelude::*;

use crate::can::decoder::decode_msg;
use crate::can::decoder::parser_decode;
use crate::can::decoder::DecodedMsg;
use crate::can::decoder::DecodedMsgView;
use crate::logs::consts::CAN_EFF_FLAG;
use crate::logs::consts::CAN_EXT_ID_MASK;
use crate::logs::consts::CAN_STD_ID_MASK;
use crate::logs::consts::MSG_BYTE_LEN;

verus! {

/// A 32-bit value assembled from four little-endian bytes.
pub open spec fn spec_u32_le(b0: u8, b1: u8, b2: u8, b3: u8) -> u32 {
    (b0 as u32) | ((b1 as u32) << 8) | ((b2 as u32) << 16) | ((b3 as u32) << 24)
}

/// Byte `k` (0 = least significant) of a 32-bit value.
pub open spec fn spec_le_byte(x: u32, k: int) -> u8 {
    ((x >> (8 * k)) & 0xFF) as u8
}

/// Extracting the four little-endian bytes of an assembled value gives
/// the original bytes back.
pub proof fn lemma_u32_le_bytes(b0: u8, b1: u8, b2: u8, b3: u8)
    ensures
        spec_le_byte(spec_u32_le(b0, b1, b2, b3), 0) == b0,
        spec_le_byte(spec_u32_le(b0, b1, b2, b3), 1) == b1,
        spec_le_byte(spec_u32_le(b0, b1, b2, b3), 2) == b2,
        spec_le_byte(spec_u32_le(b0, b1, b2, b3), 3) == b3,
{
    let x = spec_u32_le(b0, b1, b2, b3);
    assert({
        let x = (b0 as u32) | ((b1 as u32) << 8) | ((b2 as u32) << 16) | ((b3 as u32) << 24);
        (((x >> 0) & 0xFF) as u8) == b0 && (((x >> 8) & 0xFF) as u8) == b1 && (((x >> 16)
            & 0xFF) as u8) == b2 && (((x >> 24) & 0xFF) as u8) == b3
    }) by (bit_vector);
}

/// Assembles a 32-bit value from four little-endian bytes.
pub fn u32_from_le(b0: u8, b1: u8, b2: u8, b3: u8) -> (r: u32)
    ensures
        r == spec_u32_le(b0, b1, b2, b3),
{
    (b0 as u32) | ((b1 as u32) << 8) | ((b2 as u32) << 16) | ((b3 as u32) << 24)
}

/// Splits a 32-bit value into its four little-endian bytes.
pub fn u32_to_le(x: u32) -> (r: (u8, u8, u8, u8))
    ensures
        r.0 == spec_le_byte(x, 0),
        r.1 == spec_le_byte(x, 1),
        r.2 == spec_le_byte(x, 2),
        r.3 == spec_le_byte(x, 3),
{
    proof {
        assert(x >> 0 == x) by (bit_vector);
        assert((x & 0xFF) < 256 && ((x >> 8) & 0xFF) < 256 && ((x >> 16) & 0xFF) < 256 && ((x
            >> 24) & 0xFF) < 256) by (bit_vector);
    }
    ((x & 0xFF) as u8, ((x >> 8) & 0xFF) as u8, ((x >> 16) & 0xFF) as u8, ((x >> 24) & 0xFF) as u8)
}

/// The masked arbitration id of a logged id: the id space is selected
/// by the extended-frame flag bit, and the matching mask is applied.
pub open spec fn spec_extract_arb_id(logged_id: u32) -> u32 {
    if logged_id & CAN_EFF_FLAG != 0 {
        logged_id & CAN_EXT_ID_MASK
    } else {
        logged_id & CAN_STD_ID_MASK
    }
}

/// Applies the extended or standard id mask to a logged arbitration id,
/// as selected by the extended-frame flag bit.
pub fn extract_arb_id(logged_id: u32) -> (r: u32)
    ensures
        r == spec_extract_arb_id(logged_id),
{
    if logged_id & CAN_EFF_FLAG != 0 {
        logged_id & CAN_EXT_ID_MASK
    } else {
        logged_id & CAN_STD_ID_MASK
    }
}

/// The fields of one fixed-layout binary log record.
///
/// `data` holds the `dlc` payload bytes; `tail` holds the bytes that pad
/// the record out to its fixed size.
pub struct LogRecord {
    pub frame_type: u8,
    pub timestamp: u32,
    pub logged_id: u32,
    pub reserved: u8,
    pub dlc: u8,
    pub data: Vec<u8>,
    pub tail: Vec<u8>,
}

/// The mathematical content of a `LogRecord`.
pub struct LogRecordView {
    pub frame_type: u8,
    pub timestamp: u32,
    pub logged_id: u32,
    pub reserved: u8,
    pub dlc: u8,
    pub data: Seq<u8>,
    pub tail: Seq<u8>,
}

impl View for LogRecord {
    type V = LogRecordView;

    open spec fn view(&self) -> LogRecordView {
        LogRecordView {
            frame_type: self.frame_type,
            timestamp: self.timestamp,
            logged_id: self.logged_id,
            reserved: self.reserved,
            dlc: self.dlc,
            data: self.data@,
            tail: self.tail@,
        }
    }
}

impl LogRecordView {
    /// A record carries at most eight payload bytes, and payload plus
    /// padding fill the fixed record size.
    pub open spec fn wf(self) -> bool {
        &&& self.dlc <= 8
        &&& self.data.len() == self.dlc as int
        &&& self.data.len() + self.tail.len() == 8
    }

    /// The fixed-size byte encoding of the record.
    pub open spec fn bytes(self) -> Seq<u8> {
        seq![
            self.frame_type,
            spec_le_byte(self.timestamp, 0),
            spec_le_byte(self.timestamp, 1),
            spec_le_byte(self.timestamp, 2),
            spec_le_byte(self.timestamp, 3),
            spec_le_byte(self.logged_id, 0),
            spec_le_byte(self.logged_id, 1),
            spec_le_byte(self.logged_id, 2),
            spec_le_byte(self.logged_id, 3),
            self.reserved,
            self.dlc,
        ] + self.data + self.tail
    }
}

/// The record encoded in a full-size byte buffer, fields read at their
/// fixed offsets.
pub open spec fn spec_parse_record(b: Seq<u8>) -> LogRecordView
    recommends
        b.len() == MSG_BYTE_LEN as int,
{
    LogRecordView {
        frame_type: b[0],
        timestamp: spec_u32_le(b[1], b[2], b[3], b[4]),
        logged_id: spec_u32_le(b[5], b[6], b[7], b[8]),
        reserved: b[9],
        dlc: b[10],
        data: b.subrange(11, 11 + b[10] as int),
        tail: b.subrange(11 + b[10] as int, MSG_BYTE_LEN as int),
    }
}

/// Reading the fields of a valid record and writing them back at their
/// offsets reproduces the record's bytes exactly.
pub proof fn lemma_record_round_trip(b: Seq<u8>)
    requires
        b.len() == MSG_BYTE_LEN as int,
        b[10] <= 8,
    ensures
        spec_parse_record(b).wf(),
        spec_parse_record(b).bytes() =~= b,
{
    lemma_u32_le_bytes(b[1], b[2], b[3], b[4]);
    lemma_u32_le_bytes(b[5], b[6], b[7], b[8]);
}

/// Splits one full-size binary record into its fields, or returns
/// `None` when the data length code exceeds the payload area.
pub fn parse_record(buf: &[u8]) -> (r: Option<LogRecord>)
    requires
        buf@.len() == MSG_BYTE_LEN as int,
    ensures
        match r {
            Some(rec) => rec@ == spec_parse_record(buf@) && rec@.wf(),
            None => buf@[10] > 8,
        },
        buf@[10] <= 8 ==> r is Some,
{
    let dlc = buf[10];
    if dlc > 8 {
        return None;
    }
    let data = vstd::slice::slice_to_vec(vstd::slice::slice_subrange(buf, 11, 11 + dlc as usize));
    let tail = vstd::slice::slice_to_vec(
        vstd::slice::slice_subrange(buf, 11 + dlc as usize, MSG_BYTE_LEN),
    );
    Some(
        LogRecord {
            frame_type: buf[0],
            timestamp: u32_from_le(buf[1], buf[2], buf[3], buf[4]),
            logged_id: u32_from_le(buf[5], buf[6], buf[7], buf[8]),
            reserved: buf[9],
            dlc,
            data,
            tail,
        },
    )
}

/// One record of a capture file after decoding: the record's relative
/// timestamp in milliseconds, and the decoded message.
pub struct LogMessage {
    pub timestamp: u32,
    pub decoded: DecodedMsg,
}

/// The mathematical content of a `LogMessage`.
pub struct LogMessageView {
    pub timestamp: u32,
    pub decoded: DecodedMsgView,
}

impl View for LogMessage {
    type V = LogMessageView;

    open spec fn view(&self) -> LogMessageView {
        LogMessageView { timestamp: self.timestamp, decoded: self.decoded@ }
    }
}

/// Parses one full-size binary record and decodes it: the logged id is
/// masked by its flagged id space and looked up with the payload.
/// Returns `None` when the record is malformed or the decoder does not
/// know the id or cannot decode the payload.
pub fn decode_log_record(parser: &can_decode::Parser, buf: &[u8]) -> (r: Option<LogMessage>)
    requires
        buf@.len() == MSG_BYTE_LEN as int,
    ensures
        ({
            let rec = spec_parse_record(buf@);
            let dec = parser_decode(*parser, spec_extract_arb_id(rec.logged_id), rec.data);
            match r {
                Some(lm) => buf@[10] <= 8 && lm.timestamp == rec.timestamp && Some(lm.decoded@)
                    == dec,
                None => buf@[10] > 8 || dec is None,
            }
        }),
{
    match parse_record(buf) {
        Some(rec) => {
            let arb_id = extract_arb_id(rec.logged_id);
            match decode_msg(parser, arb_id, rec.data.as_slice()) {
                Some(d) => Some(LogMessage { timestamp: rec.timestamp, decoded: d }),
                None => None,
            }
        },
        None => None,
    }
}

/// Writes the fields of a record back into one full-size byte buffer.
pub fn encode_record(rec: &LogRecord) -> (r: Vec<u8>)
    requires
        rec@.wf(),
    ensures
        r@ == rec@.bytes(),
        r@.len() == MSG_BYTE_LEN as int,
{
    let mut out: Vec<u8> = Vec::new();
    out.push(rec.frame_type);
    let (t0, t1, t2, t3) = u32_to_le(rec.timestamp);
    out.push(t0);
    out.push(t1);
    out.push(t2);
    out.push(t3);
    let (i0, i1, i2, i3) = u32_to_le(rec.logged_id);
    out.push(i0);
    out.push(i1);
    out.push(i2);
    out.push(i3);
    out.push(rec.reserved);
    out.push(rec.dlc);
    let mut k: usize = 0;
    while k < rec.data.len()
        invariant
            k <= rec.data@.len(),
            rec@.wf(),
            out@ == rec@.bytes().take(11 + k as int),
        decreases rec.data@.len() - k,
    {
        out.push(rec.data[k]);
        k = k + 1;
        proof {
            assert(out@ =~= rec@.bytes().take(11 + k as int));
        }
    }
    let mut j: usize = 0;
    while j < rec.tail.len()
        invariant
            j <= rec.tail@.len(),
            rec@.wf(),
            out@ == rec@.bytes().take(11 + rec.data@.len() + j as int),
        decreases rec.tail@.len() - j,
    {
        out.push(rec.tail[j]);
        j = j + 1;
        proof {
            assert(out@ =~= rec@.bytes().take(11 + rec.data@.len() + j as int));
        }
    }
    proof {
        assert(out@ =~= rec@.bytes());
    }
    out
}

} // verus!
