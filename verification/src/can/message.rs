use vstd::prelude::*;

use crate::can::decoder::DecodedMsg;
use crate::can::decoder::DecodedMsgView;

verus! {

/// One decoded frame as delivered to consumers: the decode result,
/// the capture timestamp, and the raw payload it was decoded from.
pub struct ParsedMessage {
    pub timestamp_ms: i64,
    pub raw_bytes: Vec<u8>,
    pub decoded: DecodedMsg,
    pub tx_node: String,
}

/// The mathematical content of a `ParsedMessage`.
pub struct ParsedMessageView {
    pub timestamp_ms: i64,
    pub raw_bytes: Seq<u8>,
    pub decoded: DecodedMsgView,
    pub tx_node: Seq<char>,
}

impl View for ParsedMessage {
    type V = ParsedMessageView;

    open spec fn view(&self) -> ParsedMessageView {
        ParsedMessageView {
            timestamp_ms: self.timestamp_ms,
            raw_bytes: self.raw_bytes@,
            decoded: self.decoded@,
            tx_node: self.tx_node@,
        }
    }
}

impl Clone for ParsedMessage {
    fn clone(&self) -> (r: Self)
        ensures
            r@ == self@,
    {
        ParsedMessage {
            timestamp_ms: self.timestamp_ms,
            raw_bytes: self.raw_bytes.clone(),
            decoded: self.decoded.clone(),
            tx_node: self.tx_node.clone(),
        }
    }
}

/// The contents of a sequence of parsed messages.
pub open spec fn pmsgs_view(s: Seq<ParsedMessage>) -> Seq<ParsedMessageView> {
    Seq::new(s.len(), |i: int| s[i]@)
}

/// The outbound data message from the acquisition loop to its
/// consumers: one decoded frame.
pub enum CanMessage {
    ParsedMessage(ParsedMessage),
}

/// The inbound control message to the acquisition loop: a signal
/// database definition file was selected for loading.
pub enum UiMessage {
    DbcSelected(String),
}

} // verus!
