use vstd::prelude::*;

use crate::can::decoder::catalog;
use crate::can::decoder::decode_msg;
use crate::can::decoder::load_decoder;
use crate::can::decoder::parser_decode;
use crate::can::decoder::parser_defs;
use crate::can::message::ParsedMessage;
use crate::can::message::ParsedMessageView;
use crate::can::random::random_below;
use crate::can::random::random_bytes;
use crate::can::random::wall_clock_ms;
use crate::logs::consts::CAN_EXT_ID_MASK;
use crate::logs::consts::CAN_STD_ID_MASK;

verus! {

/// Backoff slept after a failed connection attempt, in milliseconds.
pub const CONNECT_BACKOFF_MS: u64 = 500;

/// Pause slept after a read timeout, in milliseconds.
pub const READ_IDLE_MS: u64 = 2;

/// The connection lifecycle of the acquisition loop.
#[derive(Clone, Copy, Debug, PartialEq, Eq, Structural)]
pub enum ConnPhase {
    /// No serial connection exists; one will be attempted.
    Disconnected,
    /// A connection attempt (open, mode, bit rate) is under way.
    Connecting,
    /// Frames are being read.
    Connected,
    /// The connection failed fatally this iteration; it is torn down
    /// before the loop goes on.
    Faulted,
}

/// One observation the acquisition loop reacts to.
pub enum CanEvent {
    /// A control message asked for this definition file to be loaded.
    ReloadRequested(String),
    /// The loop is about to attempt a connection.
    ConnectAttempted,
    /// The serial port opened and was configured.
    PortOpened,
    /// Opening or configuring the serial port failed.
    ConnectFailed,
    /// One classic frame was read: its tagged id kind, raw id, payload.
    FrameReceived(bool, u32, Vec<u8>),
    /// The read timed out with nothing pending.
    ReadTimedOut,
    /// The read failed for any other reason.
    ReadFailed,
}

/// What the acquisition loop must do after a step.
pub enum CanAction {
    /// Nothing; go around the loop again.
    Idle,
    /// Sleep the fixed backoff, after emitting the synthesized frame
    /// if one was produced.
    Backoff(Option<ParsedMessage>),
    /// Emit one decoded frame to the consumers.
    Emit(ParsedMessage),
    /// Tear the serial connection down before iterating again.
    TearDown,
}

/// The raw id of a tagged frame masked against the id space its kind
/// selects.
pub open spec fn spec_masked_id(extended: bool, raw_id: u32) -> u32 {
    if extended {
        raw_id & CAN_EXT_ID_MASK
    } else {
        raw_id & CAN_STD_ID_MASK
    }
}

/// Applies the id mask selected by the frame's tagged id kind.
pub fn masked_id(extended: bool, raw_id: u32) -> (r: u32)
    ensures
        r == spec_masked_id(extended, raw_id),
{
    if extended {
        raw_id & CAN_EXT_ID_MASK
    } else {
        raw_id & CAN_STD_ID_MASK
    }
}

/// A synthesized frame is schema-valid for the decoder: some loaded
/// definition was chosen, the payload has that definition's declared
/// length, and the decode result is the decoder's own for that id and
/// payload.
pub open spec fn spec_fake_ok(p: can_decode::Parser, pm: ParsedMessageView) -> bool {
    exists|id: u32|
        #[trigger] parser_defs(p).contains_key(id) && pm.raw_bytes.len() == parser_defs(
            p,
        )[id].size as int && Some(pm.decoded) == parser_decode(p, id, pm.raw_bytes)
}

/// The state owned by the acquisition loop: the connection phase, the
/// connectivity flag shown to consumers, and the loaded decoder.
pub struct State {
    pub phase: ConnPhase,
    pub is_connected: bool,
    pub parser: Option<can_decode::Parser>,
}

impl State {
    /// The connectivity flag mirrors the phase.
    pub open spec fn wf(self) -> bool {
        self.is_connected <==> self.phase is Connected
    }

    /// A fresh state: disconnected, no decoder loaded.
    pub fn new() -> (r: State)
        ensures
            r.wf(),
            r.phase is Disconnected,
            !r.is_connected,
            r.parser is None,
    {
        State { phase: ConnPhase::Disconnected, is_connected: false, parser: None }
    }

    /// Synthesizes one randomized, schema-valid frame from the loaded
    /// definitions: a definition chosen at random, a random payload of
    /// its declared length, decoded by the decoder itself. Returns
    /// `None` when no definitions are loaded or the decode fails.
    pub fn synth_fake_message(parser: &can_decode::Parser) -> (r: Option<ParsedMessage>)
        ensures
            r matches Some(pm) ==> spec_fake_ok(*parser, pm@) && pm.tx_node@ == pm@.decoded.tx_node,
            parser_defs(*parser) == Map::<u32, crate::can::decoder::MessageDefView>::empty() ==> r
                is None,
    {
        let defs = catalog(parser);
        if defs.len() == 0 {
            proof {
                if exists|id: u32| parser_defs(*parser).contains_key(id) {
                    let id = choose|id: u32| parser_defs(*parser).contains_key(id);
                    assert(false);
                }
                assert(parser_defs(*parser) =~= Map::<
                    u32,
                    crate::can::decoder::MessageDefView,
                >::empty());
            }
            return None;
        }
        let i = random_below(defs.len());
        let data = random_bytes(defs[i].size);
        match decode_msg(parser, defs[i].id, data.as_slice()) {
            Some(d) => {
                let node = d.tx_node.clone();
                Some(
                    ParsedMessage {
                        timestamp_ms: wall_clock_ms(),
                        raw_bytes: data,
                        decoded: d,
                        tx_node: node,
                    },
                )
            },
            None => None,
        }
    }

    /// Advances the state machine by one observed event and says what
    /// the loop must do next.
    ///
    /// A reload request replaces the decoder only when loading
    /// succeeds. A connection attempt enters `Connecting`; its outcome
    /// settles `Connected` or `Disconnected`, a failure synthesizing a
    /// fake frame when a decoder is loaded. A received frame is masked
    /// by its id kind and decoded; an undecodable or undecoded frame is
    /// dropped. A fatal read error faults the connection, which is torn
    /// down and retried.
    pub fn step(&mut self, event: CanEvent) -> (a: CanAction)
        requires
            old(self).wf(),
            event is ConnectAttempted ==> !old(self).is_connected,
            event is PortOpened || event is ConnectFailed ==> old(self).phase is Connecting,
            event is FrameReceived || event is ReadTimedOut || event is ReadFailed ==> old(
                self,
            ).phase is Connected,
        ensures
            final(self).wf(),
            event matches CanEvent::ReloadRequested(path) ==> {
                &&& final(self).phase == old(self).phase
                &&& final(self).is_connected == old(self).is_connected
                &&& (final(self).parser == old(self).parser || final(self).parser is Some)
                &&& a is Idle
            },
            event is ConnectAttempted ==> {
                &&& final(self).phase is Connecting
                &&& !final(self).is_connected
                &&& final(self).parser == old(self).parser
                &&& a is Idle
            },
            event is PortOpened ==> {
                &&& final(self).phase is Connected
                &&& final(self).is_connected
                &&& final(self).parser == old(self).parser
                &&& a is Idle
            },
            event is ConnectFailed ==> {
                &&& final(self).phase is Disconnected
                &&& !final(self).is_connected
                &&& final(self).parser == old(self).parser
                &&& a matches CanAction::Backoff(fake) ==> {
                    &&& (old(self).parser is None ==> fake is None)
                    &&& (fake matches Some(pm) ==> (old(self).parser matches Some(p)
                        && spec_fake_ok(p, pm@)))
                }
                &&& a is Backoff
            },
            event matches CanEvent::FrameReceived(extended, raw_id, data) ==> {
                &&& *final(self) == *old(self)
                &&& (old(self).parser is None ==> a is Idle)
                &&& (old(self).parser matches Some(p) ==> match parser_decode(
                    p,
                    spec_masked_id(extended, raw_id),
                    data@,
                ) {
                    Some(dv) => a matches CanAction::Emit(msg) && msg@.decoded == dv
                        && msg.raw_bytes@ == data@ && msg.tx_node@ == dv.tx_node,
                    None => a is Idle,
                })
            },
            event is ReadTimedOut ==> *final(self) == *old(self) && a is Idle,
            event is ReadFailed ==> {
                &&& final(self).phase is Faulted
                &&& !final(self).is_connected
                &&& final(self).parser == old(self).parser
                &&& a is TearDown
            },
    {
        match event {
            CanEvent::ReloadRequested(path) => {
                match load_decoder(path.as_str()) {
                    Some(p) => {
                        self.parser = Some(p);
                    },
                    None => {},
                }
                CanAction::Idle
            },
            CanEvent::ConnectAttempted => {
                self.phase = ConnPhase::Connecting;
                self.is_connected = false;
                CanAction::Idle
            },
            CanEvent::PortOpened => {
                self.phase = ConnPhase::Connected;
                self.is_connected = true;
                CanAction::Idle
            },
            CanEvent::ConnectFailed => {
                self.phase = ConnPhase::Disconnected;
                self.is_connected = false;
                let fake = match &self.parser {
                    Some(p) => Self::synth_fake_message(p),
                    None => None,
                };
                CanAction::Backoff(fake)
            },
            CanEvent::FrameReceived(extended, raw_id, data) => {
                let id = masked_id(extended, raw_id);
                match &self.parser {
                    Some(p) => {
                        match decode_msg(p, id, data.as_slice()) {
                            Some(d) => {
                                let node = d.tx_node.clone();
                                CanAction::Emit(
                                    ParsedMessage {
                                        timestamp_ms: wall_clock_ms(),
                                        raw_bytes: data,
                                        decoded: d,
                                        tx_node: node,
                                    },
                                )
                            },
                            None => CanAction::Idle,
                        }
                    },
                    None => CanAction::Idle,
                }
            },
            CanEvent::ReadTimedOut => CanAction::Idle,
            CanEvent::ReadFailed => {
                self.phase = ConnPhase::Faulted;
                self.is_connected = false;
                CanAction::TearDown
            },
        }
    }
}

} // verus!
