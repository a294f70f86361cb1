use vstd::prelude::*;

verus! {

/// One named signal of a decoded message: the physical value rendered
/// as text, together with its unit.
pub struct SignalValue {
    pub name: String,
    pub value_text: String,
    pub unit: String,
}

/// The mathematical content of a `SignalValue`.
pub struct SignalValueView {
    pub name: Seq<char>,
    pub value_text: Seq<char>,
    pub unit: Seq<char>,
}

impl View for SignalValue {
    type V = SignalValueView;

    open spec fn view(&self) -> SignalValueView {
        SignalValueView { name: self.name@, value_text: self.value_text@, unit: self.unit@ }
    }
}

impl DeepView for SignalValue {
    type V = SignalValueView;

    open spec fn deep_view(&self) -> SignalValueView {
        self.view()
    }
}

impl Clone for SignalValue {
    fn clone(&self) -> (r: Self)
        ensures
            r@ == self@,
    {
        SignalValue {
            name: self.name.clone(),
            value_text: self.value_text.clone(),
            unit: self.unit.clone(),
        }
    }
}

/// One decoded CAN message: the arbitration id it was looked up under,
/// its definition's name and transmitting node, and its signals in the
/// definition's declared order.
pub struct DecodedMsg {
    pub msg_id: u32,
    pub name: String,
    pub is_extended: bool,
    pub tx_node: String,
    pub signals: Vec<SignalValue>,
}

/// The mathematical content of a `DecodedMsg`.
pub struct DecodedMsgView {
    pub msg_id: u32,
    pub name: Seq<char>,
    pub is_extended: bool,
    pub tx_node: Seq<char>,
    pub signals: Seq<SignalValueView>,
}

impl View for DecodedMsg {
    type V = DecodedMsgView;

    open spec fn view(&self) -> DecodedMsgView {
        DecodedMsgView {
            msg_id: self.msg_id,
            name: self.name@,
            is_extended: self.is_extended,
            tx_node: self.tx_node@,
            signals: self.signals.deep_view(),
        }
    }
}

impl DecodedMsgView {
    /// Signal names within one decoded message are distinct keys.
    pub open spec fn wf(self) -> bool {
        forall|i: int, j: int|
            0 <= i < self.signals.len() && 0 <= j < self.signals.len() && i != j
                ==> self.signals[i].name != self.signals[j].name
    }
}

impl Clone for DecodedMsg {
    fn clone(&self) -> (r: Self)
        ensures
            r@ == self@,
    {
        let signals = self.signals.clone();
        proof {
            assert forall|k: int| 0 <= k < signals@.len() implies signals@[k].deep_view()
                == self.signals@[k].deep_view() by {
                assert(vstd::pervasive::cloned::<SignalValue>(self.signals@[k], signals@[k]));
            }
            assert(signals.deep_view() =~= self.signals.deep_view());
        }
        let r = DecodedMsg {
            msg_id: self.msg_id,
            name: self.name.clone(),
            is_extended: self.is_extended,
            tx_node: self.tx_node.clone(),
            signals,
        };
        proof {
            assert(r@.signals =~= self@.signals);
        }
        r
    }
}

/// One message definition of the loaded signal database: the raw
/// arbitration id the decoder keys it under, its name, transmitting
/// node, declared byte length, and signal names in declared order.
pub struct MessageDef {
    pub id: u32,
    pub extended: bool,
    pub name: String,
    pub node: Option<String>,
    pub size: usize,
    pub signals: Vec<String>,
}

/// The mathematical content of a `MessageDef`.
pub struct MessageDefView {
    pub id: u32,
    pub extended: bool,
    pub name: Seq<char>,
    pub node: Option<Seq<char>>,
    pub size: usize,
    pub signals: Seq<Seq<char>>,
}

impl View for MessageDef {
    type V = MessageDefView;

    open spec fn view(&self) -> MessageDefView {
        MessageDefView {
            id: self.id,
            extended: self.extended,
            name: self.name@,
            node: match self.node {
                Some(n) => Some(n@),
                None => None,
            },
            size: self.size,
            signals: self.signals.deep_view(),
        }
    }
}

impl DeepView for MessageDef {
    type V = MessageDefView;

    open spec fn deep_view(&self) -> MessageDefView {
        self.view()
    }
}

/// The signal database decoder held by the acquisition loop and the
/// log pipeline. Verified code treats it as opaque and reaches it only
/// through the trusted functions below.
#[verifier::external_type_specification]
#[verifier::external_body]
pub struct ExParser(can_decode::Parser);

/// The message definitions a decoder holds, keyed by the raw
/// arbitration id each is registered under.
pub uninterp spec fn parser_defs(p: can_decode::Parser) -> Map<u32, MessageDefView>;

/// What a decoder returns for one (arbitration id, payload) pair: a
/// function of the decoder contents and the two arguments alone.
pub uninterp spec fn parser_decode(p: can_decode::Parser, msg_id: u32, data: Seq<u8>) -> Option<
    DecodedMsgView,
>;

/// The view of an optional decoded message.
pub open spec fn opt_msg_view(r: Option<DecodedMsg>) -> Option<DecodedMsgView> {
    match r {
        Some(d) => Some(d@),
        None => None,
    }
}

/// Signal lookup is idempotent: the decoder holds no hidden mutable
/// state, so decoding the same (arbitration id, payload) pair against
/// the same decoder twice yields the same decoded content.
pub proof fn lemma_decode_idempotent(
    p: can_decode::Parser,
    msg_id: u32,
    data: Seq<u8>,
    r1: Option<DecodedMsgView>,
    r2: Option<DecodedMsgView>,
)
    requires
        r1 == parser_decode(p, msg_id, data),
        r2 == parser_decode(p, msg_id, data),
    ensures
        r1 == r2,
{
}

/// Relies on can_decode::Parser::from_dbc_file: reads a signal database
/// definition file from disk and parses it. The outcome depends on what
/// is on disk, so nothing is promised of which branch comes back.
#[verifier::external_body]
pub(crate) fn load_decoder(path: &str) -> (r: Option<can_decode::Parser>) {
    can_decode::Parser::from_dbc_file(std::path::Path::new(path)).ok()
}

/// Relies on can_decode::Parser::msg_defs, which hands out one copy of
/// each loaded message definition, and on can_dbc::MessageId::raw for
/// the numeric id each definition is registered under. The underlying
/// map is keyed by that raw id, so ids are distinct; its iteration
/// order is not fixed, so no order is stated.
#[verifier::external_body]
pub(crate) fn catalog(parser: &can_decode::Parser) -> (r: Vec<MessageDef>)
    ensures
        forall|i: int|
            0 <= i < r@.len() ==> parser_defs(*parser).contains_key(#[trigger] r@[i].id)
                && r@[i]@ == parser_defs(*parser)[r@[i].id],
        forall|i: int, j: int|
            0 <= i < r@.len() && 0 <= j < r@.len() && i != j ==> r@[i].id != r@[j].id,
        forall|id: u32| #[trigger]
            parser_defs(*parser).contains_key(id) ==> exists|i: int|
                0 <= i < r@.len() && r@[i].id == id,
{
    parser.msg_defs().into_iter().map(
        |m| MessageDef {
            id: m.id.raw(),
            extended: matches!(m.id, can_dbc::MessageId::Extended(_)),
            name: m.name,
            node: match m.transmitter {
                can_dbc::Transmitter::NodeName(n) => Some(n),
                can_dbc::Transmitter::VectorXXX => None,
            },
            size: m.size as usize,
            signals: m.signals.into_iter().map(|s| s.name).collect(),
        },
    ).collect()
}

/// Relies on can_decode::Parser::decode_msg: looks the id up among the
/// loaded definitions and decodes each declared signal, in declared
/// order, into a name-keyed insertion-ordered map, or returns `None`
/// for an unknown id or a payload the definition cannot decode. Each
/// physical value is rendered with its standard decimal formatting.
/// The result is a function of the decoder contents, the id and the
/// payload alone, which is what the name `parser_decode` claims.
#[verifier::external_body]
pub(crate) fn decode_msg(parser: &can_decode::Parser, msg_id: u32, data: &[u8]) -> (r: Option<DecodedMsg>)
    ensures
        opt_msg_view(r) == parser_decode(*parser, msg_id, data@),
        r matches Some(d) ==> d.msg_id == msg_id && d@.wf() && parser_defs(
            *parser,
        ).contains_key(msg_id) && d@.name == parser_defs(*parser)[msg_id].name,
        !parser_defs(*parser).contains_key(msg_id) ==> r is None,
{
    parser.decode_msg(msg_id, data).map(
        |d| DecodedMsg {
            msg_id: d.msg_id,
            name: d.name,
            is_extended: d.is_extended,
            tx_node: d.tx_node,
            signals: d.signals.into_iter().map(
                |(n, s)| SignalValue {
                    name: n,
                    value_text: format!("{}", s.value.physical),
                    unit: s.unit,
                },
            ).collect(),
        },
    )
}

} // verus!
