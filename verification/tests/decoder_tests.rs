use can_daq::can::state::CanAction;
use can_daq::can::state::CanEvent;
use can_daq::can::state::ConnPhase;
use can_daq::can::state::State;
use can_daq::logs::consts::MSG_BYTE_LEN;
use can_daq::logs::parse::decode_log_record;
use can_daq::logs::table::OutputEvent;
use can_daq::logs::table::TableBuilder;
use can_daq::logs::table::TableHeader;

fn dbc_text() -> String {
    [
        "VERSION \"0.1\"",
        "",
        "NS_ :",
        "",
        "BS_:",
        "",
        "BU_: ECU1",
        "",
        "BO_ 291 MotorStatus: 2 ECU1",
        "    SG_ Speed : 0|8@1+ (1,0) [0|255] \"rpm\" ECU1",
        "    SG_ Torque : 8|8@1+ (1,0) [0|255] \"Nm\" ECU1",
        "",
        "BO_ 512 BrakeStatus: 1 ECU1",
        "    SG_ Pressure : 0|8@1+ (1,0) [0|255] \"bar\" ECU1",
        "",
    ]
    .join("\n")
}

fn parser() -> can_decode::Parser {
    let mut p = can_decode::Parser::new();
    p.add_from_str(&dbc_text()).expect("the definition text parses");
    p
}

fn record_bytes(t: u32, logged_id: u32, data: &[u8]) -> Vec<u8> {
    let mut b = vec![0u8];
    b.extend_from_slice(&t.to_le_bytes());
    b.extend_from_slice(&logged_id.to_le_bytes());
    b.push(0);
    b.push(data.len() as u8);
    b.extend_from_slice(data);
    while b.len() < MSG_BYTE_LEN {
        b.push(0);
    }
    b
}

#[test]
fn decoding_a_logged_record_yields_named_signals() {
    let p = parser();
    let b = record_bytes(5, 0x123, &[10, 20]);
    let lm = decode_log_record(&p, &b).expect("record decodes");
    assert_eq!(lm.timestamp, 5);
    assert_eq!(lm.decoded.msg_id, 0x123);
    assert_eq!(lm.decoded.name, "MotorStatus");
    assert_eq!(lm.decoded.tx_node, "ECU1");
    assert_eq!(lm.decoded.signals.len(), 2);
    assert_eq!(lm.decoded.signals[0].name, "Speed");
    assert_eq!(lm.decoded.signals[0].value_text, "10");
    assert_eq!(lm.decoded.signals[0].unit, "rpm");
    assert_eq!(lm.decoded.signals[1].name, "Torque");
    assert_eq!(lm.decoded.signals[1].value_text, "20");
}

#[test]
fn decoding_the_same_record_twice_yields_identical_content() {
    let p = parser();
    let b = record_bytes(7, 0x123, &[1, 2]);
    let lm1 = decode_log_record(&p, &b).expect("record decodes");
    let lm2 = decode_log_record(&p, &b).expect("record decodes");
    assert_eq!(lm1.timestamp, lm2.timestamp);
    assert_eq!(lm1.decoded.msg_id, lm2.decoded.msg_id);
    assert_eq!(lm1.decoded.name, lm2.decoded.name);
    assert_eq!(lm1.decoded.tx_node, lm2.decoded.tx_node);
    assert_eq!(lm1.decoded.signals.len(), lm2.decoded.signals.len());
    for (s1, s2) in lm1.decoded.signals.iter().zip(lm2.decoded.signals.iter()) {
        assert_eq!(s1.name, s2.name);
        assert_eq!(s1.value_text, s2.value_text);
        assert_eq!(s1.unit, s2.unit);
    }
}

#[test]
fn an_unknown_id_is_not_decoded() {
    let p = parser();
    let b = record_bytes(5, 0x400, &[1]);
    assert!(decode_log_record(&p, &b).is_none());
}

#[test]
fn a_malformed_record_is_not_decoded() {
    let p = parser();
    let mut b = record_bytes(5, 0x123, &[1, 2]);
    b[10] = 9;
    assert!(decode_log_record(&p, &b).is_none());
}

#[test]
fn headers_from_separate_decoders_of_one_database_agree() {
    let h1 = TableHeader::create(&parser());
    let h2 = TableHeader::create(&parser());
    assert_eq!(h1.bus_row, h2.bus_row);
    assert_eq!(h1.node_row, h2.node_row);
    assert_eq!(h1.message_row, h2.message_row);
    assert_eq!(h1.signal_row, h2.signal_row);
    assert_eq!(h1.columns, h2.columns);
    assert_eq!(h1.message_row, vec!["Message", "MotorStatus", "MotorStatus", "BrakeStatus"]);
    assert_eq!(h1.signal_row, vec!["Signal", "Speed", "Torque", "Pressure"]);
}

#[test]
fn two_file_capture_yields_one_table_with_two_rows() {
    let p = parser();
    // One record at t=0 in the first capture file, one at t=20 in the
    // second; the gap stays below the rotation threshold.
    let first = record_bytes(0, 0x123, &[10, 20]);
    let second = record_bytes(20, 0x123, &[30, 40]);
    let mut builder = TableBuilder::from_decoder(&p);
    let mut events = Vec::new();
    for bytes in [first, second] {
        let lm = decode_log_record(&p, &bytes).expect("record decodes");
        events.extend(builder.push(&lm));
    }
    events.extend(builder.finish());

    let names: Vec<&String> = events
        .iter()
        .filter_map(|e| match e {
            OutputEvent::NewFile(n) => Some(n),
            OutputEvent::Line(_) => None,
        })
        .collect();
    assert_eq!(names, vec!["out_0.csv"]);

    let lines: Vec<&String> = events
        .iter()
        .filter_map(|e| match e {
            OutputEvent::Line(l) => Some(l),
            OutputEvent::NewFile(_) => None,
        })
        .collect();
    assert_eq!(
        lines,
        vec![
            "Bus,Main,Main,Main\n",
            "Node,ECU1,ECU1,ECU1\n",
            "Message,MotorStatus,MotorStatus,BrakeStatus\n",
            "Signal,Speed,Torque,Pressure\n",
            "0.00000,10,20,\n",
            "0.01500,30,40,\n",
        ]
    );
}

#[test]
fn acquisition_walks_its_connection_phases() {
    let mut st = State::new();
    assert_eq!(st.phase, ConnPhase::Disconnected);
    assert!(!st.is_connected);
    assert!(st.parser.is_none());

    match st.step(CanEvent::ConnectAttempted) {
        CanAction::Idle => {}
        _ => panic!("a connection attempt asks for nothing"),
    }
    assert_eq!(st.phase, ConnPhase::Connecting);

    st.step(CanEvent::PortOpened);
    assert_eq!(st.phase, ConnPhase::Connected);
    assert!(st.is_connected);

    match st.step(CanEvent::ReadTimedOut) {
        CanAction::Idle => {}
        _ => panic!("a timeout asks for nothing"),
    }
    assert_eq!(st.phase, ConnPhase::Connected);

    match st.step(CanEvent::ReadFailed) {
        CanAction::TearDown => {}
        _ => panic!("a fatal read error tears the connection down"),
    }
    assert_eq!(st.phase, ConnPhase::Faulted);
    assert!(!st.is_connected);

    st.step(CanEvent::ConnectAttempted);
    assert_eq!(st.phase, ConnPhase::Connecting);
}

#[test]
fn a_received_frame_is_decoded_and_emitted() {
    let mut st = State::new();
    st.step(CanEvent::ConnectAttempted);
    st.step(CanEvent::PortOpened);

    match st.step(CanEvent::FrameReceived(false, 0x123, vec![1, 2])) {
        CanAction::Idle => {}
        _ => panic!("without a decoder the frame is dropped"),
    }

    st.parser = Some(parser());
    match st.step(CanEvent::FrameReceived(false, 0x123, vec![1, 2])) {
        CanAction::Emit(msg) => {
            assert_eq!(msg.decoded.name, "MotorStatus");
            assert_eq!(msg.decoded.signals[0].value_text, "1");
            assert_eq!(msg.decoded.signals[1].value_text, "2");
            assert_eq!(msg.raw_bytes, vec![1, 2]);
            assert_eq!(msg.tx_node, "ECU1");
        }
        _ => panic!("a known frame is emitted"),
    }

    match st.step(CanEvent::FrameReceived(false, 0x400, vec![1])) {
        CanAction::Idle => {}
        _ => panic!("an unknown frame is dropped"),
    }
}

#[test]
fn a_failed_connection_backs_off_and_may_synthesize() {
    let mut st = State::new();
    st.step(CanEvent::ConnectAttempted);
    match st.step(CanEvent::ConnectFailed) {
        CanAction::Backoff(fake) => assert!(fake.is_none()),
        _ => panic!("a failed connection backs off"),
    }
    assert_eq!(st.phase, ConnPhase::Disconnected);

    st.parser = Some(parser());
    st.step(CanEvent::ConnectAttempted);
    match st.step(CanEvent::ConnectFailed) {
        CanAction::Backoff(Some(pm)) => {
            match pm.decoded.msg_id {
                0x123 => {
                    assert_eq!(pm.decoded.name, "MotorStatus");
                    assert_eq!(pm.raw_bytes.len(), 2);
                }
                0x200 => {
                    assert_eq!(pm.decoded.name, "BrakeStatus");
                    assert_eq!(pm.raw_bytes.len(), 1);
                }
                other => panic!("fake frame for unknown id {other}"),
            }
        }
        CanAction::Backoff(None) => {}
        _ => panic!("a failed connection backs off"),
    }
}

#[test]
fn a_reload_request_with_a_broken_path_keeps_the_decoder() {
    let mut st = State::new();
    match st.step(CanEvent::ReloadRequested("/no/such/definition.dbc".to_string())) {
        CanAction::Idle => {}
        _ => panic!("a reload asks for nothing"),
    }
    assert!(st.parser.is_none());
}
