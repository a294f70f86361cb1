use can_daq::can::decoder::DecodedMsg;
use can_daq::can::decoder::MessageDef;
use can_daq::can::decoder::SignalValue;
use can_daq::logs::parse::LogMessage;
use can_daq::logs::table::OutputEvent;
use can_daq::logs::table::TableBuilder;

fn one_signal_catalog() -> Vec<MessageDef> {
    vec![MessageDef {
        id: 0x123,
        extended: false,
        name: "MotorStatus".to_string(),
        node: Some("ECU1".to_string()),
        size: 1,
        signals: vec!["Speed".to_string()],
    }]
}

fn motor_msg(t: u32, speed: &str) -> LogMessage {
    LogMessage {
        timestamp: t,
        decoded: DecodedMsg {
            msg_id: 0x123,
            name: "MotorStatus".to_string(),
            is_extended: false,
            tx_node: "ECU1".to_string(),
            signals: vec![SignalValue {
                name: "Speed".to_string(),
                value_text: speed.to_string(),
                unit: "rpm".to_string(),
            }],
        },
    }
}

fn new_file_names(events: &[OutputEvent]) -> Vec<String> {
    events
        .iter()
        .filter_map(|e| match e {
            OutputEvent::NewFile(name) => Some(name.clone()),
            OutputEvent::Line(_) => None,
        })
        .collect()
}

fn lines(events: &[OutputEvent]) -> Vec<String> {
    events
        .iter()
        .filter_map(|e| match e {
            OutputEvent::Line(s) => Some(s.clone()),
            OutputEvent::NewFile(_) => None,
        })
        .collect()
}

#[test]
fn first_message_opens_the_first_file_with_headers() {
    let mut b = TableBuilder::new(one_signal_catalog());
    let ev = b.push(&motor_msg(100, "5"));
    assert_eq!(new_file_names(&ev), vec!["out_0.csv"]);
    let ls = lines(&ev);
    assert_eq!(
        ls,
        vec!["Bus,Main\n", "Node,ECU1\n", "Message,MotorStatus\n", "Signal,Speed\n"]
    );
}

#[test]
fn backward_jump_starts_a_new_file() {
    let mut b = TableBuilder::new(one_signal_catalog());
    let mut names = Vec::new();
    for t in [100u32, 200, 50] {
        names.extend(new_file_names(&b.push(&motor_msg(t, "1"))));
    }
    assert_eq!(names, vec!["out_0.csv", "out_1.csv"]);
}

#[test]
fn forward_gap_at_the_threshold_starts_a_new_file() {
    let mut b = TableBuilder::new(one_signal_catalog());
    let mut names = Vec::new();
    for t in [100u32, 400100] {
        names.extend(new_file_names(&b.push(&motor_msg(t, "1"))));
    }
    assert_eq!(names, vec!["out_0.csv", "out_1.csv"]);

    let mut c = TableBuilder::new(one_signal_catalog());
    let mut more = Vec::new();
    for t in [100u32, 300100, 600099] {
        more.extend(new_file_names(&c.push(&motor_msg(t, "1"))));
    }
    // 300100 is a gap of exactly the threshold; 600099 falls short of it.
    assert_eq!(more, vec!["out_0.csv", "out_1.csv"]);
}

#[test]
fn messages_land_in_the_bin_holding_their_timestamp() {
    let mut b = TableBuilder::new(one_signal_catalog());
    b.push(&motor_msg(1007, "9"));
    let ls = lines(&b.finish());
    assert_eq!(ls, vec!["1.00500,9\n"]);

    let mut c = TableBuilder::new(one_signal_catalog());
    c.push(&motor_msg(1005, "4"));
    assert_eq!(lines(&c.finish()), vec!["1.00500,4\n"]);

    let mut d = TableBuilder::new(one_signal_catalog());
    d.push(&motor_msg(990, "3"));
    assert_eq!(lines(&d.finish()), vec!["0.99000,3\n"]);
}

#[test]
fn crossing_a_bin_boundary_flushes_the_pending_row() {
    let mut b = TableBuilder::new(one_signal_catalog());
    let ev0 = b.push(&motor_msg(0, "1"));
    assert_eq!(lines(&ev0).len(), 4);
    let ev1 = b.push(&motor_msg(20, "2"));
    assert_eq!(lines(&ev1), vec!["0.00000,1\n"]);
    assert!(new_file_names(&ev1).is_empty());
    assert_eq!(lines(&b.finish()), vec!["0.01500,2\n"]);
}

#[test]
fn a_gap_of_several_bins_emits_one_row_per_boundary() {
    let mut b = TableBuilder::new(one_signal_catalog());
    b.push(&motor_msg(0, "1"));
    let ev = b.push(&motor_msg(47, "2"));
    assert_eq!(lines(&ev), vec!["0.00000,1\n", "0.01500,\n", "0.03000,\n"]);
    assert_eq!(lines(&b.finish()), vec!["0.04500,2\n"]);
}

#[test]
fn rotation_drops_the_pending_row() {
    let mut b = TableBuilder::new(one_signal_catalog());
    b.push(&motor_msg(0, "1"));
    let ev = b.push(&motor_msg(400000, "2"));
    assert_eq!(new_file_names(&ev), vec!["out_1.csv"]);
    // Only the fresh header rows: the unflushed row of the old file is
    // not carried over.
    assert_eq!(lines(&ev).len(), 4);
    assert_eq!(lines(&b.finish()), vec!["399.99000,2\n"]);
}

#[test]
fn a_signal_missing_from_the_header_is_skipped() {
    let mut b = TableBuilder::new(one_signal_catalog());
    let mut msg = motor_msg(0, "1");
    msg.decoded.signals.push(SignalValue {
        name: "Unknown".to_string(),
        value_text: "7".to_string(),
        unit: "".to_string(),
    });
    b.push(&msg);
    assert_eq!(lines(&b.finish()), vec!["0.00000,1\n"]);
}

#[test]
fn finishing_without_input_writes_nothing() {
    let b = TableBuilder::new(one_signal_catalog());
    assert!(b.finish().is_empty());
}
