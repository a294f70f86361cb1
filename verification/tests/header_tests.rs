use can_daq::can::decoder::MessageDef;
use can_daq::logs::table::TableHeader;

fn def(id: u32, name: &str, node: Option<&str>, signals: &[&str]) -> MessageDef {
    MessageDef {
        id,
        extended: false,
        name: name.to_string(),
        node: node.map(|n| n.to_string()),
        size: 8,
        signals: signals.iter().map(|s| s.to_string()).collect(),
    }
}

fn sample_catalog() -> Vec<MessageDef> {
    vec![
        def(0x200, "BrakeStatus", Some("ECU2"), &["Pressure"]),
        def(0x123, "MotorStatus", Some("ECU1"), &["Speed", "Torque"]),
        def(0x300, "NoSender", None, &["Raw"]),
    ]
}

fn permuted_catalog() -> Vec<MessageDef> {
    vec![
        def(0x300, "NoSender", None, &["Raw"]),
        def(0x123, "MotorStatus", Some("ECU1"), &["Speed", "Torque"]),
        def(0x200, "BrakeStatus", Some("ECU2"), &["Pressure"]),
    ]
}

#[test]
fn header_orders_messages_by_id_and_signals_as_declared() {
    let h = TableHeader::build(sample_catalog());
    assert_eq!(h.bus_row, vec!["Bus", "Main", "Main", "Main", "Main"]);
    assert_eq!(h.node_row, vec!["Node", "ECU1", "ECU1", "ECU2", "N/A"]);
    assert_eq!(
        h.message_row,
        vec!["Message", "MotorStatus", "MotorStatus", "BrakeStatus", "NoSender"]
    );
    assert_eq!(h.signal_row, vec!["Signal", "Speed", "Torque", "Pressure", "Raw"]);
    assert_eq!(h.columns.len(), 4);
    assert_eq!(h.columns[0], ("MotorStatus".to_string(), "Speed".to_string()));
    assert_eq!(h.columns[3], ("NoSender".to_string(), "Raw".to_string()));
}

#[test]
fn header_construction_is_deterministic() {
    let h1 = TableHeader::build(sample_catalog());
    let h2 = TableHeader::build(sample_catalog());
    assert_eq!(h1.bus_row, h2.bus_row);
    assert_eq!(h1.node_row, h2.node_row);
    assert_eq!(h1.message_row, h2.message_row);
    assert_eq!(h1.signal_row, h2.signal_row);
    assert_eq!(h1.columns, h2.columns);
}

#[test]
fn header_does_not_depend_on_catalog_enumeration_order() {
    let h1 = TableHeader::build(sample_catalog());
    let h2 = TableHeader::build(permuted_catalog());
    assert_eq!(h1.node_row, h2.node_row);
    assert_eq!(h1.message_row, h2.message_row);
    assert_eq!(h1.signal_row, h2.signal_row);
    assert_eq!(h1.columns, h2.columns);
}

#[test]
fn repeated_signal_names_claim_one_column() {
    let h = TableHeader::build(vec![def(1, "M", None, &["A", "B", "A"])]);
    assert_eq!(h.signal_row, vec!["Signal", "A", "B"]);
    assert_eq!(h.columns.len(), 2);
}

#[test]
fn find_column_returns_the_claimed_cell() {
    let h = TableHeader::build(sample_catalog());
    assert_eq!(h.find_column(&"MotorStatus".to_string(), &"Speed".to_string()), Some(1));
    assert_eq!(h.find_column(&"MotorStatus".to_string(), &"Torque".to_string()), Some(2));
    assert_eq!(h.find_column(&"BrakeStatus".to_string(), &"Pressure".to_string()), Some(3));
    assert_eq!(h.find_column(&"NoSender".to_string(), &"Raw".to_string()), Some(4));
    assert_eq!(h.find_column(&"MotorStatus".to_string(), &"Pressure".to_string()), None);
}
