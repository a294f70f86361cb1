use can_daq::bootloader::Bootloader;
use can_daq::can::decoder::DecodedMsg;
use can_daq::can::decoder::SignalValue;
use can_daq::can::message::CanMessage;
use can_daq::can::message::ParsedMessage;
use can_daq::config::Rgba;
use can_daq::config::ThemeColors;
use can_daq::live_plot::LivePlot;
use can_daq::shortcuts::KeySnapshot;
use can_daq::shortcuts::ShortcutAction;
use can_daq::shortcuts::ShortcutHandler;
use can_daq::ui::can_viewer::CanViewer;
use can_daq::ui::log_parser::LogParser;
use can_daq::ui::viewer_list::ViewerList;
use can_daq::ui::viewer_table::ViewerTable;
use can_daq::widgets::Widget;

fn parsed(id: u32, t: i64) -> CanMessage {
    CanMessage::ParsedMessage(ParsedMessage {
        timestamp_ms: t,
        raw_bytes: vec![1, 2],
        tx_node: "ECU1".to_string(),
        decoded: DecodedMsg {
            msg_id: id,
            name: "MotorStatus".to_string(),
            is_extended: false,
            tx_node: "ECU1".to_string(),
            signals: vec![SignalValue {
                name: "Speed".to_string(),
                value_text: "5".to_string(),
                unit: "rpm".to_string(),
            }],
        },
    })
}

#[test]
fn widget_titles_carry_their_instance_numbers() {
    assert_eq!(Bootloader::new(1).title, "Bootloader #1");
    assert_eq!(LivePlot::new(2).title, "Live Plot #2");
    assert_eq!(CanViewer::new(3).title, "CAN Viewer #3");
    assert_eq!(ViewerList::new(4).title, "CAN Viewer Table #4");
    assert_eq!(ViewerTable::new(5).title, "CAN Viewer Table #5");
    assert_eq!(LogParser::new(6).title, "Log Parser #6");
}

#[test]
fn widget_dispatch_keeps_titles_and_routes_messages() {
    let mut w = Widget::ViewerList(ViewerList::new(1));
    assert_eq!(w.title(), "CAN Viewer Table #1");
    w.handle_can_message(&parsed(1, 0));
    match &w {
        Widget::ViewerList(v) => assert_eq!(v.decoded_msgs.len(), 1),
        _ => panic!("the variant does not change"),
    }

    let mut b = Widget::Bootloader(Bootloader::new(2));
    assert_eq!(b.title(), "Bootloader #2");
    b.handle_can_message(&parsed(1, 0));
    match &b {
        Widget::Bootloader(_) => {}
        _ => panic!("the variant does not change"),
    }
}

#[test]
fn can_viewer_keeps_the_most_recent_messages() {
    let mut v = CanViewer::new(1);
    for t in 0..1001i64 {
        v.handle_can_message(&parsed(1, t));
    }
    assert_eq!(v.decoded_msgs.len(), 1000);
    assert_eq!(v.decoded_msgs.front().unwrap().timestamp_ms, 1);
    assert_eq!(v.decoded_msgs.back().unwrap().timestamp_ms, 1000);
}

#[test]
fn viewer_list_caps_its_backlog() {
    let mut v = ViewerList::new(1);
    for t in 0..250i64 {
        v.handle_can_message(&parsed(1, t));
    }
    assert_eq!(v.decoded_msgs.len(), 199);
    assert_eq!(v.decoded_msgs.front().unwrap().timestamp_ms, 51);
    assert_eq!(v.decoded_msgs.back().unwrap().timestamp_ms, 249);
}

#[test]
fn a_paused_viewer_list_ignores_traffic() {
    let mut v = ViewerList::new(1);
    v.handle_can_message(&parsed(1, 0));
    v.paused = true;
    v.handle_can_message(&parsed(1, 1));
    assert_eq!(v.decoded_msgs.len(), 1);
}

#[test]
fn viewer_table_keeps_the_latest_message_per_id() {
    let mut v = ViewerTable::new(1);
    v.handle_can_message(&parsed(1, 10));
    v.handle_can_message(&parsed(2, 20));
    v.handle_can_message(&parsed(1, 30));
    assert_eq!(v.decoded_msgs.len(), 2);
    assert_eq!(v.decoded_msgs.get(&1).unwrap().timestamp_ms, 30);
    assert_eq!(v.decoded_msgs.get(&2).unwrap().timestamp_ms, 20);
}

#[test]
fn log_parser_tracks_the_picked_paths() {
    let mut lp = LogParser::new(1);
    assert!(!lp.ready_to_parse());
    lp.select_dbc("defs.dbc".to_string());
    lp.select_logs_dir("captures".to_string());
    assert!(!lp.ready_to_parse());
    lp.select_output_dir("out".to_string());
    assert!(lp.ready_to_parse());
    assert_eq!(lp.dbc_path.as_deref(), Some("defs.dbc"));
}

#[test]
fn shortcuts_need_the_command_modifier_alone() {
    let none = ShortcutHandler::check_shortcuts(KeySnapshot {
        command_only: false,
        s: true,
        w: true,
        equals: true,
        minus: true,
    });
    assert!(none.is_empty());

    let all = ShortcutHandler::check_shortcuts(KeySnapshot {
        command_only: true,
        s: true,
        w: true,
        equals: true,
        minus: true,
    });
    assert_eq!(
        all,
        vec![
            ShortcutAction::ToggleSidebar,
            ShortcutAction::CloseActiveWidget,
            ShortcutAction::IncreaseScale,
            ShortcutAction::DecreaseScale,
        ]
    );

    let close = ShortcutHandler::check_shortcuts(KeySnapshot {
        command_only: true,
        s: false,
        w: true,
        equals: false,
        minus: false,
    });
    assert_eq!(close, vec![ShortcutAction::CloseActiveWidget]);
}

#[test]
fn hex_colors_parse_by_shape() {
    assert_eq!(ThemeColors::parse_hex("#ff0000"), Rgba { r: 255, g: 0, b: 0, a: 255 });
    assert_eq!(ThemeColors::parse_hex("00ff00"), Rgba { r: 0, g: 255, b: 0, a: 255 });
    assert_eq!(ThemeColors::parse_hex("#11223344"), Rgba { r: 0x11, g: 0x22, b: 0x33, a: 0x44 });
    assert_eq!(ThemeColors::parse_hex("#ABCDEF"), Rgba { r: 0xAB, g: 0xCD, b: 0xEF, a: 255 });
    // An invalid digit zeroes its channel; a broken alpha reads opaque.
    assert_eq!(ThemeColors::parse_hex("zz1122"), Rgba { r: 0, g: 0x11, b: 0x22, a: 255 });
    assert_eq!(ThemeColors::parse_hex("112233zz"), Rgba { r: 0x11, g: 0x22, b: 0x33, a: 255 });
    // Any other length falls back to magenta.
    assert_eq!(ThemeColors::parse_hex("#123"), Rgba { r: 255, g: 0, b: 255, a: 255 });
    assert_eq!(ThemeColors::parse_hex(""), Rgba { r: 255, g: 0, b: 255, a: 255 });
}
