use opencan::analyze::Analyze;
use opencan::cantools::{bool_to_py, option_to_py, option_u32_to_py, CantoolsTranslator};
use opencan::ctext::indent;
use opencan::dbc::{DbcDesc, DbcImportError, DbcImporter, DbcMessage, DbcSignal};
use opencan::decode::{
    decode_signal_enumerated, decode_signal_exact, decoded_message_text, raw_value, RawSignalValue,
};
use opencan::message::CANMessage;
use opencan::network::CANNetwork;
use opencan::proto;
use opencan::signal::CANSignal;

#[test]
fn proto_texts() {
    let t = proto::CANValueTypeInteger { length: 5, signed: false };
    assert_eq!(t.to_text(), "u5");
    let t = proto::CANValueType::Integer(proto::CANValueTypeInteger { length: 12, signed: true });
    assert_eq!(t.to_text(), "s12");
    let s = proto::CANSignal {
        offset: -3,
        name: "VCFRONT_driverIsLeaving".to_string(),
        value_type: proto::CANValueType::Integer(proto::CANValueTypeInteger { length: 5, signed: false }),
    };
    assert_eq!(s.to_text(), "Signal `VCFRONT_driverIsLeaving`:\n  -> offset: -3,\n  -> type: u5");
    assert_eq!(
        proto::CANConstructionError::MessageIdAlreadyExists(0x2a).to_text(),
        "Message with id 0x2a already exists in network."
    );
}

fn proto_sig(name: &str, offset: i32) -> proto::CANSignal {
    proto::CANSignal {
        offset,
        name: name.to_string(),
        value_type: proto::CANValueType::Integer(proto::CANValueTypeInteger { length: 5, signed: false }),
    }
}

#[test]
fn proto_network_lookups_and_errors() {
    let mut net = proto::CANNetwork::new();
    let d = proto::CANMessageDesc {
        name: "VCFRONT_Occupancy".to_string(),
        id: 0x20,
        signals: vec![proto_sig("a", 0), proto_sig("b", 6)],
    };
    net.add_msg(d).unwrap();
    let m = net.message_by_name("VCFRONT_Occupancy").unwrap();
    assert_eq!(m.id(), 0x20);
    assert_eq!(m.get_sig("b").map(|s| s.offset), Some(6));
    assert_eq!(m.to_text(), "Message `VCFRONT_Occupancy`:\n  -> id: 32");
    assert_eq!(
        m.human_text(),
        "Message `VCFRONT_Occupancy`:\n  -> id: 32\n\n**** Signals: ****\n\nSignal `a`:\n  -> offset: 0,\n  -> type: u5\n\nSignal `b`:\n  -> offset: 6,\n  -> type: u5\n\n******************\n"
    );
    assert!(net.message_by_id(&0x20).is_some());

    let dup_id = proto::CANMessageDesc { name: "Other".to_string(), id: 0x20, signals: vec![] };
    assert!(matches!(net.add_msg(dup_id), Err(proto::CANConstructionError::MessageIdAlreadyExists(0x20))));
    let dup_name = proto::CANMessageDesc { name: "VCFRONT_Occupancy".to_string(), id: 0x21, signals: vec![] };
    assert!(matches!(
        net.add_msg(dup_name),
        Err(proto::CANConstructionError::MessageNameAlreadyExists(n)) if n == "VCFRONT_Occupancy"
    ));
    let dup_sig = proto::CANMessageDesc {
        name: "Third".to_string(),
        id: 0x22,
        signals: vec![proto_sig("x", 0), proto_sig("y", 1), proto_sig("x", 2)],
    };
    assert!(matches!(
        net.add_msg(dup_sig),
        Err(proto::CANConstructionError::SignalSpecifiedMultipleTimes(n)) if n == "x"
    ));
}

fn decode_message_fixture() -> CANMessage {
    let a = CANSignal::builder().name("sigA").width(4).build().unwrap();
    let b = CANSignal::builder().name("sigB").width(4).twos_complement(true).build().unwrap();
    let c = CANSignal::builder()
        .name("sigC")
        .add_enumerated_value("IDLE", 0)
        .unwrap()
        .add_enumerated_value("RUN", 2)
        .unwrap()
        .width(8)
        .build()
        .unwrap();
    CANMessage::builder().name("Dec").id(1).add_signals(vec![a, b, c]).unwrap().build().unwrap()
}

#[test]
fn decode_raw_values_and_text() {
    let m = decode_message_fixture();
    let data = [0xF3u8, 0x02];
    let ra = raw_value(&m.signals[0], &data);
    let rb = raw_value(&m.signals[1], &data);
    let rc = raw_value(&m.signals[2], &data);
    assert!(matches!(ra, RawSignalValue::Unsigned(3)));
    assert!(matches!(rb, RawSignalValue::Signed(-1)));
    assert!(matches!(rc, RawSignalValue::Unsigned(2)));
    assert_eq!(rb.to_u64(), u64::MAX);
    assert_eq!(decode_signal_exact(&m.signals[0].sig, &ra).as_deref(), Some("3"));
    assert_eq!(decode_signal_exact(&m.signals[1].sig, &rb).as_deref(), Some("-1"));
    assert_eq!(decode_signal_exact(&m.signals[2].sig, &rc).as_deref(), Some("RUN"));
    assert_eq!(decode_signal_enumerated(&m.signals[2], &data), "RUN");
    assert_eq!(decode_signal_enumerated(&m.signals[2], &[0x00, 0x05]), "(internal error)");
    let values = vec!["3".to_string(), "-1".to_string(), "RUN".to_string()];
    assert_eq!(decoded_message_text(&m, &values), "\nsigA:   3\nsigB:   -1\nsigC:   RUN\n");
}

#[test]
fn decode_scaled_signal_is_left_to_floating_point() {
    let s = CANSignal::builder().name("s").width(8).scale(Some("0.1".to_string())).build().unwrap();
    assert_eq!(decode_signal_exact(&s, &RawSignalValue::Unsigned(7)), None);
}

fn dbc_sig(name: &str, start_bit: u64, size: u64) -> DbcSignal {
    DbcSignal { name: name.to_string(), start_bit, size }
}

#[test]
fn dbc_import_orders_signals_by_start_bit() {
    let d = DbcDesc {
        nodes: vec!["A".to_string(), "B".to_string()],
        messages: vec![DbcMessage {
            name: "M1".to_string(),
            id: 0x100,
            signals: vec![dbc_sig("s2", 8, 8), dbc_sig("s1", 0, 4)],
        }],
    };
    let mut net = CANNetwork::new();
    DbcImporter::import_desc(d, &mut net).unwrap();
    assert!(net.node_by_name("A").is_some());
    assert!(net.node_by_name("B").is_some());
    let m = net.message_by_id(&0x100).unwrap();
    assert_eq!(m.name, "M1");
    let names: Vec<&str> = m.signals.iter().map(|s| s.sig.name.as_str()).collect();
    assert_eq!(names, vec!["s1", "s2"]);
    assert_eq!(m.length, 2);
}

#[test]
fn dbc_import_errors() {
    let zero = DbcDesc {
        nodes: vec![],
        messages: vec![DbcMessage { name: "M".to_string(), id: 1, signals: vec![dbc_sig("z", 0, 0)] }],
    };
    let mut net = CANNetwork::new();
    assert!(matches!(
        DbcImporter::import_desc(zero, &mut net),
        Err(DbcImportError::Construction(opencan::error::CANConstructionError::SignalHasZeroWidth(n))) if n == "z"
    ));
    let mut net = CANNetwork::new();
    assert!(matches!(
        DbcImporter::import_network("this is not a DBC file".to_string(), &mut net),
        Err(DbcImportError::InvalidDbc)
    ));
    assert!(net.nodes().is_empty());
}

#[test]
fn dbc_import_error_values() {
    let overlap = DbcDesc {
        nodes: vec![],
        messages: vec![DbcMessage {
            name: "M".to_string(),
            id: 1,
            signals: vec![dbc_sig("b", 4, 8), dbc_sig("a", 0, 8)],
        }],
    };
    let mut net = CANNetwork::new();
    assert!(matches!(
        DbcImporter::import_desc(overlap, &mut net),
        Err(DbcImportError::Construction(opencan::error::CANConstructionError::SignalsOverlap(l, n, 4)))
            if l == "a" && n == "b"
    ));
    let far = DbcDesc {
        nodes: vec![],
        messages: vec![DbcMessage { name: "M".to_string(), id: 1, signals: vec![dbc_sig("far", 4294967295, 2)] }],
    };
    let mut net = CANNetwork::new();
    assert!(matches!(
        DbcImporter::import_desc(far, &mut net),
        Err(DbcImportError::SignalOutOfRange(n)) if n == "far"
    ));
    assert_eq!(
        DbcImportError::SignalOutOfRange("far".to_string()).to_text(),
        "Signal `far` ends beyond the 32-bit range of start bits."
    );
    assert_eq!(DbcImportError::InvalidDbc.to_text(), "Could not parse DBC file.");
    let nodes = DbcDesc { nodes: vec!["N".to_string(), "N".to_string()], messages: vec![] };
    let mut net = CANNetwork::new();
    assert!(matches!(
        DbcImporter::import_desc(nodes, &mut net),
        Err(DbcImportError::Construction(opencan::error::CANConstructionError::NodeAlreadyExists(n))) if n == "N"
    ));
    assert_eq!(net.nodes().len(), 1);
    let second_fails = DbcDesc {
        nodes: vec!["N".to_string()],
        messages: vec![
            DbcMessage { name: "First".to_string(), id: 1, signals: vec![dbc_sig("a", 0, 8)] },
            DbcMessage { name: "Second".to_string(), id: 1, signals: vec![] },
        ],
    };
    let mut net = CANNetwork::new();
    assert!(matches!(
        DbcImporter::import_desc(second_fails, &mut net),
        Err(DbcImportError::Construction(opencan::error::CANConstructionError::MessageIdAlreadyExists(1)))
    ));
    assert_eq!(net.nodes().len(), 1);
    assert!(net.message_by_name("First").is_some());
    assert!(net.message_by_name("Second").is_none());
    let bad_name = DbcDesc {
        nodes: vec![],
        messages: vec![DbcMessage { name: "a-b".to_string(), id: 1, signals: vec![] }],
    };
    let mut net = CANNetwork::new();
    assert!(matches!(
        DbcImporter::import_desc(bad_name, &mut net),
        Err(DbcImportError::Construction(opencan::error::CANConstructionError::MessageNameInvalidChar(n, '-')))
            if n == "a-b"
    ));
}

#[test]
fn dbc_import_from_text() {
    let text = "VERSION \"\"\n\nNS_ :\n\nBS_:\n\nBU_: A B\n\nBO_ 256 M1: 8 A\n SG_ s2 : 8|8@1+ (1,0) [0|255] \"\" B\n SG_ s1 : 0|4@1+ (1,0) [0|15] \"\" B\n\n";
    let mut net = CANNetwork::new();
    DbcImporter::import_network(text.to_string(), &mut net).unwrap();
    assert_eq!(net.nodes().len(), 2);
    let m = net.message_by_name("M1").unwrap();
    assert_eq!(m.id, 256);
    let starts: Vec<u32> = m.signals.iter().map(|s| s.start()).collect();
    assert_eq!(starts, vec![0, 8]);
}

#[test]
fn bus_usage_counts() {
    let mut net = CANNetwork::new();
    let s = CANSignal::builder().name("s").width(16).build().unwrap();
    let m = CANMessage::builder().name("M").id(1).cycletime(Some(10)).add_signal(s).unwrap().build().unwrap();
    net.insert_msg(m).unwrap();
    let m2 = CANMessage::builder().name("N").id(2).build().unwrap();
    net.insert_msg(m2).unwrap();
    let a = Analyze::new(&net);
    assert_eq!(a.bus_usage(), (100, 7300));
    assert_eq!(a.checked_bus_usage(), Some((100, 7300)));
}

#[test]
fn bus_usage_of_zero_cycle_time_is_refused() {
    let mut net = CANNetwork::new();
    let m = CANMessage::builder().name("M").id(1).cycletime(Some(0)).build().unwrap();
    net.insert_msg(m).unwrap();
    assert_eq!(Analyze::new(&net).checked_bus_usage(), None);
}

#[test]
fn python_helpers() {
    assert_eq!(option_to_py(&Some("0.5".to_string())), "0.5");
    assert_eq!(option_to_py(&None), "None");
    assert_eq!(option_u32_to_py(&Some(12)), "12");
    assert_eq!(bool_to_py(true), "True");
    assert_eq!(bool_to_py(false), "False");
}

#[test]
fn text_indent_prefixes_nonempty_lines() {
    assert_eq!(indent("a\n\nb", 2), "  a\n\n  b");
}

#[test]
fn cantools_dump_of_network() {
    let mut net = CANNetwork::new();
    net.add_node("TX").unwrap();
    let s = CANSignal::builder().name("TX_s").width(4).description(Some("it's".to_string())).build().unwrap();
    let m = CANMessage::builder().name("TX_M").id(0x10).tx_node("TX").add_signal(s).unwrap().build().unwrap();
    net.insert_msg(m).unwrap();
    let ct = CantoolsTranslator::new(&net);
    let mt = ct.dump_message(net.message_by_name("TX_M").unwrap());
    assert!(mt.starts_with("cantools.database.can.Message(\n    name = \"TX_M\",\n    frame_id = 0x10,\n    length = 1,\n    senders = ['TX'],\n    cycle_time = None,\n    signals = [\n"));
    assert!(mt.ends_with("\n    ]\n)\n"));
    let py = CantoolsTranslator::translate(&net);
    assert!(py.contains("\"it's\""));
}

#[test]
fn defaults_are_empty() {
    let net = CANNetwork::default();
    assert!(net.messages().is_empty());
    assert!(net.nodes().is_empty());
    assert_eq!(net.bitrate(), None);
    assert!(matches!(
        opencan::ymlfmt::RxListOrDirective::default(),
        opencan::ymlfmt::RxListOrDirective::List(l) if l.is_empty()
    ));
}
