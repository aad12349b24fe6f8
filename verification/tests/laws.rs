use opencan::codegen::sort_pairs;
use opencan::cmessage::bit_chunks;
use opencan::error::CANConstructionError;
use opencan::message::{CANMessage, CANMessageBuilder};
use opencan::network::CANNetwork;
use opencan::signal::CANSignal;

fn sig(name: &str, width: u32) -> CANSignal {
    CANSignal::builder().name(name).width(width).build().unwrap()
}

fn msg(name: &str, id: u32, sigs: Vec<CANSignal>) -> CANMessage {
    CANMessage::builder()
        .name(name)
        .id(id)
        .add_signals(sigs)
        .unwrap()
        .build()
        .unwrap()
}

#[test]
fn length_of_full_frame_is_eight_bytes() {
    let m = msg("Full", 1, vec![sig("a", 40), sig("b", 24)]);
    assert_eq!(m.length, 8);
    let m = msg("Part", 2, vec![sig("a", 9)]);
    assert_eq!(m.length, 2);
    let m = msg("Empty", 3, vec![]);
    assert_eq!(m.length, 0);
}

#[test]
fn signals_past_the_frame_are_refused() {
    let r = CANMessage::builder()
        .name("Over")
        .id(1)
        .add_signals(vec![sig("a", 60), sig("b", 5)]);
    assert!(matches!(
        r,
        Err(CANConstructionError::SignalWillNotFitInMessage(n, 64, 63)) if n == "b"
    ));
}

#[test]
fn signals_are_laid_out_back_to_back() {
    let m = msg("Packed", 1, vec![sig("a", 3), sig("b", 5), sig("c", 8)]);
    let starts: Vec<u32> = m.signals.iter().map(|s| s.start()).collect();
    assert_eq!(starts, vec![0, 3, 8]);
    let names: Vec<&str> = m.signals.iter().map(|s| s.sig.name.as_str()).collect();
    assert_eq!(names, vec!["a", "b", "c"]);
}

#[test]
fn added_signal_is_found_at_its_start_bit() {
    let b: CANMessageBuilder = CANMessage::builder()
        .name("Fixed")
        .id(1)
        .add_signal_fixed(10, sig("x", 4))
        .unwrap();
    let m = b.add_signal(sig("y", 2)).unwrap().build().unwrap();
    assert_eq!(m.get_sig("x").map(|s| s.start()), Some(10));
    assert_eq!(m.get_sig("y").map(|s| s.start()), Some(14));
    assert_eq!(m.get_sig("x").map(|s| s.end()), Some(13));
}

#[test]
fn overlapping_signal_is_refused() {
    let r = CANMessage::builder()
        .name("Overlap")
        .id(1)
        .add_signal_fixed(0, sig("x", 8))
        .unwrap()
        .add_signal_fixed(4, sig("y", 2));
    assert!(matches!(
        r,
        Err(CANConstructionError::SignalsOverlap(a, b, 4)) if a == "x" && b == "y"
    ));
}

#[test]
fn inserted_message_is_found_by_name_and_id() {
    let mut net = CANNetwork::new();
    net.insert_msg(msg("First", 0x10, vec![sig("a", 1)])).unwrap();
    net.insert_msg(msg("Second", 0x20, vec![])).unwrap();
    assert_eq!(net.message_by_name("First").map(|m| m.id), Some(0x10));
    assert_eq!(net.message_by_id(&0x20).map(|m| m.name.clone()), Some("Second".to_string()));
    assert!(net.message_by_name("Third").is_none());
    assert!(net.message_by_id(&0x30).is_none());
}

#[test]
fn refused_message_leaves_network_unchanged() {
    let mut net = CANNetwork::new();
    net.insert_msg(msg("First", 0x10, vec![])).unwrap();
    assert!(matches!(
        net.insert_msg(msg("First", 0x11, vec![])),
        Err(CANConstructionError::MessageNameAlreadyExists(n)) if n == "First"
    ));
    assert!(matches!(
        net.insert_msg(msg("Other", 0x10, vec![])),
        Err(CANConstructionError::MessageIdAlreadyExists(0x10))
    ));
    assert_eq!(net.messages().len(), 1);
    assert_eq!(net.message_by_id(&0x10).map(|m| m.name.clone()), Some("First".to_string()));
}

#[test]
fn message_of_unknown_node_is_refused() {
    let mut net = CANNetwork::new();
    let m = CANMessage::builder().name("M").id(1).tx_node("NODE").build().unwrap();
    assert!(matches!(
        net.insert_msg(m),
        Err(CANConstructionError::NodeDoesNotExist(n)) if n == "NODE"
    ));
}

#[test]
fn added_node_is_found_and_lists_its_messages() {
    let mut net = CANNetwork::new();
    net.add_node("TX").unwrap();
    net.add_node("RX").unwrap();
    let m = CANMessage::builder().name("TX_Msg").id(5).tx_node("TX").build().unwrap();
    net.insert_msg(m).unwrap();
    net.set_message_rx_by_node("TX_Msg", "RX").unwrap();
    assert_eq!(net.node_by_name("RX").map(|n| n.name.clone()), Some("RX".to_string()));
    let tx: Vec<String> = net.tx_messages_by_node("TX").unwrap().iter().map(|m| m.name.clone()).collect();
    assert_eq!(tx, vec!["TX_Msg".to_string()]);
    let rx: Vec<String> = net.rx_messages_by_node("RX").unwrap().iter().map(|m| m.name.clone()).collect();
    assert_eq!(rx, vec!["TX_Msg".to_string()]);
    assert!(net.rx_messages_by_node("NOPE").is_none());
    assert!(matches!(
        net.set_message_rx_by_node("Nope", "RX"),
        Err(CANConstructionError::MessageDoesNotExist(n)) if n == "Nope"
    ));
}

#[test]
fn sorting_orders_by_key_and_keeps_ties_in_order() {
    let v = vec![
        ("b".to_string(), "1".to_string()),
        ("a".to_string(), "2".to_string()),
        ("b".to_string(), "0".to_string()),
        ("ab".to_string(), "3".to_string()),
    ];
    let r = sort_pairs(v);
    let seconds: Vec<&str> = r.iter().map(|p| p.1.as_str()).collect();
    assert_eq!(seconds, vec!["2", "3", "1", "0"]);
}

#[test]
fn inferred_width_is_the_fewest_bits() {
    let b = CANSignal::builder()
        .name("s")
        .add_enumerated_value_inferred("A")
        .unwrap()
        .add_enumerated_value_inferred("B")
        .unwrap()
        .add_enumerated_value_inferred("C")
        .unwrap();
    let s = b.infer_width().unwrap().build().unwrap();
    assert_eq!(s.width, 2);
    assert_eq!(s.enumerated_values.get_by_left("C"), Some(&2));

    let s = CANSignal::builder()
        .name("t")
        .add_enumerated_value("HIGH", 8)
        .unwrap()
        .infer_width()
        .unwrap()
        .build()
        .unwrap();
    assert_eq!(s.width, 4);
}

#[test]
fn inferred_value_is_one_past_the_highest() {
    let s = CANSignal::builder()
        .name("s")
        .add_enumerated_value("X", 5)
        .unwrap()
        .add_enumerated_value_inferred("Y")
        .unwrap()
        .width(8)
        .build()
        .unwrap();
    assert_eq!(s.enumerated_values.get_by_left("Y"), Some(&6));
}

#[test]
fn enumerated_names_and_values_are_unique() {
    let b = CANSignal::builder().name("s").add_enumerated_value("X", 1).unwrap();
    assert!(matches!(
        b.add_enumerated_value("X", 2),
        Err(CANConstructionError::EnumeratedValueNameAlreadyExists(n, 1)) if n == "X"
    ));
    let b = CANSignal::builder().name("s").add_enumerated_value("X", 1).unwrap();
    assert!(matches!(
        b.add_enumerated_value("Y", 1),
        Err(CANConstructionError::EnumeratedValueValueAlreadyNamed(n, 1)) if n == "X"
    ));
}

#[test]
fn chunks_cover_the_signal_byte_by_byte() {
    let c = bit_chunks(3, 12);
    let got: Vec<(u32, u32, u32, u32)> = c.iter().map(|k| (k.byte, k.shift, k.len, k.sig_pos)).collect();
    assert_eq!(got, vec![(0, 3, 5, 0), (1, 0, 5, 5)]);
    let c = bit_chunks(8, 23);
    let got: Vec<(u32, u32, u32, u32)> = c.iter().map(|k| (k.byte, k.shift, k.len, k.sig_pos)).collect();
    assert_eq!(got, vec![(1, 0, 8, 0), (2, 0, 8, 8)]);
}
