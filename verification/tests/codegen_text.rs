use opencan::cmessage::MessageCodegen;
use opencan::codegen::{codegen_possible, Args, Codegen};
use opencan::csignal::SignalCodegen;
use opencan::message::CANMessage;
use opencan::network::CANNetwork;
use opencan::signal::CANSignal;
use opencan::status::{MessageStatusCodegen, NodeStatusCodegen};

fn plain(name: &str, width: u32) -> CANSignal {
    CANSignal::builder().name(name).width(width).build().unwrap()
}

fn scaled(name: &str, width: u32) -> CANSignal {
    CANSignal::builder()
        .name(name)
        .width(width)
        .scale(Some("0.5".to_string()))
        .offset(Some("1".to_string()))
        .build()
        .unwrap()
}

fn enumerated(name: &str) -> CANSignal {
    CANSignal::builder()
        .name(name)
        .add_enumerated_value("OFF", 0)
        .unwrap()
        .add_enumerated_value("ON", 1)
        .unwrap()
        .infer_width()
        .unwrap()
        .build()
        .unwrap()
}

fn test_message() -> CANMessage {
    CANMessage::builder()
        .name("TESTTX_Msg")
        .id(0x10)
        .cycletime(Some(10))
        .tx_node("TESTTX")
        .add_signals(vec![plain("TESTTX_a", 8), scaled("TESTTX_b", 4), enumerated("TESTTX_c")])
        .unwrap()
        .build()
        .unwrap()
}

fn test_network() -> CANNetwork {
    let mut net = CANNetwork::new();
    net.add_node("TESTTX").unwrap();
    net.add_node("TESTRX").unwrap();
    net.insert_msg(test_message()).unwrap();
    net.set_message_rx_by_node("TESTTX_Msg", "TESTRX").unwrap();
    net
}

#[test]
fn message_names_and_types() {
    let m = test_message();
    assert_eq!(m.length, 2);
    assert_eq!(m.struct_ty(), "struct CAN_Message_TESTTX_Msg");
    assert_eq!(m.raw_struct_ty(), "struct CAN_MessageRaw_TESTTX_Msg");
    assert_eq!(m.global_struct_ident(), "CANRX_Message_TESTTX_Msg");
    assert_eq!(m.rx_fn_name(), "CANRX_doRx_TESTTX_Msg");
    assert_eq!(m.tx_fn_name(), "CANTX_doTx_TESTTX_Msg");
    assert_eq!(m.normalize_struct_signal_name("TESTTX_a"), "TESTTX_a");
}

#[test]
fn signal_types_and_expressions() {
    let m = test_message();
    let a = &m.signals[0].sig;
    let b = &m.signals[1].sig;
    let c = &m.signals[2].sig;
    assert_eq!(m.sig_ty_raw(a).to_text(), "uint8_t");
    assert_eq!(m.sig_ty_raw(c).to_text(), "bool");
    assert_eq!(m.sig_ty_decoded(a).to_text(), "uint8_t");
    assert_eq!(m.sig_ty_decoded(b).to_text(), "float");
    assert_eq!(m.sig_ty_decoded(c).to_text(), "enum CAN_TESTTX_c");
    assert_eq!(m.decoding_expression(a, "raw"), "raw");
    assert_eq!(m.decoding_expression(b, "raw"), "((float)(raw) * 0.5f) + 1f");
    assert_eq!(m.encoding_expression(b, "dec"), "(uint8_t)(((dec) - 1f) / 0.5f)");
    assert_eq!(m.getter_fn_name(a), "CANRX_get_TESTTX_a");
    assert_eq!(m.raw_getter_fn_name(a), "CANRX_getRaw_TESTTX_a");
    assert_eq!(m.c_enum(a), None);
    assert_eq!(
        m.c_enum(c).unwrap(),
        "enum CAN_TESTTX_c {\n    CAN_TESTTX_C_OFF = 0,\n    CAN_TESTTX_C_ON = 1,\n};"
    );
}

#[test]
fn status_function_names() {
    let net = test_network();
    let args = Args { node: "TESTRX".to_string(), tx_stubs: false, rx_callback_stubs: false };
    assert!(codegen_possible(&net, "TESTRX"));
    let cg = Codegen::new(args, &net, "opencan", "0.1.0", "unknown").unwrap();
    let m = net.message_by_name("TESTTX_Msg").unwrap();
    assert_eq!(cg.message_ok_fn_name(m), "CANRX_is_message_TESTTX_Msg_ok");
    assert_eq!(cg.message_ok_fn_decl(m), "bool CANRX_is_message_TESTTX_Msg_ok(void)");
    assert_eq!(cg.node_ok_fn_name("TESTTX"), "CANRX_is_node_TESTTX_ok");
    assert_eq!(cg.node_ok_fn_decls(), "bool CANRX_is_node_TESTTX_ok(void);");
    assert_eq!(cg.message_ok_fn_decls(), "bool CANRX_is_message_TESTTX_Msg_ok(void);");
}

#[test]
fn codegen_for_missing_node_is_refused() {
    let net = test_network();
    let args = Args { node: "NOPE".to_string(), tx_stubs: false, rx_callback_stubs: false };
    assert!(matches!(
        Codegen::new(args, &net, "opencan", "0.1.0", "unknown"),
        Err(opencan::codegen::CodegenError::NodeNotFound(n)) if n == "NOPE"
    ));
}

#[test]
fn generated_files_are_listed_c_then_h() {
    let net = test_network();
    let args = Args { node: "TESTRX".to_string(), tx_stubs: true, rx_callback_stubs: true };
    let out = Codegen::new(args, &net, "opencan", "0.1.0", "unknown").unwrap().network_to_c();
    let names: Vec<&str> = out.as_list().iter().map(|p| p.0).collect();
    assert_eq!(
        names,
        vec![
            "opencan_rx.c",
            "opencan_tx.c",
            "opencan_callbacks.h",
            "opencan_templates.h",
            "opencan_rx.h",
            "opencan_tx.h"
        ]
    );
    assert!(out.rx_c.contains("CANRX_doRx_TESTTX_Msg"));
    assert!(out.rx_h.contains("struct CAN_Message_TESTTX_Msg"));
    assert!(out.callbacks_h.contains(" * Node: TESTRX"));
    assert!(out.callbacks_h.contains("Generated by opencan v0.1.0 @ unknown"));
}

#[test]
fn codegen_readiness_of_simple_network() {
    let mut net = CANNetwork::new();
    net.add_node("A").unwrap();
    let m = CANMessage::builder().name("A_M").id(1).tx_node("A").build().unwrap();
    net.insert_msg(m).unwrap();
    assert!(codegen_possible(&net, "A"));
    assert!(codegen_possible(&net, "NOT_THERE"));
}

#[test]
fn codegen_readiness_refuses_wide_signal() {
    let mut net = CANNetwork::new();
    net.add_node("A").unwrap();
    let mut m = CANMessage::builder()
        .name("A_M")
        .id(1)
        .tx_node("A")
        .add_signal(plain("A_s", 8))
        .unwrap()
        .build()
        .unwrap();
    m.signals[0].sig.width = 65;
    net.insert_msg(m).unwrap();
    assert!(!codegen_possible(&net, "A"));
}

#[test]
fn encoding_undoes_decoding() {
    let sig = CANSignal::builder()
        .name("x")
        .width(8)
        .scale(Some("0.5".to_string()))
        .offset(Some("1.5".to_string()))
        .build()
        .unwrap();
    let m = CANMessage::builder().name("M").id(1).add_signal(sig).unwrap().build().unwrap();
    let s = &m.signals[0].sig;
    assert_eq!(m.decoding_expression(s, "r"), "((float)(r) * 0.5f) + 1.5f");
    assert_eq!(m.encoding_expression(s, "3.5f"), "(uint8_t)(((3.5f) - 1.5f) / 0.5f)");
}

#[test]
fn message_without_cycletime_gets_a_health_check() {
    let mut net = CANNetwork::new();
    net.add_node("TX").unwrap();
    net.add_node("RX").unwrap();
    let m = CANMessage::builder().name("TX_M").id(1).tx_node("TX").add_signal(plain("TX_a", 8)).unwrap().build().unwrap();
    net.insert_msg(m).unwrap();
    net.set_message_rx_by_node("TX_M", "RX").unwrap();
    let args = Args { node: "RX".to_string(), tx_stubs: false, rx_callback_stubs: false };
    let cg = Codegen::new(args, &net, "opencan", "0.1.0", "unknown").unwrap();
    assert_eq!(cg.message_ok_fn_decls(), "bool CANRX_is_message_TX_M_ok(void);");
    assert_eq!(
        cg.message_ok_fn_defs(),
        "bool CANRX_is_message_TX_M_ok(void) {\n    // Message has no cycletime, so it is not checked.\n    return true;\n}"
    );
}

#[test]
fn codegen_for_unsupported_message_is_not_ready() {
    let mut net = CANNetwork::new();
    net.add_node("A").unwrap();
    let mut m = CANMessage::builder()
        .name("A_M")
        .id(1)
        .tx_node("A")
        .add_signal(plain("A_s", 8))
        .unwrap()
        .build()
        .unwrap();
    m.signals[0].sig.width = 65;
    net.insert_msg(m).unwrap();
    let args = Args { node: "A".to_string(), tx_stubs: false, rx_callback_stubs: false };
    let cg = Codegen::new(args, &net, "opencan", "0.1.0", "unknown").unwrap();
    assert!(!cg.is_ready());
    assert!(cg.try_network_to_c().is_none());
}

#[test]
fn enumerated_signal_with_scale_has_enum_type() {
    let sig = CANSignal::builder()
        .name("e")
        .add_enumerated_value("OFF", 0)
        .unwrap()
        .add_enumerated_value("ON", 1)
        .unwrap()
        .infer_width()
        .unwrap()
        .scale(Some("2".to_string()))
        .build()
        .unwrap();
    let m = CANMessage::builder().name("M").id(1).add_signal(sig).unwrap().build().unwrap();
    let s = &m.signals[0].sig;
    assert_eq!(m.sig_ty_decoded(s).to_text(), "enum CAN_e");
    assert!(m.c_enum(s).is_some());
}

#[test]
fn enumerated_values_in_raw_value_order() {
    let sig = CANSignal::builder()
        .name("e")
        .add_enumerated_value("B", 2)
        .unwrap()
        .add_enumerated_value("A", 1)
        .unwrap()
        .add_enumerated_value("C", 0)
        .unwrap()
        .width(2)
        .build()
        .unwrap();
    assert_eq!(
        opencan::csignal::ordered_values(&sig),
        vec![("C".to_string(), 0), ("A".to_string(), 1), ("B".to_string(), 2)]
    );
}
