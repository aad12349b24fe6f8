use opencan::codegen::{Args, Codegen};
use opencan::compose::ComposeError;
use opencan::decode::{raw_value, RawSignalValue};
use opencan::error::CANConstructionError;
use opencan::network::CANNetwork;
use opencan::ymlfmt::{
    RxDirective, RxListOrDirective, YDesc, YEnumeratedValue, YMessage, YMessageTemplate, YNode, YSignal,
};

fn ysig(width: Option<u32>, start_bit: Option<u32>) -> YSignal {
    YSignal {
        width,
        start_bit,
        description: None,
        twos_complement: false,
        scale: None,
        offset: None,
        unit: None,
        enumerated_values: vec![],
    }
}

fn ymsg(id: u32, signals: Vec<(&str, YSignal)>) -> YMessage {
    YMessage {
        id,
        from_template: None,
        cycletime: Some(10),
        signals: Some(signals.into_iter().map(|(n, s)| vec![(n.to_string(), s)]).collect()),
    }
}

fn ynode(messages: Vec<(&str, YMessage)>, rx: RxListOrDirective) -> YNode {
    YNode { messages: messages.into_iter().map(|(n, m)| vec![(n.to_string(), m)]).collect(), rx }
}

fn ydesc(nodes: Vec<(&str, YNode)>, templates: Vec<(&str, YMessageTemplate)>) -> YDesc {
    YDesc {
        nodes: nodes.into_iter().map(|(n, y)| vec![(n.to_string(), y)]).collect(),
        message_templates: templates.into_iter().map(|(n, t)| vec![(n.to_string(), t)]).collect(),
        bitrate: Some(500000),
        include_files: vec![],
        lookup_path: String::new(),
    }
}

fn basic_desc(rx: RxListOrDirective) -> YDesc {
    ydesc(
        vec![
            (
                "TX",
                ynode(
                    vec![("Status", ymsg(0x10, vec![("a", ysig(Some(8), None)), ("b", ysig(Some(4), Some(12)))]))],
                    RxListOrDirective::List(vec![]),
                ),
            ),
            ("RX", ynode(vec![], rx)),
        ],
        vec![],
    )
}

#[test]
fn compose_basic_network() {
    let net = basic_desc(RxListOrDirective::Directive(RxDirective::Everything))
        .try_into_network(CANNetwork::new())
        .unwrap()
        .unwrap();
    assert_eq!(net.bitrate(), Some(500000));
    let m = net.message_by_name("TX_Status").unwrap();
    assert_eq!(m.id, 0x10);
    assert_eq!(m.tx_node.as_deref(), Some("TX"));
    assert_eq!(m.length, 2);
    assert_eq!(m.get_sig("TX_a").map(|s| s.start()), Some(0));
    assert_eq!(m.get_sig("TX_b").map(|s| s.start()), Some(12));
    let rx: Vec<String> = net.rx_messages_by_node("RX").unwrap().iter().map(|m| m.name.clone()).collect();
    assert_eq!(rx, vec!["TX_Status".to_string()]);
}

#[test]
fn compose_with_rx_list_and_into_network() {
    let net = basic_desc(RxListOrDirective::List(vec!["TX_Status".to_string()]))
        .into_network(CANNetwork::new())
        .unwrap();
    assert_eq!(net.rx_messages_by_node("RX").unwrap().len(), 1);
}

#[test]
fn compose_unknown_rx_message_is_an_error() {
    let r = basic_desc(RxListOrDirective::List(vec!["Nope".to_string()]))
        .try_into_network(CANNetwork::new())
        .unwrap();
    match r {
        Err(ComposeError::Context(text, inner)) => {
            assert_eq!(text, "Could not add rx message `Nope` to node `RX`");
            assert!(matches!(
                *inner,
                ComposeError::Construction(CANConstructionError::MessageDoesNotExist(n)) if n == "Nope"
            ));
        }
        _ => panic!("expected an error with context"),
    }
}

#[test]
fn compose_repeated_rx_is_refused() {
    let r = basic_desc(RxListOrDirective::List(vec!["TX_Status".to_string(), "TX_Status".to_string()]))
        .try_into_network(CANNetwork::new());
    assert!(r.is_none());
}

#[test]
fn compose_repeated_node_is_an_error() {
    let d = ydesc(
        vec![
            ("A", ynode(vec![], RxListOrDirective::List(vec![]))),
            ("A", ynode(vec![], RxListOrDirective::List(vec![]))),
        ],
        vec![],
    );
    assert!(matches!(
        d.try_into_network(CANNetwork::new()),
        Some(Err(ComposeError::Construction(CANConstructionError::NodeAlreadyExists(n)))) if n == "A"
    ));
}

#[test]
fn compose_multi_entry_node_map_is_refused() {
    let mut d = basic_desc(RxListOrDirective::List(vec![]));
    d.nodes[0].push(("EXTRA".to_string(), ynode(vec![], RxListOrDirective::List(vec![]))));
    assert!(d.try_into_network(CANNetwork::new()).is_none());
}

#[test]
fn compose_from_template() {
    let t = YMessageTemplate {
        cycletime: Some(100),
        signals: vec![vec![("x".to_string(), ysig(Some(3), None))], vec![("y".to_string(), ysig(Some(5), None))]],
    };
    let inst = YMessage { id: 0x20, from_template: Some("Tmpl".to_string()), cycletime: None, signals: None };
    let d = ydesc(vec![("N", ynode(vec![("Inst", inst)], RxListOrDirective::List(vec![])))], vec![("Tmpl", t)]);
    let net = d.try_into_network(CANNetwork::new()).unwrap().unwrap();
    let t = net.template_message_by_name("Tmpl").unwrap();
    assert_eq!(t.cycletime, Some(100));
    let m = net.message_by_name("N_Inst").unwrap();
    assert_eq!(m.id, 0x20);
    assert_eq!(m.get_sig("N_x").map(|s| s.start()), Some(0));
    assert_eq!(m.get_sig("N_y").map(|s| s.start()), Some(3));
}

#[test]
fn compose_unknown_template_is_an_error() {
    let inst = YMessage { id: 0x20, from_template: Some("Nope".to_string()), cycletime: None, signals: None };
    let d = ydesc(vec![("N", ynode(vec![("Inst", inst)], RxListOrDirective::List(vec![])))], vec![]);
    match d.try_into_network(CANNetwork::new()) {
        Some(Err(ComposeError::Context(text, inner))) => {
            assert_eq!(text, "Could not build node `N`");
            assert!(matches!(*inner, ComposeError::Message(m) if m == "No template named `Nope` in network."));
        }
        _ => panic!("expected an error"),
    }
}

#[test]
fn compose_signal_with_enumerated_values_infers_width() {
    let mut s = ysig(None, None);
    s.enumerated_values = vec![
        YEnumeratedValue::Auto("A".to_string()),
        YEnumeratedValue::Exact(vec![("B".to_string(), 6)]),
        YEnumeratedValue::Auto("C".to_string()),
    ];
    let sig = s.to_signal("sig").unwrap();
    assert_eq!(sig.width, 3);
    assert_eq!(sig.enumerated_values.get_by_left("C"), Some(&7));
}

#[test]
fn compose_overflowing_enumerated_value_is_refused() {
    let mut s = ysig(Some(64), None);
    s.enumerated_values = vec![
        YEnumeratedValue::Exact(vec![("MAX".to_string(), u64::MAX)]),
        YEnumeratedValue::Auto("NEXT".to_string()),
    ];
    assert!(s.checked_to_signal("sig").is_none());
}

#[test]
fn compose_invalid_message_name_is_an_error() {
    let d = ydesc(
        vec![("N", ynode(vec![("Bad.Name", ymsg(1, vec![]))], RxListOrDirective::List(vec![])))],
        vec![],
    );
    assert!(matches!(d.try_into_network(CANNetwork::new()), Some(Err(_))));
}

fn context_layers(e: ComposeError) -> (Vec<String>, ComposeError) {
    let mut layers = vec![];
    let mut cur = e;
    loop {
        match cur {
            ComposeError::Context(t, inner) => {
                layers.push(t);
                cur = *inner;
            }
            other => return (layers, other),
        }
    }
}

#[test]
fn compose_error_names_the_first_bad_character() {
    let d = ydesc(
        vec![("N", ynode(vec![("Bad.Name", ymsg(1, vec![]))], RxListOrDirective::List(vec![])))],
        vec![],
    );
    let e = match d.try_into_network(CANNetwork::new()) {
        Some(Err(e)) => e,
        _ => panic!("expected an error"),
    };
    let (layers, root) = context_layers(e);
    assert_eq!(layers, vec!["Could not build node `N`".to_string(), "Could not build message `N_Bad.Name`".to_string()]);
    assert!(matches!(root, ComposeError::Construction(CANConstructionError::MessageNameInvalidChar(n, '.')) if n == "N_Bad.Name"));
}

#[test]
fn signal_repeated_enumerated_name_error() {
    let mut s = ysig(Some(4), None);
    s.enumerated_values = vec![YEnumeratedValue::Auto("A".to_string()), YEnumeratedValue::Auto("A".to_string())];
    assert!(matches!(
        s.to_signal("sig"),
        Err(ComposeError::Construction(CANConstructionError::EnumeratedValueNameAlreadyExists(n, 0))) if n == "A"
    ));
}

#[test]
fn signal_repeated_enumerated_value_error() {
    let mut s = ysig(Some(4), None);
    s.enumerated_values = vec![
        YEnumeratedValue::Exact(vec![("A".to_string(), 1)]),
        YEnumeratedValue::Exact(vec![("B".to_string(), 1)]),
    ];
    assert!(matches!(
        s.to_signal("sig"),
        Err(ComposeError::Construction(CANConstructionError::EnumeratedValueValueAlreadyNamed(n, 1))) if n == "A"
    ));
}

#[test]
fn signal_zero_width_error() {
    let s = ysig(Some(0), None);
    let (layers, root) = context_layers(s.to_signal("sig").err().unwrap());
    assert_eq!(layers, vec!["Could not build signal `sig`".to_string()]);
    assert!(matches!(root, ComposeError::Construction(CANConstructionError::SignalHasZeroWidth(n)) if n == "sig"));
}

#[test]
fn signal_width_inference_error() {
    let s = ysig(None, None);
    assert!(matches!(
        s.to_signal("sig"),
        Err(ComposeError::Construction(CANConstructionError::SignalWidthInferenceFailed(Some(n)))) if n == "sig"
    ));
}

#[test]
fn compose_overlapping_signals_error() {
    let d = ydesc(
        vec![(
            "TX",
            ynode(
                vec![("M", ymsg(1, vec![("a", ysig(Some(8), None)), ("b", ysig(Some(4), Some(4)))]))],
                RxListOrDirective::List(vec![]),
            ),
        )],
        vec![],
    );
    let e = match d.try_into_network(CANNetwork::new()) {
        Some(Err(e)) => e,
        _ => panic!("expected an error"),
    };
    let (layers, root) = context_layers(e);
    assert_eq!(
        layers,
        vec![
            "Could not build node `TX`".to_string(),
            "Could not populate signals for message `TX_M`".to_string(),
            "Could not add signal `b`.".to_string(),
        ]
    );
    assert!(matches!(
        root,
        ComposeError::Construction(CANConstructionError::SignalsOverlap(l, n, 4)) if n == "TX_b" && l == "TX_a"
    ));
}

#[test]
fn message_id_lookup() {
    let d = ydesc(
        vec![
            (
                "TESTTX",
                ynode(
                    vec![
                        ("Message1", ymsg(0x10, vec![("testSignal", ysig(Some(1), None))])),
                        ("Message2", ymsg(0x11, vec![("testSignal2", ysig(Some(1), None))])),
                    ],
                    RxListOrDirective::List(vec![]),
                ),
            ),
            (
                "TESTRX",
                ynode(
                    vec![],
                    RxListOrDirective::List(vec!["TESTTX_Message1".to_string(), "TESTTX_Message2".to_string()]),
                ),
            ),
        ],
        vec![],
    );
    let net = d.into_network(CANNetwork::new()).unwrap();
    let args = Args { node: "TESTRX".to_string(), tx_stubs: false, rx_callback_stubs: false };
    let out = Codegen::new(args, &net, "opencan", "0.1.0", "unknown").unwrap().network_to_c();
    let lookup = "rx_fn_ptr CANRX_id_to_rx_fn(const uint32_t id)\n{\n    switch (id) {\n        \
case 0x10U: return CANRX_doRx_TESTTX_Message1;\n        \
case 0x11U: return CANRX_doRx_TESTTX_Message2;\n        \
default:\n            return NULL;\n    }\n}";
    assert!(out.rx_c.contains(lookup));
    assert!(!out.rx_c.contains("case 0x99U"));
}

#[test]
fn test_decode_with_trait() {
    let d = ydesc(
        vec![
            ("TESTTX", ynode(vec![("TestMessage", ymsg(0x10, vec![("testSignal", ysig(Some(4), None))]))], RxListOrDirective::List(vec![]))),
            ("TESTRX", ynode(vec![], RxListOrDirective::List(vec!["TESTTX_TestMessage".to_string()]))),
        ],
        vec![],
    );
    let net = d.into_network(CANNetwork::new()).unwrap();
    let msg = net.message_by_name("TESTTX_TestMessage").unwrap();
    assert!(msg.signals.len() == 1);
    let sigbit = &msg.signals[0];
    assert_eq!(sigbit.sig.name, "TESTTX_testSignal");
    assert!(matches!(raw_value(sigbit, &[0xFA]), RawSignalValue::Unsigned(0xA)));
}

#[test]
fn compose_error_layer_texts() {
    let d = ydesc(
        vec![("N", ynode(vec![("Bad.Name", ymsg(1, vec![]))], RxListOrDirective::List(vec![])))],
        vec![],
    );
    let e = match d.try_into_network(CANNetwork::new()) {
        Some(Err(e)) => e,
        _ => panic!("expected an error"),
    };
    assert_eq!(
        e.layers(),
        vec![
            "Could not build node `N`".to_string(),
            "Could not build message `N_Bad.Name`".to_string(),
            "Message name `N_Bad.Name` includes invalid character `.`.".to_string(),
        ]
    );
}
