use opencan::error::CANConstructionError;
use opencan::message::{CANMessage, CANMessageBuilder};
use opencan::network::CANNetwork;
use opencan::signal::{CANSignal, CANSignalBuilder};

fn new_sig() -> CANSignalBuilder {
    CANSignal::builder()
}

fn new_msg() -> CANMessageBuilder {
    CANMessage::builder()
}

fn basic_sig(name: &str) -> CANSignal {
    new_sig().name(name).width(1).build().unwrap()
}

fn basic_msg(sigs: Vec<CANSignal>) -> CANMessage {
    new_msg()
        .name("TestMessage")
        .id(0)
        .add_signals(sigs)
        .unwrap()
        .build()
        .unwrap()
}

fn sig_name(msg: &CANMessage, name: &str) -> Option<String> {
    msg.get_sig(name).map(|s| s.sig.name.clone())
}

#[test]
fn basic_sig_lookup() {
    // empty
    let msg = basic_msg(vec![]);
    assert!(matches!(msg.get_sig("sigA"), None));

    // one signal
    let msg = basic_msg(vec![basic_sig("sigA")]);
    assert_eq!(sig_name(&msg, "sigA").as_deref(), Some("sigA"));
    assert!(matches!(msg.get_sig("siga"), None));

    // three signals
    let msg = basic_msg(vec![basic_sig("sigA"), basic_sig("sigB"), basic_sig("sigC")]);
    assert_eq!(sig_name(&msg, "sigA").as_deref(), Some("sigA"));
    assert_eq!(sig_name(&msg, "sigB").as_deref(), Some("sigB"));
    assert_eq!(sig_name(&msg, "sigC").as_deref(), Some("sigC"));
    assert!(matches!(msg.get_sig("sigD"), None));
}

#[test]
fn message_name_chars() {
    let try_msg = |name: &str| -> Result<_, CANConstructionError> {
        new_msg().name(name).id(0x10).build()
    };

    // Invalid characters
    let invalid_names = ["test!", "!!!", "test.", ".test", "."];
    for name in invalid_names {
        assert!(matches!(
            try_msg(name),
            Err(CANConstructionError::MessageNameInvalidChar(..))
        ));
    }

    // Valid names
    let valid_names = ["test", "0", "_test_", "_", "___", "THING1_THING2"];
    for name in valid_names {
        assert!(matches!(try_msg(name), Ok(_)));
    }

    // Empty name
    assert!(matches!(
        try_msg(""),
        Err(CANConstructionError::MessageNameEmpty)
    ));
}

#[test]
fn sigs_specified_in_order() {
    let sig1 = basic_sig("sig1");
    let sig2 = basic_sig("sig2");
    let sigs = vec![(5, sig1), (0, sig2)];

    assert!(matches!(
        new_msg()
            .name("TestMessage")
            .id(0x10)
            .add_signals_fixed(sigs),
        Err(CANConstructionError::MessageSignalsOutOfOrder(..))
    ));
}

#[test]
fn unique_sig_names() {
    assert!(matches!(
        new_msg()
            .name("TestMessage")
            .id(0x10)
            .add_signal(basic_sig("sigA"))
            .unwrap()
            .add_signal(basic_sig("sigA")),
        Err(CANConstructionError::SignalNameAlreadyExists(..))
    ));
}

#[test]
fn node_name_unique() {
    let mut net = CANNetwork::new();

    assert!(matches!(net.add_node("TEST"), Ok(..)));
    assert!(matches!(net.add_node("test"), Ok(..)));
    assert!(matches!(
        net.add_node("TEST"),
        Err(CANConstructionError::NodeAlreadyExists(t)) if t == "TEST"));
}

#[test]
fn signal_width_zero() {
    let try_sig = |width| -> Result<_, CANConstructionError> {
        new_sig().name("testSignal").width(width).build()
    };

    assert!(matches!(
        try_sig(0),
        Err(CANConstructionError::SignalHasZeroWidth(..))
    ));

    assert!(matches!(try_sig(1), Ok(..)));
}

#[test]
fn signal_width_nonexistent() {
    assert!(matches!(
        new_sig().name("testSignal").width(1).build(),
        Ok(..)
    ));

    assert!(matches!(
        new_sig().name("testSignal").build(),
        Err(CANConstructionError::UninitializedFieldError(s)) if s == "width"
    ));
}

#[test]
fn signal_width_inference() {
    let base_sig = || new_sig().name("testSignal");

    // nothing given except name
    assert!(matches!(
        base_sig().infer_width(),
        Err(CANConstructionError::SignalWidthInferenceFailed(..))
    ));

    // width already specified
    assert!(matches!(base_sig().width(1).infer_width(), Ok(..)));

    // width already specified, strict
    assert!(matches!(
        base_sig().width(1).infer_width_strict(),
        Err(CANConstructionError::SignalWidthAlreadySpecified(..))
    ));
}

#[test]
fn test_message_name_chars() {
    let try_msg = |name: &str| -> Result<_, CANConstructionError> {
        CANMessage::builder()
            .name(name)
            .id(0x10)
            .cycletime(None)
            .build()
    };

    // Invalid characters
    let invalid_names = ["test!", "!!!", "test.", ".test", "."];
    for name in invalid_names {
        assert!(matches!(
            try_msg(name),
            Err(CANConstructionError::MessageNameInvalidChar(..))
        ));
    }

    // Valid names
    let valid_names = ["test", "0", "_test_", "_", "___", "THING1_THING2"];
    for name in valid_names {
        assert!(matches!(try_msg(name), Ok(_)));
    }

    // Empty name
    assert!(matches!(
        try_msg(""),
        Err(CANConstructionError::MessageNameEmpty)
    ));
}

#[test]
fn test_repeated_sig_name() {
    let sig1 = CANSignal::builder()
        .name("testsig")
        .width(1)
        .build()
        .unwrap();
    let sig2 = CANSignal::builder()
        .name("testsig")
        .width(1)
        .build()
        .unwrap();
    let sig3 = CANSignal::builder()
        .name("testsig")
        .width(1)
        .build()
        .unwrap();

    CANMessage::builder()
        .name("TestMessage")
        .id(0x10)
        .add_signal(sig1)
        .expect("Expected CANMessageBuilder");

    assert!(matches!(
        CANMessage::builder()
            .name("TestMessage")
            .id(0x10)
            .add_signal(sig2)
            .unwrap()
            .add_signal(sig3),
        Err(CANConstructionError::SignalNameAlreadyExists(..))
    ));
}

#[test]
fn test_sig_specified_in_order() {
    let sig1 = CANSignal::builder()
        .name("sig1")
        .width(1)
        .build()
        .unwrap();
    let sig2 = CANSignal::builder()
        .name("sig2")
        .width(1)
        .build()
        .unwrap();
    let sigs = vec![(5, sig1), (0, sig2)];
    assert!(matches!(
        CANMessage::builder()
            .name("TestMessage")
            .id(0x10)
            .add_signals_fixed(sigs),
        Err(CANConstructionError::MessageSignalsOutOfOrder(..))
    ));
}

#[test]
fn test_signal_width_nonzero() {
    let try_sig = |width| -> Result<_, CANConstructionError> {
        CANSignal::builder().name("testSignal").width(width).build()
    };

    assert!(matches!(
        try_sig(0),
        Err(CANConstructionError::SignalHasZeroWidth(..))
    ));

    assert!(matches!(try_sig(1), Ok(..)));
}

#[test]
fn test_signal_width_inference() {
    let base_sig = || CANSignal::builder().name("testSignal");

    // nothing given except name
    assert!(matches!(
        base_sig().infer_width(),
        Err(CANConstructionError::SignalWidthInferenceFailed(..))
    ));

    // width already specified
    assert!(matches!(base_sig().width(1).infer_width(), Ok(..)));

    // width already specified, strict
    assert!(matches!(
        base_sig().width(1).infer_width_strict(),
        Err(CANConstructionError::SignalWidthAlreadySpecified(..))
    ));
}

#[test]
fn test_signal_width_nonexistent() {
    assert!(matches!(
        CANSignal::builder().name("testSignal").width(1).build(),
        Ok(..)
    ));

    assert!(matches!(
        CANSignal::builder().name("testSignal").build(),
        Err(CANConstructionError::UninitializedFieldError(s)) if s == "width"
    ));
}

#[test]
fn signal_at_last_start_bit_does_not_fit() {
    let sig = CANSignal::builder().name("s").width(2).build().unwrap();
    let r = CANMessage::builder().name("M").id(1).add_signal_fixed(u32::MAX, sig);
    assert!(matches!(
        r,
        Err(CANConstructionError::SignalWillNotFitInMessage(n, 0, 63)) if n == "s"
    ));
}

#[test]
fn construction_error_texts() {
    assert_eq!(
        CANConstructionError::MessageIdAlreadyExists(0x1f).to_text(),
        "Message with id 0x1f already exists in network."
    );
    assert_eq!(
        CANConstructionError::SignalWidthInferenceFailed(Some("s".to_string())).to_text(),
        "Unable to infer width of signal `s`"
    );
    assert_eq!(
        CANConstructionError::SignalsOverlap("a".to_string(), "b".to_string(), 4).to_text(),
        "Signals `a` and `b` overlap at bit 4."
    );
    assert_eq!(
        CANConstructionError::EnumeratedValueValueAlreadyNamed("A".to_string(), 1).to_text(),
        "Enumerated value `1` already named as `A`; values can only be named once"
    );
    assert_eq!(
        CANConstructionError::MessageNameInvalidChar("a-b".to_string(), '-').to_text(),
        "Message name `a-b` includes invalid character `-`."
    );
}
