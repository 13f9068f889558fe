use fedimint_client_wasm::{
    error_envelope, Capability, ClientHandle, Entry, FaultySink, FixedHandler, JoinError, Produced,
    RecordingSink, WasmClient,
};

fn entry(
    module: &str,
    method: &str,
    required: Capability,
    items: Vec<Produced>,
) -> Entry<FixedHandler> {
    Entry {
        module: module.to_string(),
        method: method.to_string(),
        required,
        handler: FixedHandler { items },
    }
}

fn all_caps() -> ClientHandle {
    ClientHandle {
        capabilities: vec![Capability::Lightning, Capability::Mint, Capability::ClientCore],
    }
}

fn built_in_client(balance_items: Vec<Produced>) -> WasmClient<FixedHandler> {
    let handlers = vec![
        entry("lightning", "pay_bolt11_invoice", Capability::Lightning, vec![]),
        entry("mint", "reissue_external_notes", Capability::Mint, vec![]),
        entry("client", "balance", Capability::ClientCore, balance_items),
    ];
    match WasmClient::join_federation(all_caps(), handlers) {
        Ok(c) => c,
        Err(_) => panic!("construction failed"),
    }
}

#[test]
fn open_returns_none() {
    assert!(WasmClient::<FixedHandler>::open().is_none());
}

#[test]
fn duplicate_handler_rejected_at_construction() {
    let handlers = vec![
        entry("mint", "reissue_external_notes", Capability::Mint, vec![]),
        entry("mint", "reissue_external_notes", Capability::Mint, vec![]),
    ];
    let r = WasmClient::join_federation(all_caps(), handlers);
    assert!(matches!(r, Err(JoinError::DuplicateHandler)));
}

#[test]
fn missing_capability_rejected_at_construction() {
    let handlers = vec![entry("lightning", "pay_bolt11_invoice", Capability::Lightning, vec![])];
    let client = ClientHandle { capabilities: vec![Capability::Mint] };
    let r = WasmClient::join_federation(client, handlers);
    assert!(matches!(r, Err(JoinError::MissingCapability)));
}

#[test]
fn join_error_messages() {
    assert_eq!(
        JoinError::DuplicateHandler.message(),
        "two handlers registered under one (module, method)"
    );
    assert_eq!(
        JoinError::MissingCapability.message(),
        "a handler requires a capability the client cannot supply"
    );
}

#[test]
fn unknown_method_delivers_one_error_envelope() {
    let client = built_in_client(vec![]);
    let mut sink = RecordingSink::new();
    client.rpc("mint", "no_such_method", "{}", &mut sink);
    assert_eq!(
        sink.received,
        vec![r#"{"error":"handler not found: mint/no_such_method"}"#.to_string()]
    );
}

#[test]
fn malformed_body_delivers_one_parse_error_envelope() {
    let client = built_in_client(vec![]);
    let mut sink = RecordingSink::new();
    client.rpc("lightning", "pay_bolt11_invoice", "{not json", &mut sink);
    assert_eq!(sink.received.len(), 1);
    assert!(sink.received[0].starts_with(r#"{"error":"could not parse request body: "#));
    assert!(sink.received[0].ends_with(r#""}"#));
}

#[test]
fn balance_success_delivers_exactly_one_item() {
    let client = built_in_client(vec![Produced::Item(r#"{"msat":1234}"#.to_string())]);
    let mut sink = RecordingSink::new();
    client.rpc("client", "balance", "{}", &mut sink);
    assert_eq!(sink.received, vec![r#"{"msat":1234}"#.to_string()]);
}

#[test]
fn multi_item_stream_preserves_order() {
    let client = built_in_client(vec![
        Produced::Item(r#"{"step":1}"#.to_string()),
        Produced::Item(r#"{"step":2}"#.to_string()),
        Produced::Item(r#"{"step":3}"#.to_string()),
    ]);
    let mut sink = RecordingSink::new();
    client.rpc("client", "balance", "{}", &mut sink);
    assert_eq!(
        sink.received,
        vec![
            r#"{"step":1}"#.to_string(),
            r#"{"step":2}"#.to_string(),
            r#"{"step":3}"#.to_string(),
        ]
    );
}

#[test]
fn failure_mid_stream_becomes_error_envelope() {
    let client = built_in_client(vec![
        Produced::Item(r#"{"step":1}"#.to_string()),
        Produced::Failure("boom".to_string()),
    ]);
    let mut sink = RecordingSink::new();
    client.rpc("client", "balance", "{}", &mut sink);
    assert_eq!(
        sink.received,
        vec![r#"{"step":1}"#.to_string(), r#"{"error":"boom"}"#.to_string()]
    );
}

#[test]
fn callback_fault_does_not_stop_the_stream() {
    let client = built_in_client(vec![
        Produced::Item(r#"{"step":1}"#.to_string()),
        Produced::Item(r#"{"step":2}"#.to_string()),
        Produced::Item(r#"{"step":3}"#.to_string()),
    ]);
    let mut sink = FaultySink { received: vec![], faults: vec![false, true, false] };
    client.rpc("client", "balance", "{}", &mut sink);
    assert_eq!(
        sink.received,
        vec![
            r#"{"step":1}"#.to_string(),
            r#"{"step":2}"#.to_string(),
            r#"{"step":3}"#.to_string(),
        ]
    );
}

#[test]
fn empty_stream_delivers_nothing() {
    let client = built_in_client(vec![]);
    let mut sink = RecordingSink::new();
    client.rpc("client", "balance", "{}", &mut sink);
    assert!(sink.received.is_empty());
}

#[test]
fn error_envelope_escapes_quotes_and_backslashes() {
    let env = error_envelope("say \"hi\" \\ done");
    assert_eq!(env, r#"{"error":"say \"hi\" \\ done"}"#);
}

#[test]
fn error_envelope_escapes_control_characters() {
    let env = error_envelope("line\nbreak\ttab\u{1}end");
    assert_eq!(env, r#"{"error":"line\nbreak\ttab\u0001end"}"#);
}

#[test]
fn delivered_envelopes_parse_as_json_objects() {
    let client = built_in_client(vec![
        Produced::Item(r#"{"msat":1234}"#.to_string()),
        Produced::Failure("no route \"found\"\n".to_string()),
    ]);
    let mut sink = RecordingSink::new();
    client.rpc("client", "balance", "{}", &mut sink);
    assert_eq!(sink.received.len(), 2);
    for envelope in &sink.received {
        let v: serde_json::Value = serde_json::from_str(envelope).unwrap();
        assert!(v.is_object());
    }
    let err: serde_json::Value = serde_json::from_str(&sink.received[1]).unwrap();
    assert_eq!(err["error"], serde_json::Value::String("no route \"found\"\n".to_string()));
}

#[test]
fn non_object_bodies_are_still_json() {
    let client = built_in_client(vec![Produced::Item(r#"{"ok":true}"#.to_string())]);
    let mut sink = RecordingSink::new();
    client.rpc("client", "balance", "[1, 2, 3]", &mut sink);
    assert_eq!(sink.received, vec![r#"{"ok":true}"#.to_string()]);
}
