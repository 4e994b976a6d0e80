use batch_dispatcher::dispatcher::Dispatcher;
use batch_dispatcher::host::{BatchHost, ScriptHost};
use batch_dispatcher::types::{Tag, TxAction, TxInfo, TxVerdict};
use batch_dispatcher::wire;

fn tx_info() -> TxInfo {
    TxInfo { sender: [3u8; 20], action: TxAction::Call([1u8; 20]) }
}

fn valid_payload() -> Vec<u8> {
    wire::encode_call(&String::from("ethereum.Transaction"), &vec![0xAA, 0xBB])
}

fn success_bytes(value: &[u8]) -> Vec<u8> {
    let mut v = vec![0u8];
    v.extend_from_slice(value);
    v
}

fn error_bytes(message: &str) -> Vec<u8> {
    let mut v = vec![1u8];
    v.extend_from_slice(message.as_bytes());
    v
}

#[test]
fn check_results_match_batch_length() {
    let d = Dispatcher::new(false);
    for n in 0..4usize {
        let mut host = ScriptHost::new();
        host.check_script = (0..n).map(|_| Ok(tx_info())).collect();
        let batch: Vec<Vec<u8>> = (0..n).map(|_| valid_payload()).collect();
        let results = d.check_batch(&mut host, &batch).unwrap();
        assert_eq!(results.len(), n);
    }
}

#[test]
fn execute_results_match_batch_length() {
    let d = Dispatcher::new(false);
    for n in 0..4usize {
        let mut host = ScriptHost::new();
        host.check_script = (0..n).map(|_| Ok(tx_info())).collect();
        host.exec_script = (0..n).map(|_| TxVerdict::Accepted(vec![7u8])).collect();
        let batch: Vec<Vec<u8>> = (0..n).map(|_| valid_payload()).collect();
        let out = d.execute_batch(&mut host, &batch).unwrap();
        assert_eq!(out.results.len(), n);
    }
}

// Scenario: a malformed payload between two valid ones fails alone.
#[test]
fn check_isolates_malformed_slot() {
    let d = Dispatcher::new(false);
    let mut host = ScriptHost::new();
    host.check_script = vec![Ok(tx_info()), Ok(tx_info())];
    let batch = vec![valid_payload(), vec![0xFF], valid_payload()];
    let results = d.check_batch(&mut host, &batch).unwrap();
    assert_eq!(results.len(), 3);
    assert_eq!(results[0].code, 0);
    assert_eq!(results[0].message, "");
    assert_eq!(results[1].code, 1);
    assert_eq!(results[1].module, "");
    assert_eq!(results[1].message, "unable to parse call");
    assert_eq!(results[2].code, 0);
    assert_eq!(results[2].message, "");
}

#[test]
fn check_reports_unknown_method() {
    let d = Dispatcher::new(false);
    let mut host = ScriptHost::new();
    host.check_script = vec![Ok(tx_info())];
    let batch = vec![wire::encode_call(&String::from("other.Method"), &vec![1u8])];
    let results = d.check_batch(&mut host, &batch).unwrap();
    assert_eq!(results[0].code, 1);
    assert_eq!(results[0].message, "method not found: other.Method");
}

#[test]
fn check_reports_malformed_arguments() {
    let d = Dispatcher::new(false);
    let mut host = ScriptHost::new();
    // A well-formed method frame, then an argument frame whose length
    // disagrees with the bytes that follow.
    let mut payload = vec![0u8, 0, 0, 2, b'h', b'i'];
    payload.extend_from_slice(&[0u8, 0, 0, 5, 1]);
    let results = d.check_batch(&mut host, &vec![payload]).unwrap();
    assert_eq!(results[0].code, 1);
    assert_eq!(results[0].message, "unable to parse call arguments");
}

#[test]
fn check_reports_validator_rejection() {
    let d = Dispatcher::new(false);
    let mut host = ScriptHost::new();
    host.check_script = vec![Err(String::from("bad signature"))];
    let results = d.check_batch(&mut host, &vec![valid_payload()]).unwrap();
    assert_eq!(results[0].code, 1);
    assert_eq!(results[0].message, "bad signature");
}

// Scenario: the abort signal trips after slot 0 completes; slot 0 keeps
// its real result and tags, the remaining slots are uniformly aborted.
#[test]
fn execute_aborts_mid_batch() {
    let mut d = Dispatcher::new(false);
    d.set_abort_batch_flag();
    let mut host = ScriptHost::new();
    host.check_script = vec![Ok(tx_info()), Ok(tx_info()), Ok(tx_info())];
    host.exec_script = vec![TxVerdict::Accepted(vec![0x11])];
    host.tag_script =
        vec![vec![Tag { key: b"k".to_vec(), value: b"v".to_vec() }]];
    // Three decode-phase reads stay false, the read before slot 0 stays
    // false, the read before slot 1 trips the latch.
    host.abort_after = Some(4);
    let batch = vec![valid_payload(), valid_payload(), valid_payload()];
    let out = d.execute_batch(&mut host, &batch).unwrap();
    assert_eq!(out.results.len(), 3);
    assert_eq!(out.results[0].output, success_bytes(&[0x11]));
    assert_eq!(out.results[0].tags.len(), 1);
    assert_eq!(out.results[0].tags[0].key, b"k".to_vec());
    assert_eq!(out.results[1].output, error_bytes("batch aborted"));
    assert!(out.results[1].tags.is_empty());
    assert_eq!(out.results[2].output, error_bytes("batch aborted"));
    assert!(out.results[2].tags.is_empty());
}

// An abort signal set before the call aborts every slot uniformly and
// never reaches the validator's execute step.
#[test]
fn execute_aborts_whole_batch_when_set_before_call() {
    let mut d = Dispatcher::new(false);
    d.set_abort_batch_flag();
    let mut host = ScriptHost::new();
    host.check_script = vec![Ok(tx_info()), Ok(tx_info())];
    host.exec_script = vec![TxVerdict::Accepted(vec![0x11]), TxVerdict::Accepted(vec![0x22])];
    host.abort_after = Some(0);
    let batch = vec![valid_payload(), valid_payload()];
    let out = d.execute_batch(&mut host, &batch).unwrap();
    for slot in &out.results {
        assert_eq!(slot.output, error_bytes("batch aborted"));
        assert!(slot.tags.is_empty());
    }
    // No transaction was executed: the scripted verdicts are untouched.
    assert_eq!(host.exec_script.len(), 2);
    // The lifecycle hooks still ran exactly once each.
    assert_eq!(host.starts, 1);
    assert_eq!(host.ends, 1);
}

// A dispatcher with no abort flag configured never aborts, whatever the
// host's flag does.
#[test]
fn execute_ignores_flag_when_not_configured() {
    let d = Dispatcher::new(false);
    let mut host = ScriptHost::new();
    host.check_script = vec![Ok(tx_info())];
    host.exec_script = vec![TxVerdict::Accepted(vec![0x11])];
    host.abort_after = Some(0);
    let out = d.execute_batch(&mut host, &vec![valid_payload()]).unwrap();
    assert_eq!(out.results[0].output, success_bytes(&[0x11]));
}

// Determinism: two runs over independent, identically scripted hosts give
// byte-identical outputs, tags and messages.
#[test]
fn execute_twice_is_byte_identical() {
    fn scripted() -> ScriptHost {
        let mut host = ScriptHost::new();
        host.check_script =
            vec![Ok(tx_info()), Err(String::from("nonce too low")), Ok(tx_info())];
        host.exec_script = vec![
            TxVerdict::Accepted(vec![1, 2, 3]),
            TxVerdict::Rejected(String::from("out of gas")),
        ];
        host.tag_script =
            vec![vec![Tag { key: b"topic".to_vec(), value: b"payload".to_vec() }]];
        host.messages.push(batch_dispatcher::types::OutgoingMessage {
            payload: b"round done".to_vec(),
        });
        host
    }
    let d = Dispatcher::new(false);
    let batch = vec![valid_payload(), valid_payload(), valid_payload()];
    let mut h1 = scripted();
    let mut h2 = scripted();
    let out1 = d.execute_batch(&mut h1, &batch).unwrap();
    let out2 = d.execute_batch(&mut h2, &batch).unwrap();
    assert_eq!(out1.results.len(), out2.results.len());
    for (a, b) in out1.results.iter().zip(out2.results.iter()) {
        assert_eq!(a.output, b.output);
        assert_eq!(a.tags.len(), b.tags.len());
        for (ta, tb) in a.tags.iter().zip(b.tags.iter()) {
            assert_eq!(ta.key, tb.key);
            assert_eq!(ta.value, tb.value);
        }
    }
    assert_eq!(out1.messages.len(), out2.messages.len());
    for (ma, mb) in out1.messages.iter().zip(out2.messages.iter()) {
        assert_eq!(ma.payload, mb.payload);
    }
}

// Check purity: a check pass beforehand leaves a later execute pass's
// output unchanged.
#[test]
fn check_does_not_disturb_execute() {
    let d = Dispatcher::new(false);
    let batch = vec![valid_payload(), valid_payload()];

    let mut checked_then_executed = ScriptHost::new();
    checked_then_executed.check_script = vec![
        Ok(tx_info()),
        Ok(tx_info()),
        Ok(tx_info()),
        Ok(tx_info()),
    ];
    checked_then_executed.exec_script =
        vec![TxVerdict::Accepted(vec![9]), TxVerdict::Accepted(vec![8])];
    let _ = d.check_batch(&mut checked_then_executed, &batch).unwrap();
    let after_check = d.execute_batch(&mut checked_then_executed, &batch).unwrap();

    let mut executed_only = ScriptHost::new();
    executed_only.check_script = vec![Ok(tx_info()), Ok(tx_info())];
    executed_only.exec_script =
        vec![TxVerdict::Accepted(vec![9]), TxVerdict::Accepted(vec![8])];
    let direct = d.execute_batch(&mut executed_only, &batch).unwrap();

    assert_eq!(after_check.results.len(), direct.results.len());
    for (a, b) in after_check.results.iter().zip(direct.results.iter()) {
        assert_eq!(a.output, b.output);
    }
}

// Marker unwrap: the check-only success marker serializes as a success
// envelope carrying its payload, never as an error envelope.
#[test]
fn short_circuit_success_serializes_as_success() {
    let d = Dispatcher::new(false);
    let mut host = ScriptHost::new();
    host.check_script = vec![Ok(tx_info())];
    host.exec_script = vec![TxVerdict::ShortCircuitSuccess(vec![0xCA, 0xFE])];
    let out = d.execute_batch(&mut host, &vec![valid_payload()]).unwrap();
    assert_eq!(out.results[0].output, success_bytes(&[0xCA, 0xFE]));
    assert_ne!(out.results[0].output[0], 1u8);
    // The marker's tags are not taken: the slot reports none.
    assert!(out.results[0].tags.is_empty());
}

// A validator rejection in execute mode serializes its text alone.
#[test]
fn execute_serializes_rejection_text() {
    let d = Dispatcher::new(false);
    let mut host = ScriptHost::new();
    host.check_script = vec![Ok(tx_info())];
    host.exec_script = vec![TxVerdict::Rejected(String::from("insufficient balance"))];
    let out = d.execute_batch(&mut host, &vec![valid_payload()]).unwrap();
    assert_eq!(out.results[0].output, error_bytes("insufficient balance"));
    assert!(out.results[0].tags.is_empty());
}

// The batch's outgoing messages come back from the context, in order.
#[test]
fn execute_returns_outgoing_messages() {
    let d = Dispatcher::new(false);
    let mut host = ScriptHost::new();
    host.check_script = vec![Ok(tx_info())];
    host.exec_script = vec![TxVerdict::Accepted(vec![1])];
    host.messages = vec![
        batch_dispatcher::types::OutgoingMessage { payload: vec![1] },
        batch_dispatcher::types::OutgoingMessage { payload: vec![2] },
    ];
    let out = d.execute_batch(&mut host, &vec![valid_payload()]).unwrap();
    assert_eq!(out.messages.len(), 2);
    assert_eq!(out.messages[0].payload, vec![1]);
    assert_eq!(out.messages[1].payload, vec![2]);
}

// Check mode discards accumulated tags and messages.
#[test]
fn check_discards_context_effects() {
    let d = Dispatcher::new(false);
    let mut host = ScriptHost::new();
    host.check_script = vec![Ok(tx_info())];
    host.messages =
        vec![batch_dispatcher::types::OutgoingMessage { payload: vec![7] }];
    let results = d.check_batch(&mut host, &vec![valid_payload()]).unwrap();
    assert_eq!(results.len(), 1);
    // The context was closed and its messages drained, not returned.
    assert!(host.messages.is_empty());
    assert_eq!(host.starts, 1);
    assert_eq!(host.ends, 1);
}

// A collaborator whose start-of-batch hook fails: the only error class
// that aborts the whole call instead of producing per-slot results.
struct BrokenHooks;

impl BatchHost for BrokenHooks {
    fn start_batch(&mut self) -> Result<(), String> {
        Err(String::from("session key unavailable"))
    }
    fn end_batch(&mut self) -> Result<(), String> {
        Ok(())
    }
    fn abort_requested(&mut self) -> bool {
        false
    }
    fn check_tx(&mut self, _args: &Vec<u8>) -> Result<TxInfo, String> {
        Err(String::from("unreachable"))
    }
    fn execute_tx(
        &mut self,
        _call: &batch_dispatcher::types::DecodedCall,
    ) -> TxVerdict {
        TxVerdict::Rejected(String::from("unreachable"))
    }
    fn take_tags(&mut self) -> Vec<Tag> {
        Vec::new()
    }
    fn close(&mut self) -> Vec<batch_dispatcher::types::OutgoingMessage> {
        Vec::new()
    }
    fn cache_contains(&mut self, _prefix: &Vec<u8>) -> bool {
        false
    }
    fn prefetch_prefixes(&mut self, _prefixes: &Vec<Vec<u8>>, _limit: u64) {}
}

#[test]
fn failing_start_hook_is_fatal() {
    let d = Dispatcher::new(false);
    let mut host = BrokenHooks;
    let err = d.check_batch(&mut host, &vec![valid_payload()]).err().unwrap();
    assert_eq!(err.message, "session key unavailable");
    let mut host = BrokenHooks;
    let err = d.execute_batch(&mut host, &vec![valid_payload()]).err().unwrap();
    assert_eq!(err.message, "session key unavailable");
}
