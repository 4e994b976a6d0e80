use batch_dispatcher::dispatcher::Dispatcher;
use batch_dispatcher::eth_signing::EthSigningClient;
use batch_dispatcher::host::ScriptHost;
use batch_dispatcher::parity::NullBackend;
use batch_dispatcher::prefetch::plan_prefixes;
use batch_dispatcher::types::{DecodedCall, TxAction, TxInfo, TxVerdict};
use batch_dispatcher::wire;

fn prefix(addr: [u8; 20], suffix: &[u8]) -> Vec<u8> {
    let mut v = addr.to_vec();
    v.extend_from_slice(suffix);
    v
}

fn call_tx(sender: [u8; 20], recipient: [u8; 20]) -> Result<DecodedCall, String> {
    Ok(DecodedCall { transaction: TxInfo { sender, action: TxAction::Call(recipient) } })
}

// A call payload decodes back to exactly the method and arguments that
// were framed.
#[test]
fn call_envelope_round_trips() {
    let payload = wire::encode_call(&String::from("ethereum.Transaction"), &vec![1, 2, 3, 4]);
    let env = wire::decode_call(&payload).ok().unwrap();
    assert_eq!(env.method, "ethereum.Transaction");
    assert_eq!(env.args, vec![1, 2, 3, 4]);
}

#[test]
fn truncated_envelope_is_refused() {
    assert!(wire::decode_call(&vec![]).is_err());
    assert!(wire::decode_call(&vec![0, 0, 0]).is_err());
    assert!(wire::decode_call(&vec![0, 0, 0, 9, b'x']).is_err());
}

// Scenario: two call-type transactions from one sender to two distinct
// recipients warm five prefixes; the sender-metadata prefix appears once.
#[test]
fn planner_deduplicates_sender_metadata() {
    let s = [3u8; 20];
    let r1 = [1u8; 20];
    let r2 = [2u8; 20];
    let calls = vec![call_tx(s, r1), call_tx(s, r2)];
    let prefixes = plan_prefixes(&calls);
    assert_eq!(prefixes.len(), 5);
    assert_eq!(prefixes[0], prefix(r1, b"code"));
    assert_eq!(prefixes[1], prefix(r1, b"metadata"));
    assert_eq!(prefixes[2], prefix(r2, b"code"));
    assert_eq!(prefixes[3], prefix(r2, b"metadata"));
    assert_eq!(prefixes[4], prefix(s, b"metadata"));
}

// A create-type transaction warms only its sender's metadata, and a
// failed slot warms nothing.
#[test]
fn planner_handles_creates_and_failures() {
    let s = [9u8; 20];
    let calls = vec![
        Ok(DecodedCall { transaction: TxInfo { sender: s, action: TxAction::Create } }),
        Err(String::from("unable to parse call")),
    ];
    let prefixes = plan_prefixes(&calls);
    assert_eq!(prefixes.len(), 1);
    assert_eq!(prefixes[0], prefix(s, b"metadata"));
}

// The execute path hands the planner's output, minus what the cache
// already holds, to one warm-up call under the fixed item ceiling.
#[test]
fn execute_warms_uncached_prefixes() {
    let d = Dispatcher::new(true);
    let mut host = ScriptHost::new();
    let s = [3u8; 20];
    let r1 = [1u8; 20];
    host.check_script = vec![Ok(TxInfo { sender: s, action: TxAction::Call(r1) })];
    host.exec_script = vec![TxVerdict::Accepted(vec![0])];
    host.cached = vec![prefix(r1, b"code")];
    let payload = wire::encode_call(&String::from("ethereum.Transaction"), &vec![1]);
    let out = d.execute_batch(&mut host, &vec![payload]).unwrap();
    assert_eq!(out.results.len(), 1);
    assert_eq!(host.warmed.len(), 2);
    assert_eq!(host.warmed[0], prefix(r1, b"metadata"));
    assert_eq!(host.warmed[1], prefix(s, b"metadata"));
    assert_eq!(host.warm_limit, 10000);
}

// With prefetch disabled the storage cache is never consulted.
#[test]
fn execute_skips_prefetch_when_disabled() {
    let d = Dispatcher::new(false);
    let mut host = ScriptHost::new();
    host.check_script = vec![Ok(TxInfo { sender: [3u8; 20], action: TxAction::Create })];
    host.exec_script = vec![TxVerdict::Accepted(vec![0])];
    let payload = wire::encode_call(&String::from("ethereum.Transaction"), &vec![1]);
    let _ = d.execute_batch(&mut host, &vec![payload]).unwrap();
    assert!(host.warmed.is_empty());
}

#[test]
fn signing_calls_are_unsupported() {
    let client = EthSigningClient::new();
    let err = client.sign(&vec![0u8; 20], &vec![1, 2]).err().unwrap();
    assert!(err.starts_with("eth_sign is not implemented"));
    let err = client.send_transaction(&vec![]).err().unwrap();
    assert!(err.starts_with("eth_sendTransaction is not implemented"));
    let err = client.sign_transaction(&vec![]).err().unwrap();
    assert!(err.starts_with("eth_signTransaction is not implemented"));
}

#[test]
fn null_backend_never_caches() {
    let backend = NullBackend;
    assert!(backend.get_cached_account(&vec![0u8; 20]).is_none());
    assert!(backend.get_cached_code(&vec![0u8; 32]).is_none());
}
