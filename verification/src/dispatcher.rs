//! The batch dispatcher: the two-phase check/execute pipeline.
//!
//! Both entry points walk the batch slot by slot, consulting the abort flag
//! at every slot boundary. The contracts pin everything the dispatcher
//! itself decides — result length, per-slot decode-error texts, the abort
//! latch, and the envelope encoding — while the validator's verdicts and
//! the flag's readings remain the collaborators' choice: the postconditions
//! quantify over them.

use vstd::prelude::*;

use crate::host::BatchHost;
use crate::types::{
    CheckTxResult, DecodedCall, ExecuteBatchResult, ExecuteTxResult, FatalError, Tag, TxInfo,
    TxVerdict,
};
use crate::wire;
use crate::wire::{error_envelope, success_envelope, ParsedCall};

verus! {

/// The one method name this dispatcher recognizes.
pub open spec fn method_tx_spec() -> Seq<char> {
    "ethereum.Transaction"@
}

/// The recognized method name as a string.
pub fn method_tx() -> (r: String)
    ensures
        r@ == method_tx_spec(),
{
    String::from_str("ethereum.Transaction")
}

/// The uniform error text of a cancelled slot.
pub open spec fn aborted_message() -> Seq<char> {
    "batch aborted"@
}

/// The error text of a payload whose frame does not parse.
pub open spec fn parse_call_text() -> Seq<char> {
    "unable to parse call"@
}

/// The error text of a payload whose argument bytes do not parse.
pub open spec fn parse_args_text() -> Seq<char> {
    "unable to parse call arguments"@
}

/// The error text of an unrecognized method name.
pub open spec fn method_not_found_text(method: Seq<char>) -> Seq<char> {
    "method not found: "@ + method
}

/// The message with which the dispatcher itself rejects a payload before
/// the validator sees it, or `None` when the payload reaches the validator.
pub open spec fn decode_failure(payload: Seq<u8>) -> Option<Seq<char>> {
    match wire::parse_call(payload) {
        ParsedCall::BadEnvelope => Some(parse_call_text()),
        ParsedCall::BadArgs => Some(parse_args_text()),
        ParsedCall::Parsed { method, args } => if method != method_tx_spec() {
            Some(method_not_found_text(method))
        } else {
            None
        },
    }
}

/// An accepted check-mode record: the empty default.
pub open spec fn is_accepted_result(r: CheckTxResult) -> bool {
    r.module@.len() == 0 && r.code == 0 && r.message@.len() == 0
}

/// A failed check-mode record: empty module, code 1, the failure text.
pub open spec fn is_failure_result(r: CheckTxResult, message: Seq<char>) -> bool {
    r.module@.len() == 0 && r.code == 1 && r.message@ == message
}

/// What one non-aborted check-mode slot must hold, given its payload and
/// the validator's verdict for it.
pub open spec fn check_slot_matches(
    r: CheckTxResult,
    payload: Seq<u8>,
    verdict: Result<TxInfo, Seq<char>>,
) -> bool {
    match decode_failure(payload) {
        Some(m) => is_failure_result(r, m),
        None => match verdict {
            Ok(_) => is_accepted_result(r),
            Err(m) => is_failure_result(r, m),
        },
    }
}

/// The whole contract of a finished check batch: some abort boundary `k`
/// and some sequence of validator verdicts explain every slot. Slots below
/// `k` hold their real outcome; slots from `k` on hold the uniform aborted
/// failure; a dispatcher without an abort flag never aborts.
pub open spec fn check_post(
    abort_on: bool,
    batch: Seq<Vec<u8>>,
    res: Seq<CheckTxResult>,
    k: int,
    verdicts: Seq<Result<TxInfo, Seq<char>>>,
) -> bool {
    &&& res.len() == batch.len()
    &&& verdicts.len() == batch.len()
    &&& 0 <= k <= batch.len()
    &&& (!abort_on ==> k == batch.len())
    &&& (forall|i: int|
        0 <= i < k ==> check_slot_matches(#[trigger] res[i], batch[i]@, verdicts[i]))
    &&& (forall|i: int|
        k <= i < batch.len() ==> is_failure_result(#[trigger] res[i], aborted_message()))
}

/// A finished check batch is explained by some abort boundary and some
/// verdict sequence.
pub open spec fn check_batch_ok(abort_on: bool, batch: Seq<Vec<u8>>, res: Seq<CheckTxResult>) -> bool {
    exists|k: int, verdicts: Seq<Result<TxInfo, Seq<char>>>|
        check_post(abort_on, batch, res, k, verdicts)
}

/// The wire envelope of a validator verdict. The check-only success marker
/// is unwrapped into a success envelope, exactly like a plain success.
pub open spec fn verdict_output(v: TxVerdict) -> Seq<u8> {
    match v {
        TxVerdict::Accepted(value) => success_envelope(value@),
        TxVerdict::ShortCircuitSuccess(value) => success_envelope(value@),
        TxVerdict::Rejected(m) => error_envelope(m@),
    }
}

/// What one non-aborted executed slot must hold, given its payload, the
/// validator's check verdict, its execute verdict and the tags it emitted.
pub open spec fn exec_slot_matches(
    r: ExecuteTxResult,
    payload: Seq<u8>,
    verdict: Result<TxInfo, Seq<char>>,
    ev: TxVerdict,
    tags: Seq<Tag>,
) -> bool {
    match decode_failure(payload) {
        Some(m) => r.output@ == error_envelope(m) && r.tags@.len() == 0,
        None => match verdict {
            Err(m) => r.output@ == error_envelope(m) && r.tags@.len() == 0,
            Ok(_) => r.output@ == verdict_output(ev) && if ev.is_accepted() {
                r.tags@ == tags
            } else {
                r.tags@.len() == 0
            },
        },
    }
}

/// A cancelled executed slot: the serialized aborted error, no tags.
pub open spec fn aborted_slot(r: ExecuteTxResult) -> bool {
    r.output@ == error_envelope(aborted_message()) && r.tags@.len() == 0
}

/// The whole contract of a finished execute batch, in the shape of
/// `check_post`: an abort boundary and the collaborators' answers explain
/// every slot.
pub open spec fn exec_post(
    abort_on: bool,
    batch: Seq<Vec<u8>>,
    results: Seq<ExecuteTxResult>,
    k: int,
    verdicts: Seq<Result<TxInfo, Seq<char>>>,
    evs: Seq<TxVerdict>,
    tagss: Seq<Seq<Tag>>,
) -> bool {
    &&& results.len() == batch.len()
    &&& verdicts.len() == batch.len()
    &&& evs.len() == batch.len()
    &&& tagss.len() == batch.len()
    &&& 0 <= k <= batch.len()
    &&& (!abort_on ==> k == batch.len())
    &&& (forall|i: int|
        0 <= i < k ==> exec_slot_matches(
            #[trigger] results[i],
            batch[i]@,
            verdicts[i],
            evs[i],
            tagss[i],
        ))
    &&& (forall|i: int| k <= i < batch.len() ==> aborted_slot(#[trigger] results[i]))
}

/// A finished execute batch is explained by some abort boundary and some
/// sequence of collaborator answers.
pub open spec fn exec_batch_ok(abort_on: bool, batch: Seq<Vec<u8>>, results: Seq<ExecuteTxResult>) -> bool {
    exists|k: int, verdicts: Seq<Result<TxInfo, Seq<char>>>, evs: Seq<TxVerdict>, tagss: Seq<Seq<Tag>>|
        exec_post(abort_on, batch, results, k, verdicts, evs, tagss)
}

/// How a stored decode outcome relates to its payload and to the ghost
/// verdict that explains it.
pub open spec fn decoded_matches(
    c: Result<DecodedCall, String>,
    payload: Seq<u8>,
    verdict: Result<TxInfo, Seq<char>>,
) -> bool {
    match decode_failure(payload) {
        Some(m) => c matches Err(e) && e@ == m,
        None => match c {
            Ok(_) => verdict is Ok,
            Err(e) => verdict == Result::<TxInfo, Seq<char>>::Err(e@),
        },
    }
}

/// The runtime method dispatcher.
pub struct Dispatcher {
    /// Whether the host's abort flag is consulted at slot boundaries.
    /// Absent configuration means a permanently-false signal.
    pub abort_enabled: bool,
    /// Whether the storage prefetch optimization runs in execute mode.
    pub prefetch_enabled: bool,
}

impl Dispatcher {
    /// Create a new runtime method dispatcher instance.
    pub fn new(prefetch_enabled: bool) -> (r: Dispatcher)
        ensures
            !r.abort_enabled,
            r.prefetch_enabled == prefetch_enabled,
    {
        Dispatcher { abort_enabled: false, prefetch_enabled }
    }

    /// Configure the abort batch flag: from now on the host's cancellation
    /// flag is read before each slot.
    pub fn set_abort_batch_flag(&mut self)
        ensures
            final(self).abort_enabled,
            final(self).prefetch_enabled == old(self).prefetch_enabled,
    {
        self.abort_enabled = true;
    }

    /// End-of-round notification with the new storage root: nothing to do.
    pub fn finalize(&self, _new_storage_root: &Vec<u8>) {
    }

    /// Decode one raw payload: parse the frame, check the method name, and
    /// hand the argument bytes to the validator's check step.
    ///
    /// Whenever the dispatcher itself rejects the payload, the error text
    /// is pinned exactly; otherwise the validator decides, and an `Ok`
    /// only ever comes out of a payload the dispatcher found well-formed.
    pub fn decode_transaction<H: BatchHost>(&self, host: &mut H, call: &Vec<u8>) -> (r: Result<
        DecodedCall,
        String,
    >)
        ensures
            match decode_failure(call@) {
                Some(m) => r matches Err(e) && e@ == m,
                None => true,
            },
            r matches Ok(_) ==> decode_failure(call@) is None,
    {
        let env = match wire::decode_call(call) {
            Ok(env) => env,
            Err(wire::DecodeFail::Envelope) => {
                return Err(String::from_str("unable to parse call"));
            },
            Err(wire::DecodeFail::Args) => {
                return Err(String::from_str("unable to parse call arguments"));
            },
        };
        let expected = method_tx();
        if !(env.method == expected) {
            let mut msg = String::from_str("method not found: ");
            msg.append(env.method.as_str());
            return Err(msg);
        }
        match host.check_tx(&env.args) {
            Ok(info) => Ok(DecodedCall { transaction: info }),
            Err(e) => Err(e),
        }
    }

    /// Serialize a validator verdict into its wire envelope.
    ///
    /// The check-only success marker is detected before any error-text
    /// formatting and re-encoded as a success envelope with its payload.
    pub fn serialize_verdict(&self, v: &TxVerdict) -> (r: Vec<u8>)
        ensures
            r@ == verdict_output(*v),
    {
        match v {
            TxVerdict::Accepted(value) => wire::encode_success(value),
            TxVerdict::ShortCircuitSuccess(value) => wire::encode_success(value),
            TxVerdict::Rejected(m) => wire::encode_error(m),
        }
    }

    /// Validate-only pass over a batch.
    ///
    /// One result per slot, in slot order. Accumulated tags and messages
    /// are discarded: check mode has no meaningful side effects.
    pub fn check_batch<H: BatchHost>(&self, host: &mut H, batch: &Vec<Vec<u8>>) -> (r: Result<
        Vec<CheckTxResult>,
        FatalError,
    >)
        ensures
            r matches Ok(res) ==> res@.len() == batch@.len(),
            r matches Ok(res) ==> check_batch_ok(self.abort_enabled, batch@, res@),
    {
        if let Err(e) = host.start_batch() {
            return Err(FatalError { message: e });
        }
        let mut results: Vec<CheckTxResult> = Vec::new();
        let mut aborted = false;
        let ghost mut k: int = batch@.len() as int;
        let ghost mut verdicts: Seq<Result<TxInfo, Seq<char>>> = Seq::empty();
        let mut i: usize = 0;
        while i < batch.len()
            invariant
                i <= batch@.len(),
                results@.len() == i,
                verdicts.len() == i,
                if aborted {
                    0 <= k <= i
                } else {
                    k == batch@.len()
                },
                !self.abort_enabled ==> !aborted,
                forall|j: int|
                    0 <= j < i && j < k ==> check_slot_matches(
                        #[trigger] results@[j],
                        batch@[j]@,
                        verdicts[j],
                    ),
                forall|j: int|
                    k <= j < i ==> is_failure_result(#[trigger] results@[j], aborted_message()),
            decreases batch@.len() - i,
        {
            if self.abort_enabled && !aborted {
                if host.abort_requested() {
                    aborted = true;
                    proof {
                        k = i as int;
                    }
                }
            }
            if aborted {
                results.push(
                    CheckTxResult {
                        module: String::new(),
                        code: 1,
                        message: String::from_str("batch aborted"),
                    },
                );
                proof {
                    verdicts = verdicts.push(Result::Err(Seq::empty()));
                }
            } else {
                match self.decode_transaction(host, &batch[i]) {
                    Ok(dc) => {
                        results.push(
                            CheckTxResult {
                                module: String::new(),
                                code: 0,
                                message: String::new(),
                            },
                        );
                        proof {
                            verdicts = verdicts.push(Result::Ok(dc.transaction));
                        }
                    },
                    Err(e) => {
                        let ghost ev = e@;
                        results.push(
                            CheckTxResult { module: String::new(), code: 1, message: e },
                        );
                        proof {
                            verdicts = verdicts.push(Result::Err(ev));
                        }
                    },
                }
            }
            i = i + 1;
        }
        if let Err(e) = host.end_batch() {
            return Err(FatalError { message: e });
        }
        let _tags = host.take_tags();
        let _messages = host.close();
        proof {
            assert(check_post(self.abort_enabled, batch@, results@, k, verdicts));
            assert(check_batch_ok(self.abort_enabled, batch@, results@));
        }
        Ok(results)
    }

    /// State-mutating pass over a batch.
    ///
    /// Decode every slot, then execute them in slot order; each slot's
    /// outcome is serialized into a wire envelope, with the tags it
    /// emitted, and the batch yields the messages the context accumulated.
    pub fn execute_batch<H: BatchHost>(&self, host: &mut H, batch: &Vec<Vec<u8>>) -> (r: Result<
        ExecuteBatchResult,
        FatalError,
    >)
        ensures
            r matches Ok(out) ==> out.results@.len() == batch@.len(),
            r matches Ok(out) ==> exec_batch_ok(self.abort_enabled, batch@, out.results@),
    {
        if let Err(e) = host.start_batch() {
            return Err(FatalError { message: e });
        }
        let mut calls: Vec<Result<DecodedCall, String>> = Vec::new();
        let mut aborted = false;
        let ghost mut k: int = batch@.len() as int;
        let ghost mut verdicts: Seq<Result<TxInfo, Seq<char>>> = Seq::empty();
        let mut i: usize = 0;
        while i < batch.len()
            invariant
                i <= batch@.len(),
                calls@.len() == i,
                verdicts.len() == i,
                if aborted {
                    0 <= k <= i
                } else {
                    k == batch@.len()
                },
                !self.abort_enabled ==> !aborted,
                forall|j: int|
                    0 <= j < i && j < k ==> decoded_matches(
                        #[trigger] calls@[j],
                        batch@[j]@,
                        verdicts[j],
                    ),
            decreases batch@.len() - i,
        {
            if self.abort_enabled && !aborted {
                if host.abort_requested() {
                    aborted = true;
                    proof {
                        k = i as int;
                    }
                }
            }
            if aborted {
                calls.push(Err(String::from_str("batch aborted")));
                proof {
                    verdicts = verdicts.push(Result::Err(Seq::empty()));
                }
            } else {
                let d = self.decode_transaction(host, &batch[i]);
                proof {
                    verdicts = verdicts.push(
                        match &d {
                            Ok(dc) => Result::Ok(dc.transaction),
                            Err(e) => Result::Err(e@),
                        },
                    );
                }
                calls.push(d);
            }
            i = i + 1;
        }
        if self.prefetch_enabled {
            let mut candidates = crate::prefetch::plan_prefixes(&calls);
            let mut remaining: Vec<Vec<u8>> = Vec::new();
            while candidates.len() > 0
                decreases candidates@.len(),
            {
                let p = candidates.remove(0);
                if !host.cache_contains(&p) {
                    remaining.push(p);
                }
            }
            if remaining.len() > 0 {
                host.prefetch_prefixes(&remaining, crate::prefetch::PREFETCH_LIMIT);
            }
        }
        let mut outputs: Vec<ExecuteTxResult> = Vec::new();
        let ghost mut k2: int = if aborted {
            0
        } else {
            batch@.len() as int
        };
        let ghost mut evs: Seq<TxVerdict> = Seq::empty();
        let ghost mut tagss: Seq<Seq<Tag>> = Seq::empty();
        let mut i: usize = 0;
        while i < calls.len()
            invariant
                i <= calls@.len(),
                calls@.len() == batch@.len(),
                outputs@.len() == i,
                evs.len() == i,
                tagss.len() == i,
                verdicts.len() == batch@.len(),
                if aborted {
                    0 <= k2 <= i
                } else {
                    k2 == batch@.len()
                },
                !self.abort_enabled ==> !aborted,
                k2 <= k,
                forall|j: int|
                    0 <= j < k ==> decoded_matches(#[trigger] calls@[j], batch@[j]@, verdicts[j]),
                forall|j: int|
                    0 <= j < i && j < k2 ==> exec_slot_matches(
                        #[trigger] outputs@[j],
                        batch@[j]@,
                        verdicts[j],
                        evs[j],
                        tagss[j],
                    ),
                forall|j: int| k2 <= j < i ==> aborted_slot(#[trigger] outputs@[j]),
            decreases calls@.len() - i,
        {
            if self.abort_enabled && !aborted {
                if host.abort_requested() {
                    aborted = true;
                    proof {
                        k2 = i as int;
                    }
                }
            }
            if aborted {
                let msg = String::from_str("batch aborted");
                let out = wire::encode_error(&msg);
                outputs.push(ExecuteTxResult { output: out, tags: Vec::new() });
                proof {
                    evs = evs.push(vstd::pervasive::arbitrary());
                    tagss = tagss.push(Seq::empty());
                }
            } else {
                match &calls[i] {
                    Ok(dc) => {
                        let v = host.execute_tx(dc);
                        let out = self.serialize_verdict(&v);
                        proof {
                            evs = evs.push(v);
                        }
                        let tags = match &v {
                            TxVerdict::Accepted(_) => host.take_tags(),
                            TxVerdict::Rejected(_) => Vec::new(),
                            TxVerdict::ShortCircuitSuccess(_) => Vec::new(),
                        };
                        let ghost gt = tags@;
                        outputs.push(ExecuteTxResult { output: out, tags });
                        proof {
                            tagss = tagss.push(gt);
                        }
                    },
                    Err(e) => {
                        let out = wire::encode_error(e);
                        outputs.push(ExecuteTxResult { output: out, tags: Vec::new() });
                        proof {
                            evs = evs.push(vstd::pervasive::arbitrary());
                            tagss = tagss.push(Seq::empty());
                        }
                    },
                }
            }
            i = i + 1;
        }
        if let Err(e) = host.end_batch() {
            return Err(FatalError { message: e });
        }
        let messages = host.close();
        proof {
            assert(exec_post(self.abort_enabled, batch@, outputs@, k2, verdicts, evs, tagss));
            assert(exec_batch_ok(self.abort_enabled, batch@, outputs@));
        }
        Ok(ExecuteBatchResult { results: outputs, messages })
    }
}

/// Whether two check records agree in every observable field.
pub open spec fn check_res_view_eq(a: CheckTxResult, b: CheckTxResult) -> bool {
    a.module@ == b.module@ && a.code == b.code && a.message@ == b.message@
}

/// Whether two executed slot results agree in output bytes and tags.
pub open spec fn exec_res_view_eq(a: ExecuteTxResult, b: ExecuteTxResult) -> bool {
    a.output@ == b.output@ && a.tags@ == b.tags@
}

/// A slot's check record is a function of its own payload and verdict.
proof fn lemma_check_slot_determined(
    a: CheckTxResult,
    b: CheckTxResult,
    payload: Seq<u8>,
    verdict: Result<TxInfo, Seq<char>>,
)
    requires
        check_slot_matches(a, payload, verdict),
        check_slot_matches(b, payload, verdict),
    ensures
        check_res_view_eq(a, b),
{
    assert(a.module@ =~= b.module@);
    if a.message@.len() == 0 && b.message@.len() == 0 {
        assert(a.message@ =~= b.message@);
    }
}

/// Failure isolation for check mode: if two batches differ at most in slot
/// `j`, and the abort boundary and the validator's verdicts are the same,
/// every slot but `j` shows the same record.
pub proof fn lemma_check_isolation(
    b1: Seq<Vec<u8>>,
    b2: Seq<Vec<u8>>,
    r1: Seq<CheckTxResult>,
    r2: Seq<CheckTxResult>,
    k: int,
    verdicts: Seq<Result<TxInfo, Seq<char>>>,
    j: int,
    abort_on: bool,
)
    requires
        b1.len() == b2.len(),
        forall|i: int| 0 <= i < b1.len() && i != j ==> (#[trigger] b1[i])@ == b2[i]@,
        check_post(abort_on, b1, r1, k, verdicts),
        check_post(abort_on, b2, r2, k, verdicts),
    ensures
        forall|i: int|
            0 <= i < b1.len() && i != j ==> check_res_view_eq(#[trigger] r1[i], r2[i]),
{
    assert forall|i: int| 0 <= i < b1.len() && i != j implies check_res_view_eq(
        #[trigger] r1[i],
        r2[i],
    ) by {
        if i < k {
            lemma_check_slot_determined(r1[i], r2[i], b1[i]@, verdicts[i]);
        } else {
            assert(is_failure_result(r1[i], aborted_message()));
            assert(is_failure_result(r2[i], aborted_message()));
            assert(r1[i].module@ =~= r2[i].module@);
        }
    }
}

/// An executed slot's output and tags are a function of its payload and
/// the collaborators' answers for it.
proof fn lemma_exec_slot_determined(
    a: ExecuteTxResult,
    b: ExecuteTxResult,
    payload: Seq<u8>,
    verdict: Result<TxInfo, Seq<char>>,
    ev: TxVerdict,
    tags: Seq<Tag>,
)
    requires
        exec_slot_matches(a, payload, verdict, ev, tags),
        exec_slot_matches(b, payload, verdict, ev, tags),
    ensures
        exec_res_view_eq(a, b),
{
    if a.tags@.len() == 0 && b.tags@.len() == 0 {
        assert(a.tags@ =~= b.tags@);
    }
}

/// Failure isolation for execute mode: if two batches differ at most in
/// slot `j`, and the abort boundary and the collaborators' answers are the
/// same, every slot but `j` shows the same output bytes and tags.
pub proof fn lemma_execute_isolation(
    b1: Seq<Vec<u8>>,
    b2: Seq<Vec<u8>>,
    r1: Seq<ExecuteTxResult>,
    r2: Seq<ExecuteTxResult>,
    k: int,
    verdicts: Seq<Result<TxInfo, Seq<char>>>,
    evs: Seq<TxVerdict>,
    tagss: Seq<Seq<Tag>>,
    j: int,
    abort_on: bool,
)
    requires
        b1.len() == b2.len(),
        forall|i: int| 0 <= i < b1.len() && i != j ==> (#[trigger] b1[i])@ == b2[i]@,
        exec_post(abort_on, b1, r1, k, verdicts, evs, tagss),
        exec_post(abort_on, b2, r2, k, verdicts, evs, tagss),
    ensures
        forall|i: int| 0 <= i < b1.len() && i != j ==> exec_res_view_eq(#[trigger] r1[i], r2[i]),
{
    assert forall|i: int| 0 <= i < b1.len() && i != j implies exec_res_view_eq(
        #[trigger] r1[i],
        r2[i],
    ) by {
        if i < k {
            lemma_exec_slot_determined(r1[i], r2[i], b1[i]@, verdicts[i], evs[i], tagss[i]);
        } else {
            assert(r1[i].tags@ =~= r2[i].tags@);
        }
    }
}

/// Determinism: two execute runs over the same batch, with the same abort
/// boundary and the same collaborator answers, produce byte-identical
/// outputs and identical tag sequences in every slot. Together with the
/// entry points' postconditions, an execute run's visible output is a
/// function of the batch and the collaborators' behaviour alone.
pub proof fn lemma_execute_deterministic(
    batch: Seq<Vec<u8>>,
    r1: Seq<ExecuteTxResult>,
    r2: Seq<ExecuteTxResult>,
    k: int,
    verdicts: Seq<Result<TxInfo, Seq<char>>>,
    evs: Seq<TxVerdict>,
    tagss: Seq<Seq<Tag>>,
    abort_on: bool,
)
    requires
        exec_post(abort_on, batch, r1, k, verdicts, evs, tagss),
        exec_post(abort_on, batch, r2, k, verdicts, evs, tagss),
    ensures
        forall|i: int| 0 <= i < batch.len() ==> exec_res_view_eq(#[trigger] r1[i], r2[i]),
{
    lemma_execute_isolation(
        batch,
        batch,
        r1,
        r2,
        k,
        verdicts,
        evs,
        tagss,
        batch.len() as int,
        abort_on,
    );
}

/// Abort uniformity: when the abort boundary is the very first slot —
/// as when the signal is already set before the call — every slot of the
/// batch carries the serialized aborted error and no tags.
pub proof fn lemma_abort_uniformity(
    batch: Seq<Vec<u8>>,
    results: Seq<ExecuteTxResult>,
    verdicts: Seq<Result<TxInfo, Seq<char>>>,
    evs: Seq<TxVerdict>,
    tagss: Seq<Seq<Tag>>,
    abort_on: bool,
)
    requires
        exec_post(abort_on, batch, results, 0, verdicts, evs, tagss),
    ensures
        forall|i: int|
            0 <= i < results.len() ==> (#[trigger] results[i]).output@ == error_envelope(
                aborted_message(),
            ) && results[i].tags@.len() == 0,
{
}

/// The abort boundary is monotone: below it every slot shows its real
/// outcome, from it on every slot shows the uniform aborted error.
pub proof fn lemma_abort_boundary(
    batch: Seq<Vec<u8>>,
    results: Seq<ExecuteTxResult>,
    k: int,
    verdicts: Seq<Result<TxInfo, Seq<char>>>,
    evs: Seq<TxVerdict>,
    tagss: Seq<Seq<Tag>>,
    abort_on: bool,
)
    requires
        exec_post(abort_on, batch, results, k, verdicts, evs, tagss),
    ensures
        forall|i: int|
            0 <= i < k ==> exec_slot_matches(
                #[trigger] results[i],
                batch[i]@,
                verdicts[i],
                evs[i],
                tagss[i],
            ),
        forall|i: int| k <= i < batch.len() ==> aborted_slot(#[trigger] results[i]),
{
}

/// Marker unwrap: a verdict carrying the check-only success marker with
/// payload `value` serializes to the success envelope of `value`, and to
/// no error envelope whatsoever.
pub proof fn lemma_marker_unwrap(value: Vec<u8>)
    ensures
        verdict_output(TxVerdict::ShortCircuitSuccess(value)) == success_envelope(value@),
        forall|m: Seq<char>|
            verdict_output(TxVerdict::ShortCircuitSuccess(value)) != #[trigger] error_envelope(m),
{
    assert forall|m: Seq<char>|
        verdict_output(TxVerdict::ShortCircuitSuccess(value)) != #[trigger] error_envelope(
            m,
        ) by {
        crate::wire::lemma_envelopes_distinct(value@, m);
    }
}

} // verus!
