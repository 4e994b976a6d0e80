//! The external collaborators of one batch call.
//!
//! The dispatcher is generic over this interface: the transaction validator
//! ("check"/"execute"), the start/end-of-batch lifecycle hooks, the shared
//! cancellation flag, the tag/message accumulation of the dispatch context,
//! and the storage cache consulted by the prefetch step. The methods carry
//! no contracts on purpose: the dispatcher's own guarantees hold for every
//! behaviour of the collaborators, including a flag another thread toggles
//! between two reads.

use vstd::prelude::*;

use crate::types::{DecodedCall, OutgoingMessage, Tag, TxInfo, TxVerdict};

verus! {

/// Everything one batch call needs from the outside world.
pub trait BatchHost {
    /// Start-of-batch lifecycle hook; an `Err` is fatal to the whole call.
    fn start_batch(&mut self) -> Result<(), String>;

    /// End-of-batch lifecycle hook; an `Err` is fatal to the whole call.
    fn end_batch(&mut self) -> Result<(), String>;

    /// One read of the externally owned abort flag.
    fn abort_requested(&mut self) -> bool;

    /// Validate a signed transaction's argument bytes.
    fn check_tx(&mut self, args: &Vec<u8>) -> Result<TxInfo, String>;

    /// Execute a decoded call against the shared account-state store.
    fn execute_tx(&mut self, call: &DecodedCall) -> TxVerdict;

    /// Extract the tags the last executed transaction emitted.
    fn take_tags(&mut self) -> Vec<Tag>;

    /// Consume the dispatch context: the outgoing messages of the batch.
    fn close(&mut self) -> Vec<OutgoingMessage>;

    /// Whether the storage cache already holds this key prefix.
    fn cache_contains(&mut self, prefix: &Vec<u8>) -> bool;

    /// Bulk warm-up of storage, bounded by an item count.
    fn prefetch_prefixes(&mut self, prefixes: &Vec<Vec<u8>>, limit: u64);
}

/// Copy a byte vector.
fn copy_bytes(v: &Vec<u8>) -> (r: Vec<u8>)
    ensures
        r@ == v@,
{
    let mut r: Vec<u8> = Vec::new();
    let mut i: usize = 0;
    while i < v.len()
        invariant
            i <= v@.len(),
            r@ == v@.subrange(0, i as int),
        decreases v@.len() - i,
    {
        r.push(v[i]);
        i = i + 1;
        proof {
            assert(r@ =~= v@.subrange(0, i as int));
        }
    }
    proof {
        assert(v@.subrange(0, v@.len() as int) =~= v@);
    }
    r
}

/// Whether two byte vectors hold the same bytes.
pub fn bytes_eq(a: &Vec<u8>, b: &Vec<u8>) -> (r: bool)
    ensures
        r == (a@ == b@),
{
    if a.len() != b.len() {
        proof {
            assert(a@ != b@);
        }
        return false;
    }
    let mut i: usize = 0;
    while i < a.len()
        invariant
            i <= a@.len(),
            a@.len() == b@.len(),
            forall|j: int| 0 <= j < i ==> a@[j] == b@[j],
        decreases a@.len() - i,
    {
        if a[i] != b[i] {
            return false;
        }
        i = i + 1;
    }
    proof {
        assert(a@ =~= b@);
    }
    true
}

/// A scripted collaborator: validator verdicts, tags, messages and the
/// abort flag's behaviour are laid out in advance, so a caller can replay
/// any batch scenario deterministically and observe the hook, abort and
/// prefetch traffic afterwards.
pub struct ScriptHost {
    /// Validator answers for check-mode slots, consumed front to back.
    pub check_script: Vec<Result<TxInfo, String>>,
    /// Validator answers for executed slots, consumed front to back.
    pub exec_script: Vec<TxVerdict>,
    /// Tag batches handed out by `take_tags`, consumed front to back.
    pub tag_script: Vec<Vec<Tag>>,
    /// Outgoing messages the context yields when closed.
    pub messages: Vec<OutgoingMessage>,
    /// When set, the abort flag reads true from this poll count onward.
    pub abort_after: Option<u64>,
    /// Number of abort-flag reads made so far.
    pub polls_done: u64,
    /// Key prefixes the storage cache claims to hold.
    pub cached: Vec<Vec<u8>>,
    /// Record of every prefix handed to the warm-up call.
    pub warmed: Vec<Vec<u8>>,
    /// The item ceiling of the last warm-up call.
    pub warm_limit: u64,
    /// Number of start-of-batch hook invocations.
    pub starts: u64,
    /// Number of end-of-batch hook invocations.
    pub ends: u64,
}

impl ScriptHost {
    /// A host with nothing scripted: every validator answer is a rejection,
    /// the abort flag never reads true, and the cache is empty.
    pub fn new() -> (r: ScriptHost)
        ensures
            r.check_script@.len() == 0,
            r.exec_script@.len() == 0,
            r.abort_after is None,
    {
        ScriptHost {
            check_script: Vec::new(),
            exec_script: Vec::new(),
            tag_script: Vec::new(),
            messages: Vec::new(),
            abort_after: None,
            polls_done: 0,
            cached: Vec::new(),
            warmed: Vec::new(),
            warm_limit: 0,
            starts: 0,
            ends: 0,
        }
    }
}

impl BatchHost for ScriptHost {
    fn start_batch(&mut self) -> Result<(), String> {
        if self.starts < u64::MAX {
            self.starts = self.starts + 1;
        }
        Ok(())
    }

    fn end_batch(&mut self) -> Result<(), String> {
        if self.ends < u64::MAX {
            self.ends = self.ends + 1;
        }
        Ok(())
    }

    fn abort_requested(&mut self) -> bool {
        let r = match self.abort_after {
            Some(at) => self.polls_done >= at,
            None => false,
        };
        if self.polls_done < u64::MAX {
            self.polls_done = self.polls_done + 1;
        }
        r
    }

    fn check_tx(&mut self, _args: &Vec<u8>) -> Result<TxInfo, String> {
        if self.check_script.len() == 0 {
            Err(String::from_str("no scripted verdict"))
        } else {
            self.check_script.remove(0)
        }
    }

    fn execute_tx(&mut self, _call: &DecodedCall) -> TxVerdict {
        if self.exec_script.len() == 0 {
            TxVerdict::Rejected(String::from_str("no scripted verdict"))
        } else {
            self.exec_script.remove(0)
        }
    }

    fn take_tags(&mut self) -> Vec<Tag> {
        if self.tag_script.len() == 0 {
            Vec::new()
        } else {
            self.tag_script.remove(0)
        }
    }

    fn close(&mut self) -> Vec<OutgoingMessage> {
        let mut out: Vec<OutgoingMessage> = Vec::new();
        core::mem::swap(&mut out, &mut self.messages);
        out
    }

    fn cache_contains(&mut self, prefix: &Vec<u8>) -> bool {
        let mut i: usize = 0;
        while i < self.cached.len()
            invariant
                i <= self.cached@.len(),
            decreases self.cached@.len() - i,
        {
            if bytes_eq(&self.cached[i], prefix) {
                return true;
            }
            i = i + 1;
        }
        false
    }

    fn prefetch_prefixes(&mut self, prefixes: &Vec<Vec<u8>>, limit: u64) {
        self.warm_limit = limit;
        let mut i: usize = 0;
        while i < prefixes.len()
            invariant
                i <= prefixes@.len(),
            decreases prefixes@.len() - i,
        {
            let p = copy_bytes(&prefixes[i]);
            self.warmed.push(p);
            i = i + 1;
        }
    }
}

} // verus!
