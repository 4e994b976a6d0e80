//! The prefetch planner.
//!
//! Before the execution loop of a batch, the dispatcher may warm storage:
//! for every successfully decoded transaction it derives the key prefixes
//! worth fetching — the recipient's code and metadata for call-type
//! transactions, and the sender's metadata always — sorted for determinism
//! and deduplicated. The planner is a pure optimization: it computes the
//! prefix set and nothing else.

use vstd::prelude::*;

use crate::types::{DecodedCall, TxAction, TxInfo};

verus! {

/// The item ceiling of one bulk warm-up request: it bounds worst-case I/O
/// amplification per batch regardless of batch size.
pub const PREFETCH_LIMIT: u64 = 10000;

/// Storage key suffix naming an account's code.
pub open spec fn code_suffix() -> Seq<u8> {
    seq![99u8, 111u8, 100u8, 101u8]
}

/// Storage key suffix naming an account's metadata.
pub open spec fn metadata_suffix() -> Seq<u8> {
    seq![109u8, 101u8, 116u8, 97u8, 100u8, 97u8, 116u8, 97u8]
}

/// The prefixes one decoded transaction warms.
pub open spec fn call_prefixes(t: TxInfo) -> Set<Seq<u8>> {
    match t.action {
        TxAction::Call(rec) => set![
            rec@ + code_suffix(),
            rec@ + metadata_suffix(),
            t.sender@ + metadata_suffix(),
        ],
        TxAction::Create => set![t.sender@ + metadata_suffix()],
    }
}

/// Whether one slot's decode outcome warms the prefix `p`.
pub open spec fn slot_warms(c: Result<DecodedCall, String>, p: Seq<u8>) -> bool {
    c matches Ok(dc) && call_prefixes(dc.transaction).contains(p)
}

/// The prefixes warmed by the first `n` slots' decode outcomes.
pub open spec fn batch_prefixes_upto(calls: Seq<Result<DecodedCall, String>>, n: int) -> Set<
    Seq<u8>,
> {
    Set::new(
        |p: Seq<u8>|
            exists|i: int| 0 <= i < n && i < calls.len() && slot_warms(#[trigger] calls[i], p),
    )
}

/// The prefixes warmed by a batch's successfully decoded transactions.
pub open spec fn batch_prefixes(calls: Seq<Result<DecodedCall, String>>) -> Set<Seq<u8>> {
    batch_prefixes_upto(calls, calls.len() as int)
}

/// Strict lexicographic byte order.
pub open spec fn lex_lt(a: Seq<u8>, b: Seq<u8>) -> bool
    decreases a.len(),
{
    if b.len() == 0 {
        false
    } else if a.len() == 0 {
        true
    } else if a[0] < b[0] {
        true
    } else if a[0] > b[0] {
        false
    } else {
        lex_lt(a.drop_first(), b.drop_first())
    }
}

/// Exactly one of `a < b`, `a == b`, `b < a` holds.
pub proof fn lemma_lex_trichotomy(a: Seq<u8>, b: Seq<u8>)
    ensures
        lex_lt(a, b) || lex_lt(b, a) || a == b,
        lex_lt(a, b) ==> !lex_lt(b, a) && a != b,
        lex_lt(b, a) ==> !lex_lt(a, b) && a != b,
    decreases a.len(),
{
    if a.len() == 0 && b.len() == 0 {
        assert(a =~= b);
    } else if a.len() > 0 && b.len() > 0 && a[0] == b[0] {
        lemma_lex_trichotomy(a.drop_first(), b.drop_first());
        if a.drop_first() == b.drop_first() {
            assert forall|m: int| 0 <= m < a.len() implies a[m] == b[m] by {
                if m > 0 {
                    assert(a.drop_first()[m - 1] == b.drop_first()[m - 1]);
                }
            }
            assert(a =~= b);
        }
        if a == b {
            assert(a.drop_first() =~= b.drop_first());
        }
    }
}

/// Lexicographic order is transitive.
pub proof fn lemma_lex_trans(a: Seq<u8>, b: Seq<u8>, c: Seq<u8>)
    requires
        lex_lt(a, b),
        lex_lt(b, c),
    ensures
        lex_lt(a, c),
    decreases a.len(),
{
    if a.len() > 0 && b.len() > 0 && c.len() > 0 {
        if a[0] == b[0] && b[0] == c[0] {
            lemma_lex_trans(a.drop_first(), b.drop_first(), c.drop_first());
        }
    }
}

/// Dropping an equal prefix of both sides preserves the order.
proof fn lemma_lex_skip(a: Seq<u8>, b: Seq<u8>, i: int)
    requires
        0 <= i <= a.len(),
        i <= b.len(),
        a.subrange(0, i) == b.subrange(0, i),
    ensures
        lex_lt(a, b) == lex_lt(a.skip(i), b.skip(i)),
    decreases i,
{
    if i == 0 {
        assert(a.skip(0) =~= a);
        assert(b.skip(0) =~= b);
    } else {
        assert(a.subrange(0, i)[0] == a[0]);
        assert(b.subrange(0, i)[0] == b[0]);
        assert(a[0] == b[0]);
        assert(a.drop_first().subrange(0, i - 1) =~= a.subrange(0, i).subrange(1, i));
        assert(b.drop_first().subrange(0, i - 1) =~= b.subrange(0, i).subrange(1, i));
        lemma_lex_skip(a.drop_first(), b.drop_first(), i - 1);
        assert(a.drop_first().skip(i - 1) =~= a.skip(i));
        assert(b.drop_first().skip(i - 1) =~= b.skip(i));
    }
}

/// The three ways two byte strings can compare.
pub enum LexOrd {
    Before,
    Equal,
    After,
}

/// Compare two byte vectors in lexicographic order.
pub fn lex_cmp(a: &Vec<u8>, b: &Vec<u8>) -> (r: LexOrd)
    ensures
        r matches LexOrd::Before <==> lex_lt(a@, b@),
        r matches LexOrd::Equal <==> a@ == b@,
        r matches LexOrd::After <==> lex_lt(b@, a@),
{
    proof {
        lemma_lex_trichotomy(a@, b@);
    }
    let an: usize = a.len();
    let bn: usize = b.len();
    let n: usize = if an < bn {
        an
    } else {
        bn
    };
    let mut i: usize = 0;
    while i < n
        invariant
            i <= n,
            n <= a@.len(),
            n <= b@.len(),
            n == if a@.len() < b@.len() {
                a@.len()
            } else {
                b@.len()
            },
            forall|j: int| 0 <= j < i ==> a@[j] == b@[j],
        decreases n - i,
    {
        proof {
            assert(a@.subrange(0, i as int) =~= b@.subrange(0, i as int));
            lemma_lex_skip(a@, b@, i as int);
            lemma_lex_skip(b@, a@, i as int);
        }
        if a[i] < b[i] {
            proof {
                assert(a@.skip(i as int)[0] == a@[i as int]);
                assert(b@.skip(i as int)[0] == b@[i as int]);
            }
            return LexOrd::Before;
        }
        if a[i] > b[i] {
            proof {
                assert(a@.skip(i as int)[0] == a@[i as int]);
                assert(b@.skip(i as int)[0] == b@[i as int]);
            }
            return LexOrd::After;
        }
        i = i + 1;
    }
    proof {
        assert(a@.subrange(0, n as int) =~= b@.subrange(0, n as int));
        lemma_lex_skip(a@, b@, n as int);
        lemma_lex_skip(b@, a@, n as int);
    }
    if an < bn {
        LexOrd::Before
    } else if an > bn {
        LexOrd::After
    } else {
        proof {
            assert(a@ =~= b@);
        }
        LexOrd::Equal
    }
}

/// A strictly increasing, hence duplicate-free, sequence of byte strings.
pub open spec fn sorted_unique_vec(s: Seq<Vec<u8>>) -> bool {
    forall|i: int, j: int| 0 <= i < j < s.len() ==> lex_lt(#[trigger] s[i]@, #[trigger] s[j]@)
}

/// Whether some element of `s` holds the bytes `p`.
pub open spec fn contains_bytes(s: Seq<Vec<u8>>, p: Seq<u8>) -> bool {
    exists|i: int| 0 <= i < s.len() && (#[trigger] s[i])@ == p
}

/// Insert `p` into a sorted duplicate-free vector, keeping it so; the set
/// of held byte strings grows by exactly `p`.
fn insert_sorted(acc: &mut Vec<Vec<u8>>, p: Vec<u8>)
    requires
        sorted_unique_vec(old(acc)@),
    ensures
        sorted_unique_vec(final(acc)@),
        forall|q: Seq<u8>|
            #[trigger] contains_bytes(final(acc)@, q) <==> (contains_bytes(old(acc)@, q) || q
                == p@),
{
    let mut lo: usize = 0;
    let mut found_after = false;
    while lo < acc.len() && !found_after
        invariant
            lo <= acc@.len(),
            acc@ == old(acc)@,
            sorted_unique_vec(acc@),
            forall|j: int| 0 <= j < lo ==> lex_lt((#[trigger] acc@[j])@, p@),
            found_after ==> lo < acc@.len() && lex_lt(p@, acc@[lo as int]@),
        decreases acc@.len() - lo + (if found_after {
            0int
        } else {
            1int
        }),
    {
        match lex_cmp(&acc[lo], &p) {
            LexOrd::Before => {
                lo = lo + 1;
            },
            LexOrd::Equal => {
                proof {
                    assert(acc@[lo as int]@ == p@);
                    assert forall|q: Seq<u8>| #[trigger] contains_bytes(acc@, q) <==> (
                    contains_bytes(old(acc)@, q) || q == p@) by {
                        if q == p@ {
                            assert(contains_bytes(acc@, q));
                        }
                    }
                }
                return ;
            },
            LexOrd::After => {
                found_after = true;
            },
        }
    }
    let ghost pre = acc@;
    acc.insert(lo, p);
    proof {
        let post = acc@;
        assert(post.len() == pre.len() + 1);
        assert(forall|j: int| 0 <= j < lo ==> post[j] == pre[j]);
        assert(post[lo as int]@ == p@);
        assert(forall|j: int| lo < j < post.len() ==> post[j] == pre[j - 1]);
        assert(lo < pre.len() ==> lex_lt(p@, pre[lo as int]@));
        assert forall|i: int, j: int| 0 <= i < j < post.len() implies lex_lt(
            (#[trigger] post[i])@,
            (#[trigger] post[j])@,
        ) by {
            if i < lo && j == lo {
                assert(lex_lt(pre[i]@, p@));
            } else if i == lo && j > lo {
                if j - 1 == lo {
                    assert(lex_lt(p@, pre[lo as int]@));
                } else {
                    assert(lex_lt(p@, pre[lo as int]@));
                    assert(lex_lt(pre[lo as int]@, pre[j - 1]@));
                    lemma_lex_trans(p@, pre[lo as int]@, pre[j - 1]@);
                }
            } else if i < lo && j > lo {
                assert(lex_lt(pre[i]@, p@));
                if j - 1 == lo {
                    assert(lex_lt(p@, pre[lo as int]@));
                    lemma_lex_trans(pre[i]@, p@, pre[j - 1]@);
                } else {
                    assert(lex_lt(pre[i]@, pre[j - 1]@));
                }
            } else if i < lo && j < lo {
                assert(lex_lt(pre[i]@, pre[j]@));
            } else if i > lo && j > lo {
                assert(lex_lt(pre[i - 1]@, pre[j - 1]@));
            }
        }
        assert forall|q: Seq<u8>| #[trigger] contains_bytes(post, q) implies (contains_bytes(
            pre,
            q,
        ) || q == p@) by {
            let i = choose|i: int| 0 <= i < post.len() && (#[trigger] post[i])@ == q;
            if i < lo {
                assert(pre[i]@ == q);
            } else if i > lo {
                assert(pre[i - 1]@ == q);
            }
        }
        assert forall|q: Seq<u8>| (contains_bytes(pre, q) || q == p@) implies #[trigger] contains_bytes(
            post,
            q,
        ) by {
            if q == p@ {
                assert(post[lo as int]@ == q);
            } else {
                let i = choose|i: int| 0 <= i < pre.len() && (#[trigger] pre[i])@ == q;
                if i < lo {
                    assert(post[i]@ == q);
                } else {
                    assert(post[i + 1]@ == q);
                }
            }
        }
    }
}

/// The recipient-code prefix of an address.
fn code_prefix(addr: &[u8; 20]) -> (r: Vec<u8>)
    ensures
        r@ == addr@ + code_suffix(),
{
    let mut r: Vec<u8> = Vec::new();
    let mut i: usize = 0;
    while i < 20
        invariant
            i <= 20,
            r@ == addr@.subrange(0, i as int),
        decreases 20 - i,
    {
        r.push(addr[i]);
        i = i + 1;
        proof {
            assert(r@ =~= addr@.subrange(0, i as int));
        }
    }
    r.push(99u8);
    r.push(111u8);
    r.push(100u8);
    r.push(101u8);
    proof {
        assert(addr@.subrange(0, 20) =~= addr@);
        assert(r@ =~= addr@ + code_suffix());
    }
    r
}

/// The account-metadata prefix of an address.
fn metadata_prefix(addr: &[u8; 20]) -> (r: Vec<u8>)
    ensures
        r@ == addr@ + metadata_suffix(),
{
    let mut r: Vec<u8> = Vec::new();
    let mut i: usize = 0;
    while i < 20
        invariant
            i <= 20,
            r@ == addr@.subrange(0, i as int),
        decreases 20 - i,
    {
        r.push(addr[i]);
        i = i + 1;
        proof {
            assert(r@ =~= addr@.subrange(0, i as int));
        }
    }
    r.push(109u8);
    r.push(101u8);
    r.push(116u8);
    r.push(97u8);
    r.push(100u8);
    r.push(97u8);
    r.push(116u8);
    r.push(97u8);
    proof {
        assert(addr@.subrange(0, 20) =~= addr@);
        assert(r@ =~= addr@ + metadata_suffix());
    }
    r
}

/// Derive the sorted, deduplicated set of storage key prefixes worth
/// warming for a batch's decoded transactions.
pub fn plan_prefixes(calls: &Vec<Result<DecodedCall, String>>) -> (r: Vec<Vec<u8>>)
    ensures
        sorted_unique_vec(r@),
        forall|q: Seq<u8>|
            #[trigger] contains_bytes(r@, q) <==> batch_prefixes(calls@).contains(q),
{
    let mut acc: Vec<Vec<u8>> = Vec::new();
    let mut i: usize = 0;
    while i < calls.len()
        invariant
            i <= calls@.len(),
            sorted_unique_vec(acc@),
            forall|q: Seq<u8>|
                #[trigger] contains_bytes(acc@, q) <==> batch_prefixes_upto(
                    calls@,
                    i as int,
                ).contains(q),
        decreases calls@.len() - i,
    {
        match &calls[i] {
            Ok(dc) => {
                let t = dc.transaction;
                let ghost before = acc@;
                match &t.action {
                    TxAction::Call(rec) => {
                        insert_sorted(&mut acc, code_prefix(rec));
                        insert_sorted(&mut acc, metadata_prefix(rec));
                        insert_sorted(&mut acc, metadata_prefix(&t.sender));
                    },
                    TxAction::Create => {
                        insert_sorted(&mut acc, metadata_prefix(&t.sender));
                    },
                }
                proof {
                    assert forall|q: Seq<u8>| #[trigger] contains_bytes(acc@, q) <==> (
                    contains_bytes(before, q) || call_prefixes(t).contains(q)) by {}
                    assert forall|q: Seq<u8>| #[trigger]
                        contains_bytes(acc@, q) <==> batch_prefixes_upto(
                        calls@,
                        i as int + 1,
                    ).contains(q) by {
                        if contains_bytes(acc@, q) {
                            if contains_bytes(before, q) {
                                let w = choose|w: int|
                                    0 <= w < i && w < calls@.len() && slot_warms(
                                        #[trigger] calls@[w],
                                        q,
                                    );
                                assert(0 <= w < i + 1 && slot_warms(calls@[w], q));
                            } else {
                                assert(slot_warms(calls@[i as int], q));
                            }
                        }
                        if batch_prefixes_upto(calls@, i as int + 1).contains(q) {
                            let w = choose|w: int|
                                0 <= w < i + 1 && w < calls@.len() && slot_warms(
                                    #[trigger] calls@[w],
                                    q,
                                );
                            if w < i {
                                assert(batch_prefixes_upto(calls@, i as int).contains(q));
                            }
                        }
                    }
                }
            },
            Err(_) => {
                proof {
                    assert forall|q: Seq<u8>| #[trigger]
                        batch_prefixes_upto(calls@, i as int + 1).contains(q)
                        <==> batch_prefixes_upto(calls@, i as int).contains(q) by {
                        if batch_prefixes_upto(calls@, i as int + 1).contains(q) {
                            let w = choose|w: int|
                                0 <= w < i + 1 && w < calls@.len() && slot_warms(
                                    #[trigger] calls@[w],
                                    q,
                                );
                            assert(w != i);
                        }
                        if batch_prefixes_upto(calls@, i as int).contains(q) {
                            let w = choose|w: int|
                                0 <= w < i && w < calls@.len() && slot_warms(
                                    #[trigger] calls@[w],
                                    q,
                                );
                            assert(0 <= w < i + 1);
                        }
                    }
                }
            },
        }
        i = i + 1;
    }
    proof {
        assert(batch_prefixes(calls@) =~= batch_prefixes_upto(calls@, calls@.len() as int));
    }
    acc
}

} // verus!
