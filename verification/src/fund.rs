//! Scheduled unlocking of the fixed token supply.
//!
//! There is a total fixed supply of 21 million tokens. The chain unlocks
//! 525,000 tokens every month in the first 20 months, and the monthly
//! release is cut in half every 20 months. The manager reads the unlock
//! schedule's state — the initial timestamp and the number of rounds
//! already unlocked — out of two 32-byte storage words, counts the months
//! that have become due at the given time, and reports the amount to add
//! to the beneficiary's balance together with the new round counter; the
//! caller writes both back to the store.
//!
//! All amounts are in wei. The total supply is far below `u128::MAX`, so
//! every sum here fits a `u128`, which is proved, not assumed.

use vstd::prelude::*;

use vstd::arithmetic::div_mod::{
    lemma_basic_div, lemma_div_basics, lemma_div_denominator, lemma_div_is_ordered,
    lemma_div_is_ordered_by_denominator, lemma_fundamental_div_mod,
};
use vstd::arithmetic::power2::{
    lemma2_to64, lemma2_to64_rest, lemma_pow2_adds, lemma_pow2_pos, lemma_pow2_strictly_increases,
    pow2,
};

use crate::wire::be32;

verus! {

/// Unlock address, as a hex string, without the `0x` prefix.
pub fn beneficiary() -> (r: String)
    ensures
        r@ == "7110316b618d20d0c44728ac2a3d683536ea682b"@,
{
    String::from_str("7110316b618d20d0c44728ac2a3d683536ea682b")
}

/// Adjust period: the monthly release is cut after this many rounds.
pub const PERIOD: u32 = 20;

/// Factor by which the release is cut each period.
pub const FACTOR: u32 = 2;

/// Initial unlock bucket: 525,000 tokens in wei.
pub const INITIAL_BUCKET: u128 = 525000000000000000000000;

/// A calendar month: a year paired with a month number from 1 to 12.
#[derive(Clone, Copy)]
pub struct MonthTuple {
    pub year: i32,
    pub month: u32,
}

/// A month number between 1 and 12.
pub open spec fn mt_wf(mt: MonthTuple) -> bool {
    1 <= mt.month <= 12
}

/// Months since the start of year zero: the key a month tuple orders by.
pub open spec fn month_index(mt: MonthTuple) -> int {
    mt.year * 12 + (mt.month - 1)
}

impl MonthTuple {
    /// Advance this month by `n` months, carrying into the year.
    pub fn add_months(&mut self, n: u32)
        requires
            mt_wf(*old(self)),
            month_index(*old(self)) + n <= 0x7fff_ffff * 12 + 11,
        ensures
            mt_wf(*final(self)),
            month_index(*final(self)) == month_index(*old(self)) + n,
    {
        let total: i64 = (self.year as i64) * 12 + ((self.month - 1) as i64) + (n as i64);
        let shifted: u64 = (total + 25769803776i64) as u64;
        let yq: u64 = shifted / 12;
        let m: u64 = shifted % 12;
        proof {
            lemma_fundamental_div_mod(shifted as int, 12);
        }
        self.year = (yq as i64 - 2147483648i64) as i32;
        self.month = (m + 1) as u32;
    }

    /// Whether this month is no later than `other`.
    pub fn le(&self, other: &MonthTuple) -> (r: bool)
        requires
            mt_wf(*self),
            mt_wf(*other),
        ensures
            r == (month_index(*self) <= month_index(*other)),
    {
        if self.year < other.year {
            true
        } else if self.year > other.year {
            false
        } else {
            self.month <= other.month
        }
    }
}

/// The civil year and month of a UNIX timestamp, or `None` when the
/// calendar cannot represent it.
pub uninterp spec fn ym_of(secs: int) -> Option<(i32, u32)>;

/// Relies on chrono's `DateTime::<Utc>::from_timestamp` and
/// `Datelike::{year, month}`: the proleptic-Gregorian year and 1-based
/// month of a timestamp, `None` exactly on out-of-range seconds. The
/// result depends on the timestamp alone; chrono's month is 1 to 12 and
/// its year is confined to its calendar range.
#[verifier::external_body]
fn year_month_of(secs: i64) -> (r: Option<(i32, u32)>)
    ensures
        r == ym_of(secs as int),
        r matches Some(ym) ==> 1 <= ym.1 <= 12 && -262143 <= ym.0 <= 262142,
{
    chrono::DateTime::<chrono::Utc>::from_timestamp(secs, 0).map(
        |dt| (chrono::Datelike::year(&dt), chrono::Datelike::month(&dt)),
    )
}

/// Convert a timestamp to its (year, month) tuple; day and time of day
/// play no role in the unlock schedule.
pub fn timestamp_to_mt(timestamp: i64) -> (r: Option<MonthTuple>)
    ensures
        r matches Some(mt) ==> ym_of(timestamp as int) matches Some(ym) && mt.year == ym.0
            && mt.month == ym.1 && mt_wf(mt) && -262143 <= mt.year <= 262142,
        r is None <==> ym_of(timestamp as int) is None,
{
    match year_month_of(timestamp) {
        Some((y, m)) => Some(MonthTuple { year: y, month: m }),
        None => None,
    }
}

/// The big-endian value of an 8-byte sequence.
pub open spec fn be64(s: Seq<u8>) -> nat
    recommends
        s.len() == 8,
{
    (((((((s[0] * 256 + s[1]) * 256 + s[2]) * 256 + s[3]) * 256 + s[4]) * 256 + s[5]) * 256
        + s[6]) * 256 + s[7]) as nat
}

/// The two's-complement reading of an 8-byte big-endian word.
pub open spec fn be_i64(s: Seq<u8>) -> int {
    if be64(s) < 0x8000_0000_0000_0000 {
        be64(s) as int
    } else {
        be64(s) - 0x1_0000_0000_0000_0000
    }
}

/// The two's-complement reinterpretation of a 64-bit word, as the `u64`
/// to `i64` cast performs it.
pub open spec fn as_wrapped_i64(v: u64) -> int {
    if v < 0x8000_0000_0000_0000 {
        v as int
    } else {
        v - 0x1_0000_0000_0000_0000
    }
}

/// Read the big-endian 4-byte value at `off`.
fn read_be_u32(v: &Vec<u8>, off: usize) -> (r: u32)
    requires
        off + 4 <= v@.len(),
    ensures
        r == be32(v@.subrange(off as int, off as int + 4)),
{
    let _n: usize = v.len();
    let b0 = v[off] as u32;
    let b1 = v[off + 1] as u32;
    let b2 = v[off + 2] as u32;
    let b3 = v[off + 3] as u32;
    proof {
        let s = v@.subrange(off as int, off as int + 4);
        assert(s[0] == v@[off as int] && s[1] == v@[off as int + 1] && s[2] == v@[off as int + 2]
            && s[3] == v@[off as int + 3]);
    }
    ((b0 * 256 + b1) * 256 + b2) * 256 + b3
}

/// Read the big-endian 8-byte two's-complement value at `off`.
fn read_be_i64(v: &Vec<u8>, off: usize) -> (r: i64)
    requires
        off + 8 <= v@.len(),
    ensures
        r as int == be_i64(v@.subrange(off as int, off as int + 8)),
{
    let _n: usize = v.len();
    let mut acc: u64 = 0;
    acc = v[off] as u64;
    acc = acc * 256 + v[off + 1] as u64;
    acc = acc * 256 + v[off + 2] as u64;
    acc = acc * 256 + v[off + 3] as u64;
    acc = acc * 256 + v[off + 4] as u64;
    acc = acc * 256 + v[off + 5] as u64;
    acc = acc * 256 + v[off + 6] as u64;
    acc = acc * 256 + v[off + 7] as u64;
    proof {
        let s = v@.subrange(off as int, off as int + 8);
        assert(forall|j: int| 0 <= j < 8 ==> s[j] == v@[off as int + j]);
        assert(acc == be64(s));
    }
    if acc < 0x8000_0000_0000_0000u64 {
        acc as i64
    } else {
        ((acc - 0x8000_0000_0000_0000u64) as i64) + i64::MIN
    }
}

/// Reinterpret a `u64` as a two's-complement `i64`.
fn wrap_to_i64(v: u64) -> (r: i64)
    ensures
        r as int == as_wrapped_i64(v),
{
    if v < 0x8000_0000_0000_0000u64 {
        v as i64
    } else {
        ((v - 0x8000_0000_0000_0000u64) as i64) + i64::MIN
    }
}

/// The amount one round unlocks: the initial bucket, halved once per
/// elapsed period.
pub open spec fn bucket_of(round: nat) -> nat {
    (INITIAL_BUCKET as nat) / pow2(round / (PERIOD as nat))
}

/// The total amount unlocked by `count` rounds starting at `round`.
pub open spec fn unlocked(round: nat, count: nat) -> nat
    decreases count,
{
    if count == 0 {
        0
    } else {
        bucket_of(round) + unlocked(round + 1, (count - 1) as nat)
    }
}

/// One more round adds that round's bucket.
pub proof fn lemma_unlocked_snoc(round: nat, count: nat)
    ensures
        unlocked(round, count + 1) == unlocked(round, count) + bucket_of(round + count),
    decreases count,
{
    if count == 0 {
        assert(unlocked(round, 1) == bucket_of(round) + unlocked(round + 1, 0));
        assert(unlocked(round + 1, 0) == 0);
        assert(unlocked(round, 0) == 0);
    } else {
        lemma_unlocked_snoc(round + 1, (count - 1) as nat);
        assert(unlocked(round, count + 1) == bucket_of(round) + unlocked(round + 1, count));
        assert(unlocked(round, count) == bucket_of(round) + unlocked(
            round + 1,
            (count - 1) as nat,
        ));
        assert(((count - 1) as nat) + 1 == count);
    }
}

/// A round's bucket never exceeds the initial bucket, and is zero from
/// round 1580 on: by then the halving exponent is at least 79, and
/// 2^79 already exceeds the initial bucket.
pub proof fn lemma_bucket_bound(round: nat)
    ensures
        bucket_of(round) <= INITIAL_BUCKET,
        round >= 1580 ==> bucket_of(round) == 0,
{
    let e = round / (PERIOD as nat);
    lemma_pow2_pos(e);
    lemma_div_is_ordered_by_denominator(INITIAL_BUCKET as int, 1, pow2(e) as int);
    lemma_div_basics(INITIAL_BUCKET as int);
    if round >= 1580 {
        lemma_div_is_ordered(1580, round as int, PERIOD as int);
        assert(e >= 79);
        lemma2_to64();
        lemma2_to64_rest();
        lemma_pow2_adds(64, 15);
        assert(pow2(79) == 0x8000_0000_0000_0000_0000);
        if e > 79 {
            lemma_pow2_strictly_increases(79, e);
        }
        lemma_basic_div(INITIAL_BUCKET as int, pow2(e) as int);
    }
}

/// The whole schedule stays below 1580 initial buckets, and so below
/// `u128::MAX`: only the first 1580 rounds unlock anything at all.
pub proof fn lemma_unlocked_bound(round: nat, count: nat)
    ensures
        unlocked(round, count) <= (if round >= 1580 {
            0int
        } else {
            1580 - round
        }) * INITIAL_BUCKET,
    decreases count,
{
    if count > 0 {
        lemma_bucket_bound(round);
        lemma_unlocked_bound(round + 1, (count - 1) as nat);
        if round >= 1580 {
            assert(bucket_of(round) == 0);
        } else {
            assert((1580 - round) * INITIAL_BUCKET == INITIAL_BUCKET + (1580 - round - 1)
                * INITIAL_BUCKET) by (nonlinear_arith);
            if round + 1 >= 1580 {
                assert(unlocked(round + 1, (count - 1) as nat) <= 0 * INITIAL_BUCKET);
            }
        }
    }
}

/// Divide by a power of two, by repeated halving.
fn div_pow2(x: u128, e: u32) -> (r: u128)
    ensures
        r as nat == (x as nat) / pow2(e as nat),
{
    proof {
        lemma2_to64();
        lemma_div_basics(x as int);
    }
    let mut r: u128 = x;
    let mut i: u32 = 0;
    while i < e
        invariant
            i <= e,
            r as nat == (x as nat) / pow2(i as nat),
        decreases e - i,
    {
        proof {
            lemma_pow2_pos(i as nat);
            lemma2_to64();
            lemma_pow2_adds(i as nat, 1);
            lemma_div_denominator(x as int, pow2(i as nat) as int, 2);
        }
        r = r / (FACTOR as u128);
        i = i + 1;
    }
    r
}

/// What one unlock attempt computes and reports back.
pub struct UnlockOutcome {
    /// The amount to add to the beneficiary's balance, in wei.
    pub funding: u128,
    /// The round counter to write back to the second storage word.
    pub unlock_round: u32,
    /// Whether the schedule had started: when false, nothing is written.
    pub applied: bool,
}

/// How many rounds become due: the months from the schedule's start plus
/// the already-unlocked rounds, up to and including the current month.
pub open spec fn unlock_count(init_ym: (i32, u32), cur_ym: (i32, u32), round: nat) -> nat {
    let start = init_ym.0 * 12 + (init_ym.1 - 1) + round;
    let cur = cur_ym.0 * 12 + (cur_ym.1 - 1);
    if cur >= start {
        (cur - start + 1) as nat
    } else {
        0
    }
}

/// Everything `try_unlock` promises, over the parsed storage words.
///
/// When the time is before the schedule's start, nothing is unlocked and
/// nothing is applied. Otherwise the months due are counted; a timestamp
/// the calendar cannot represent, or a round counter that would overflow,
/// yields `None`; else the funding is the exact sum of the due rounds'
/// buckets and the round counter advances by the number of due months.
pub open spec fn unlock_model(
    timestamp: u64,
    init_word: Seq<u8>,
    round_word: Seq<u8>,
    r: Option<UnlockOutcome>,
) -> bool {
    let t = as_wrapped_i64(timestamp);
    let init_ts = be_i64(init_word.subrange(24, 32));
    let round0 = be32(round_word.subrange(28, 32));
    if t < init_ts {
        r matches Some(o) && o.funding == 0 && o.unlock_round == round0 && !o.applied
    } else {
        match ym_of(init_ts) {
            None => r is None,
            Some(iym) => match ym_of(t) {
                None => r is None,
                Some(cym) => {
                    let count = unlock_count(iym, cym, round0);
                    if round0 + count > 0xffff_ffff {
                        r is None
                    } else {
                        r matches Some(o) && o.applied && o.funding == unlocked(round0, count)
                            && o.unlock_round == round0 + count
                    }
                },
            },
        }
    }
}

/// The fund manager: the unlock schedule's arithmetic.
pub struct FundManager;

impl FundManager {
    /// Primary unlock token method.
    ///
    /// `init_word` and `round_word` are the beneficiary's storage words:
    /// bytes 24..32 of the first hold the schedule's initial timestamp,
    /// big-endian; bytes 28..32 of the second hold the rounds already
    /// unlocked. The caller adds the reported funding to the beneficiary's
    /// balance and stores the reported round counter back, when `applied`.
    pub fn try_unlock(timestamp: u64, init_word: &Vec<u8>, round_word: &Vec<u8>) -> (r: Option<
        UnlockOutcome,
    >)
        requires
            init_word@.len() == 32,
            round_word@.len() == 32,
        ensures
            unlock_model(timestamp, init_word@, round_word@, r),
    {
        let init_ts: i64 = read_be_i64(init_word, 24);
        let round_start: u32 = read_be_u32(round_word, 28);
        let t: i64 = wrap_to_i64(timestamp);
        if t < init_ts {
            return Some(UnlockOutcome { funding: 0, unlock_round: round_start, applied: false });
        }
        let mut step_ym = match timestamp_to_mt(init_ts) {
            Some(mt) => mt,
            None => {
                return None;
            },
        };
        let cur_ym = match timestamp_to_mt(t) {
            Some(mt) => mt,
            None => {
                return None;
            },
        };
        let ghost init_mt = step_ym;
        let start_idx: i64 = (step_ym.year as i64) * 12 + ((step_ym.month - 1) as i64) + (
        round_start as i64);
        let cur_idx: i64 = (cur_ym.year as i64) * 12 + ((cur_ym.month - 1) as i64);
        let count: u64 = if cur_idx >= start_idx {
            (cur_idx - start_idx + 1) as u64
        } else {
            0
        };
        if count > (u32::MAX as u64) - (round_start as u64) {
            return None;
        }
        step_ym.add_months(round_start);
        let mut exponent: u32 = 0;
        let mut bucket: u128 = INITIAL_BUCKET;
        let mut funding: u128 = 0;
        let mut unlock_round: u32 = round_start;
        proof {
            lemma2_to64();
            lemma_div_basics(INITIAL_BUCKET as int);
        }
        while step_ym.le(&cur_ym)
            invariant
                mt_wf(step_ym),
                mt_wf(cur_ym),
                -262143 <= cur_ym.year <= 262142,
                month_index(cur_ym) == cur_idx,
                round_start <= unlock_round,
                unlock_round as int - round_start as int <= count,
                round_start + count <= 0xffff_ffff,
                month_index(step_ym) == month_index(init_mt) + unlock_round,
                month_index(init_mt) + round_start == start_idx,
                count == if cur_idx >= start_idx {
                    cur_idx - start_idx + 1
                } else {
                    0
                },
                funding == unlocked(
                    round_start as nat,
                    (unlock_round - round_start) as nat,
                ),
                bucket as nat == (INITIAL_BUCKET as nat) / pow2(exponent as nat),
            decreases month_index(cur_ym) - month_index(step_ym) + 1,
        {
            let e: u32 = unlock_round / PERIOD;
            if exponent != e {
                exponent = e;
                bucket = div_pow2(INITIAL_BUCKET, exponent);
            }
            proof {
                assert(bucket as nat == bucket_of(unlock_round as nat));
                let done = (unlock_round - round_start) as nat;
                lemma_unlocked_snoc(round_start as nat, done);
                lemma_unlocked_bound(round_start as nat, done + 1);
                if (round_start as nat) < 1580 {
                    assert((1580 - round_start as nat) * INITIAL_BUCKET <= 1580
                        * INITIAL_BUCKET) by (nonlinear_arith);
                }
                assert(funding + bucket <= 1580 * INITIAL_BUCKET);
            }
            funding = funding + bucket;
            step_ym.add_months(1);
            unlock_round = unlock_round + 1;
        }
        proof {
            assert(unlock_round as int - round_start as int == count);
        }
        Some(UnlockOutcome { funding, unlock_round, applied: true })
    }
}

} // verus!
