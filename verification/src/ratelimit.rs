//! Per-sender rate limiting: a per-minute hit counter and a 24-hour value
//! cap, each with lazy window resets, exactly as the pipeline applies them
//! before any network work.

use vstd::prelude::*;
use crate::bignum::BigNum;
use crate::errors::RelayError;
use crate::rlp::push_all;

verus! {

/// One token is `10^18` base units.
pub const TOKEN_UNIT: u128 = 1_000_000_000_000_000_000;

pub struct RateLimitConfig {
    /// Submissions one sender may make per minute; `0` disables the rule.
    pub per_addr_per_min: u32,
    /// Whole tokens one sender may move per day; `0` disables the rule.
    pub daily_cap_token: u64,
}

pub struct RateWindowCounter {
    pub window_start_sec: u64,
    pub amount: BigNum,
    pub hits: u32,
}

/// The ghost image of a window counter, over plain numbers.
pub ghost struct CounterView {
    pub window: u64,
    pub amount: nat,
    pub hits: nat,
}

impl View for RateWindowCounter {
    type V = CounterView;

    open spec fn view(&self) -> CounterView {
        CounterView { window: self.window_start_sec, amount: self.amount.value(), hits: self.hits as nat }
    }
}

/// One sender's counter in a window table.
pub struct RateEntry {
    pub key: Vec<u8>,
    pub counter: RateWindowCounter,
}

/// The two per-sender tables: 60-second windows and 86 400-second windows.
pub struct RateLimitState {
    pub per_min: Vec<RateEntry>,
    pub daily: Vec<RateEntry>,
}

/// Keys are unique and every stored amount is well formed.
pub open spec fn entries_wf(entries: Seq<RateEntry>) -> bool {
    &&& forall|i: int, j: int|
        0 <= i < j < entries.len() ==> entries[i].key@ != entries[j].key@
    &&& forall|i: int| 0 <= i < entries.len() ==> (#[trigger] entries[i].counter).amount.wf()
}

impl RateLimitState {
    pub open spec fn wf(&self) -> bool {
        entries_wf(self.per_min@) && entries_wf(self.daily@)
    }

    pub fn new() -> (r: RateLimitState)
        ensures
            r.wf(),
            r.per_min@.len() == 0,
            r.daily@.len() == 0,
    {
        RateLimitState { per_min: Vec::new(), daily: Vec::new() }
    }
}

/// The counter stored for `key`, if any, as its ghost image.
pub open spec fn spec_lookup_view(entries: Seq<RateEntry>, key: Seq<u8>) -> Option<CounterView>
    decreases entries.len(),
{
    if entries.len() == 0 {
        None
    } else if entries[0].key@ == key {
        Some(entries[0].counter@)
    } else {
        spec_lookup_view(entries.drop_first(), key)
    }
}

/// A counter never seen starts from zero in window zero.
pub open spec fn spec_counter_or_default(c: Option<CounterView>) -> CounterView {
    match c {
        Some(v) => v,
        None => CounterView { window: 0, amount: 0, hits: 0 },
    }
}

/// The per-minute rule: reset on a new window, refuse once `hits` reaches
/// the limit, otherwise count the hit and the amount. The reset is kept
/// even when the submission is refused.
pub open spec fn spec_minute_step(c: CounterView, window: u64, limit: u32, v: nat) -> (
    CounterView,
    bool,
) {
    let c1 = if c.window != window {
        CounterView { window, amount: 0, hits: 0 }
    } else {
        c
    };
    if c1.hits >= limit {
        (c1, false)
    } else {
        (CounterView { window: c1.window, amount: c1.amount + v, hits: c1.hits + 1 }, true)
    }
}

/// The daily rule: reset on a new window, always count the hit and the
/// amount, refuse when the accumulated amount passes the cap (the count
/// is kept even then).
pub open spec fn spec_daily_step(c: CounterView, window: u64, cap: nat, v: nat) -> (
    CounterView,
    bool,
) {
    let c1 = if c.window != window {
        CounterView { window, amount: 0, hits: 0 }
    } else {
        c
    };
    let c2 = CounterView {
        window: c1.window,
        amount: c1.amount + v,
        hits: if c1.hits + 1 > u32::MAX { u32::MAX as nat } else { c1.hits + 1 },
    };
    (c2, c2.amount <= cap)
}

/// The 60-second window that `now` falls in.
pub open spec fn spec_minute_window(now: u64) -> u64 {
    (now / 60) as u64
}

/// The 86 400-second window that `now` falls in.
pub open spec fn spec_daily_window(now: u64) -> u64 {
    (now / 86400) as u64
}

/// The per-minute rule's outcome for a submission against a table.
pub open spec fn spec_minute_result(
    config: RateLimitConfig,
    table: Seq<RateEntry>,
    from: Seq<u8>,
    v: nat,
    now: u64,
) -> (CounterView, bool) {
    spec_minute_step(
        spec_counter_or_default(spec_lookup_view(table, from)),
        spec_minute_window(now),
        config.per_addr_per_min,
        v,
    )
}

/// Whether the per-minute rule lets a submission through (a disabled rule
/// always does).
pub open spec fn spec_minute_ok(
    config: RateLimitConfig,
    table: Seq<RateEntry>,
    from: Seq<u8>,
    v: nat,
    now: u64,
) -> bool {
    config.per_addr_per_min == 0 || spec_minute_result(config, table, from, v, now).1
}

/// The daily rule's outcome for a submission against a table.
pub open spec fn spec_daily_result(
    config: RateLimitConfig,
    table: Seq<RateEntry>,
    from: Seq<u8>,
    v: nat,
    now: u64,
) -> (CounterView, bool) {
    spec_daily_step(
        spec_counter_or_default(spec_lookup_view(table, from)),
        spec_daily_window(now),
        spec_daily_cap(config)->Some_0,
        v,
    )
}

/// Whether the daily rule lets a submission through (a disabled rule
/// always does).
pub open spec fn spec_daily_ok(
    config: RateLimitConfig,
    table: Seq<RateEntry>,
    from: Seq<u8>,
    v: nat,
    now: u64,
) -> bool {
    spec_daily_cap(config) is None || spec_daily_result(config, table, from, v, now).1
}

/// The daily cap in token base units; `None` when the rule is disabled.
pub open spec fn spec_daily_cap(config: RateLimitConfig) -> Option<nat> {
    if config.daily_cap_token == 0 {
        None
    } else {
        Some(config.daily_cap_token as nat * TOKEN_UNIT as nat)
    }
}

pub fn daily_cap_in_smallest_unit(config: &RateLimitConfig) -> (r: Option<BigNum>)
    ensures
        match r {
            Some(cap) => cap.wf() && spec_daily_cap(*config) == Some(cap.value()),
            None => spec_daily_cap(*config) is None,
        },
{
    if config.daily_cap_token == 0 {
        None
    } else {
        let cap = (config.daily_cap_token as u128) * TOKEN_UNIT;
        Some(BigNum::from_u128(cap))
    }
}

fn bytes_equal(a: &[u8], b: &[u8]) -> (r: bool)
    ensures
        r == (a@ == b@),
{
    if a.len() != b.len() {
        proof {
            assert(a@.len() != b@.len());
        }
        return false;
    }
    let mut i: usize = 0;
    while i < a.len()
        invariant
            i <= a@.len(),
            a@.len() == b@.len(),
            forall|j: int| 0 <= j < i ==> a@[j] == b@[j],
        decreases a@.len() - i,
    {
        if a[i] != b[i] {
            return false;
        }
        i = i + 1;
    }
    proof {
        assert(a@ =~= b@);
    }
    true
}

fn copy_bytes(a: &[u8]) -> (r: Vec<u8>)
    ensures
        r@ == a@,
{
    let mut out: Vec<u8> = Vec::new();
    push_all(&mut out, a);
    proof {
        assert(out@ =~= a@);
    }
    out
}

/// Finds the entry for `key`.
#[verifier::loop_isolation(false)]
fn find_entry(entries: &Vec<RateEntry>, key: &[u8]) -> (r: Option<usize>)
    ensures
        match r {
            Some(i) => i < entries@.len() && entries@[i as int].key@ == key@
                && spec_lookup_view(entries@, key@) == Some(entries@[i as int].counter@),
            None => spec_lookup_view(entries@, key@) is None,
        },
{
    proof {
        assert(entries@.skip(0) =~= entries@);
    }
    let mut i: usize = 0;
    while i < entries.len()
        invariant
            i <= entries@.len(),
            spec_lookup_view(entries@, key@) == spec_lookup_view(
                entries@.skip(i as int),
                key@,
            ),
        decreases entries@.len() - i,
    {
        if bytes_equal(entries[i].key.as_slice(), key) {
            proof {
                assert(entries@.skip(i as int)[0] == entries@[i as int]);
            }
            return Some(i);
        }
        proof {
            assert(entries@.skip(i as int).drop_first() =~= entries@.skip(i + 1));
        }
        i = i + 1;
    }
    None
}

/// What a lookup sees after one entry is replaced by another with the
/// same key.
pub proof fn lemma_lookup_after_update(
    entries: Seq<RateEntry>,
    i: int,
    new: RateEntry,
    k: Seq<u8>,
)
    requires
        entries_wf(entries),
        0 <= i < entries.len(),
        new.key@ == entries[i].key@,
    ensures
        spec_lookup_view(entries.update(i, new), k) == if k == entries[i].key@ {
            Some(new.counter@)
        } else {
            spec_lookup_view(entries, k)
        },
    decreases entries.len(),
{
    let updated = entries.update(i, new);
    if i == 0 {
        assert(updated[0] == new);
        if k != entries[0].key@ {
            assert(updated.drop_first() =~= entries.drop_first());
        }
    } else {
        assert(updated[0] == entries[0]);
        assert(entries[0].key@ != entries[i].key@);
        if entries[0].key@ == k {
        } else {
            assert(updated.drop_first() =~= entries.drop_first().update(i - 1, new));
            assert(entries_wf(entries.drop_first())) by {
                assert(forall|a: int, b: int|
                    0 <= a < b < entries.drop_first().len() ==> entries.drop_first()[a]
                        == entries[a + 1] && entries.drop_first()[b] == entries[b + 1]);
                assert(forall|a: int| 0 <= a < entries.drop_first().len()
                    ==> (#[trigger] entries.drop_first()[a]) == entries[a + 1]);
            }
            assert(entries.drop_first()[i - 1] == entries[i]);
            lemma_lookup_after_update(entries.drop_first(), i - 1, new, k);
        }
    }
}

/// What a lookup sees after an entry with a fresh key is appended.
pub proof fn lemma_lookup_after_push(entries: Seq<RateEntry>, new: RateEntry, k: Seq<u8>)
    requires
        spec_lookup_view(entries, new.key@) is None,
    ensures
        spec_lookup_view(entries.push(new), k) == if k == new.key@ {
            Some(new.counter@)
        } else {
            spec_lookup_view(entries, k)
        },
    decreases entries.len(),
{
    let pushed = entries.push(new);
    assert(pushed.len() == entries.len() + 1);
    if entries.len() == 0 {
        assert(pushed[0] == new);
        if k == new.key@ {
            assert(spec_lookup_view(pushed, k) == Some(new.counter@));
        } else {
            assert(pushed.drop_first() =~= Seq::<RateEntry>::empty());
            assert(spec_lookup_view(pushed, k) == spec_lookup_view(pushed.drop_first(), k));
            assert(spec_lookup_view(pushed, k) is None);
            assert(spec_lookup_view(entries, k) is None);
        }
    } else {
        assert(pushed[0] == entries[0]);
        assert(entries[0].key@ != new.key@);
        if entries[0].key@ == k {
            assert(spec_lookup_view(pushed, k) == Some(entries[0].counter@));
            assert(spec_lookup_view(entries, k) == Some(entries[0].counter@));
        } else {
            assert(pushed.drop_first() =~= entries.drop_first().push(new));
            assert(spec_lookup_view(entries, new.key@) == spec_lookup_view(
                entries.drop_first(),
                new.key@,
            ));
            lemma_lookup_after_push(entries.drop_first(), new, k);
            assert(spec_lookup_view(pushed, k) == spec_lookup_view(
                entries.drop_first().push(new),
                k,
            ));
            assert(spec_lookup_view(entries, k) == spec_lookup_view(entries.drop_first(), k));
        }
    }
}

/// An absent key differs from every stored key.
pub proof fn lemma_lookup_none_absent(entries: Seq<RateEntry>, k: Seq<u8>)
    requires
        spec_lookup_view(entries, k) is None,
    ensures
        forall|i: int| 0 <= i < entries.len() ==> (#[trigger] entries[i]).key@ != k,
    decreases entries.len(),
{
    if entries.len() > 0 {
        lemma_lookup_none_absent(entries.drop_first(), k);
        assert(forall|i: int| 1 <= i < entries.len() ==> (#[trigger] entries[i])
            == entries.drop_first()[i - 1]);
    }
}

/// Applies one window rule to one table, committing the stepped counter,
/// and reports whether the step accepted the submission.
#[verifier::loop_isolation(false)]
fn apply_step(
    entries: &mut Vec<RateEntry>,
    from: &[u8],
    window: u64,
    minute_rule: bool,
    limit: u32,
    cap: &BigNum,
    amount: &BigNum,
) -> (ok: bool)
    requires
        entries_wf(old(entries)@),
        amount.wf(),
        cap.wf(),
    ensures
        entries_wf(final(entries)@),
        ({
            let c0 = spec_counter_or_default(spec_lookup_view(old(entries)@, from@));
            let stepped = if minute_rule {
                spec_minute_step(c0, window, limit, amount.value())
            } else {
                spec_daily_step(c0, window, cap.value(), amount.value())
            };
            &&& ok == stepped.1
            &&& spec_lookup_view(final(entries)@, from@) == Some(stepped.0)
            &&& forall|k: Seq<u8>| k != from@ ==> spec_lookup_view(final(entries)@, k)
                == spec_lookup_view(old(entries)@, k)
        }),
{
    let idx: usize;
    match find_entry(entries, from) {
        Some(i) => {
            idx = i;
        },
        None => {
            let fresh = RateEntry {
                key: copy_bytes(from),
                counter: RateWindowCounter {
                    window_start_sec: 0,
                    amount: BigNum::zero(),
                    hits: 0,
                },
            };
            proof {
                lemma_lookup_none_absent(entries@, from@);
                lemma_lookup_after_push(entries@, fresh, from@);
            }
            let ghost pre = entries@;
            entries.push(fresh);
            idx = entries.len() - 1;
            proof {
                assert forall|k: Seq<u8>| k != from@ implies spec_lookup_view(entries@, k)
                    == spec_lookup_view(pre, k) by {
                    lemma_lookup_after_push(pre, fresh, k);
                }
                assert(entries_wf(entries@)) by {
                    assert(forall|a: int| 0 <= a < pre.len() ==> (#[trigger] entries@[a])
                        == pre[a]);
                }
                assert(spec_lookup_view(entries@, from@) == Some(fresh.counter@));
            }
        },
    }
    let ghost mid = entries@;
    let ghost c0_found = spec_lookup_view(mid, from@)->Some_0;
    // Lazy reset on a window boundary.
    let cw = entries[idx].counter.window_start_sec;
    let chits = entries[idx].counter.hits;
    let reset: bool = cw != window;
    let base_window = window;
    let base_hits: u32 = if reset { 0 } else { chits };
    let base_amount: BigNum = if reset {
        BigNum::zero()
    } else {
        entries[idx].counter.amount.clone_value()
    };
    let ghost c1 = CounterView {
        window: base_window,
        amount: base_amount.value(),
        hits: base_hits as nat,
    };
    let ok: bool;
    let new_counter: RateWindowCounter;
    if minute_rule {
        if base_hits >= limit {
            ok = false;
            new_counter = RateWindowCounter {
                window_start_sec: base_window,
                amount: base_amount,
                hits: base_hits,
            };
        } else {
            ok = true;
            new_counter = RateWindowCounter {
                window_start_sec: base_window,
                amount: base_amount.add_value(amount),
                hits: base_hits + 1,
            };
        }
    } else {
        let new_amount = base_amount.add_value(amount);
        ok = new_amount.le(cap);
        let new_hits: u32 = if base_hits == u32::MAX {
            u32::MAX
        } else {
            base_hits + 1
        };
        new_counter = RateWindowCounter {
            window_start_sec: base_window,
            amount: new_amount,
            hits: new_hits,
        };
    }
    let new_entry = RateEntry { key: copy_bytes(from), counter: new_counter };
    proof {
        lemma_lookup_after_update(mid, idx as int, new_entry, from@);
    }
    entries[idx] = new_entry;
    proof {
        assert forall|k: Seq<u8>| k != from@ implies spec_lookup_view(entries@, k)
            == spec_lookup_view(mid, k) by {
            lemma_lookup_after_update(mid, idx as int, new_entry, k);
        }
        assert(entries_wf(entries@)) by {
            assert(forall|a: int| 0 <= a < mid.len() && a != idx ==> (#[trigger] entries@[a])
                == mid[a]);
        }
    }
    ok
}

/// Applies both rules for a submission of `amount` by `from` at `now_sec`.
/// The per-minute rule commits before the daily rule runs, so a submission
/// the daily cap refuses still leaves its per-minute hit counted.
pub fn enforce_rate_limits(
    config: &RateLimitConfig,
    st: &mut RateLimitState,
    from: &[u8],
    amount: &BigNum,
    now_sec: u64,
) -> (r: Result<(), RelayError>)
    requires
        old(st).wf(),
        amount.wf(),
    ensures
        final(st).wf(),
        r is Ok <==> spec_minute_ok(*config, old(st).per_min@, from@, amount.value(), now_sec)
            && spec_daily_ok(*config, old(st).daily@, from@, amount.value(), now_sec),
        r is Err ==> r->Err_0 == RelayError::RateLimited,
        config.per_addr_per_min > 0 ==> spec_lookup_view(final(st).per_min@, from@) == Some(
            spec_minute_result(*config, old(st).per_min@, from@, amount.value(), now_sec).0,
        ) && (forall|k: Seq<u8>| k != from@ ==> spec_lookup_view(final(st).per_min@, k)
            == spec_lookup_view(old(st).per_min@, k)),
        config.per_addr_per_min == 0 ==> final(st).per_min@ == old(st).per_min@,
        (spec_minute_ok(*config, old(st).per_min@, from@, amount.value(), now_sec)
            && spec_daily_cap(*config) is Some) ==> spec_lookup_view(final(st).daily@, from@)
            == Some(
            spec_daily_result(*config, old(st).daily@, from@, amount.value(), now_sec).0,
        ) && (forall|k: Seq<u8>| k != from@ ==> spec_lookup_view(final(st).daily@, k)
            == spec_lookup_view(old(st).daily@, k)),
        (!spec_minute_ok(*config, old(st).per_min@, from@, amount.value(), now_sec)
            || spec_daily_cap(*config) is None) ==> final(st).daily@ == old(st).daily@,
{
    if config.per_addr_per_min > 0 {
        let window = now_sec / 60;
        let zero = BigNum::zero();
        let ok = apply_step(
            &mut st.per_min,
            from,
            window,
            true,
            config.per_addr_per_min,
            &zero,
            amount,
        );
        if !ok {
            return Err(RelayError::RateLimited);
        }
    }
    match daily_cap_in_smallest_unit(config) {
        Some(cap) => {
            let window = now_sec / 86400;
            let ok = apply_step(&mut st.daily, from, window, false, 0, &cap, amount);
            if !ok {
                return Err(RelayError::RateLimited);
            }
        },
        None => {},
    }
    Ok(())
}

/// All of a run of submissions in one window are accepted.
pub open spec fn spec_minute_run_ok(
    c: CounterView,
    window: u64,
    limit: u32,
    vs: Seq<nat>,
) -> bool
    decreases vs.len(),
{
    if vs.len() == 0 {
        true
    } else {
        let stepped = spec_minute_step(c, window, limit, vs[0]);
        stepped.1 && spec_minute_run_ok(stepped.0, window, limit, vs.drop_first())
    }
}

/// A counter already in the window with room for `vs.len()` more hits
/// accepts the whole run.
proof fn lemma_minute_run_in_window(c: CounterView, window: u64, limit: u32, vs: Seq<nat>)
    requires
        c.window == window,
        c.hits + vs.len() <= limit,
    ensures
        spec_minute_run_ok(c, window, limit, vs),
    decreases vs.len(),
{
    if vs.len() > 0 {
        let stepped = spec_minute_step(c, window, limit, vs[0]);
        assert(stepped.1);
        lemma_minute_run_in_window(stepped.0, window, limit, vs.drop_first());
    }
}

/// On a window boundary the per-minute counter resets, whatever it held,
/// and accepts up to `limit` fresh submissions.
pub proof fn lemma_minute_window_reset(c: CounterView, window: u64, limit: u32, vs: Seq<nat>)
    requires
        c.window != window,
        vs.len() <= limit,
        vs.len() > 0,
    ensures
        spec_minute_run_ok(c, window, limit, vs),
{
    let stepped = spec_minute_step(c, window, limit, vs[0]);
    assert(stepped.1);
    lemma_minute_run_in_window(stepped.0, window, limit, vs.drop_first());
}

} // verus!
