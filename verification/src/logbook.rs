//! The append-only payment log: ids drawn from a monotonic counter, one
//! terminal write per entry, and reverse-chronological paging.

use vstd::prelude::*;
use vstd::string::StringSliceAdditionalSpecFns;
use crate::bignum::BigNum;

verus! {

#[derive(PartialEq, Eq, Structural, Debug)]
pub enum PaymentStatus {
    Accepted,
    Broadcasted,
    Failed,
}

/// One payment attempt.
pub struct PaymentLog {
    pub id: u64,
    pub ts_sec: u64,
    /// The asset's opaque identifier (the token canister's principal bytes).
    pub asset: Vec<u8>,
    pub from: String,
    pub to: String,
    pub value: BigNum,
    pub status: PaymentStatus,
    pub tx_hash: Option<String>,
    pub fail_reason: Option<String>,
}

/// Ids strictly increase along the log and stay below the counter, and
/// every stored value is well formed.
pub open spec fn logs_wf(logs: Seq<PaymentLog>, next_log_id: u64) -> bool {
    &&& forall|i: int, j: int| 0 <= i < j < logs.len() ==> logs[i].id < logs[j].id
    &&& forall|i: int| 0 <= i < logs.len() ==> (#[trigger] logs[i]).id < next_log_id
    &&& forall|i: int| 0 <= i < logs.len() ==> (#[trigger] logs[i]).value.wf()
}

/// Log monotonicity: along a well-formed log, any earlier entry has the
/// smaller id.
pub proof fn lemma_log_ids_strictly_increase(
    logs: Seq<PaymentLog>,
    next_log_id: u64,
    i: int,
    j: int,
)
    requires
        logs_wf(logs, next_log_id),
        0 <= i < j < logs.len(),
    ensures
        logs[i].id < logs[j].id,
{
}

/// Appends a fresh entry in `Accepted` state and returns its id, the
/// counter's former value.
pub fn reserve_log(
    logs: &mut Vec<PaymentLog>,
    next_log_id: &mut u64,
    ts_sec: u64,
    asset: Vec<u8>,
    from: String,
    to: String,
    value: BigNum,
) -> (id: u64)
    requires
        logs_wf(old(logs)@, *old(next_log_id)),
        *old(next_log_id) < u64::MAX,
        value.wf(),
    ensures
        id == *old(next_log_id),
        *final(next_log_id) == *old(next_log_id) + 1,
        logs_wf(final(logs)@, *final(next_log_id)),
        final(logs)@.len() == old(logs)@.len() + 1,
        forall|i: int| 0 <= i < old(logs)@.len() ==> final(logs)@[i] == old(logs)@[i],
        ({
            let e = final(logs)@.last();
            &&& e.id == id
            &&& e.ts_sec == ts_sec
            &&& e.asset@ == asset@
            &&& e.from@ == from@
            &&& e.to@ == to@
            &&& e.value.value() == value.value()
            &&& e.status == PaymentStatus::Accepted
            &&& e.tx_hash is None
            &&& e.fail_reason is None
        }),
{
    let id = *next_log_id;
    *next_log_id = id + 1;
    logs.push(
        PaymentLog {
            id,
            ts_sec,
            asset,
            from,
            to,
            value,
            status: PaymentStatus::Accepted,
            tx_hash: None,
            fail_reason: None,
        },
    );
    id
}

/// Marks the entry with `log_id` as `Failed` and records the reason;
/// every other entry and every other field stay as they were. An unknown
/// id changes nothing.
#[verifier::loop_isolation(false)]
pub fn mark_log_failure(logs: &mut Vec<PaymentLog>, log_id: u64, reason: &str)
    ensures
        final(logs)@.len() == old(logs)@.len(),
        forall|i: int| 0 <= i < old(logs)@.len() && old(logs)@[i].id != log_id
            ==> final(logs)@[i] == old(logs)@[i],
        forall|i: int| 0 <= i < old(logs)@.len() && old(logs)@[i].id == log_id ==> {
            let e = final(logs)@[i];
            let o = old(logs)@[i];
            &&& e.id == o.id
            &&& e.ts_sec == o.ts_sec
            &&& e.asset == o.asset
            &&& e.from == o.from
            &&& e.to == o.to
            &&& e.value == o.value
            &&& e.status == PaymentStatus::Failed
            &&& e.tx_hash == o.tx_hash
            &&& e.fail_reason matches Some(m) && m@ == reason@
        },
{
    let n = logs.len();
    let mut i: usize = 0;
    while i < n
        invariant
            i <= n == logs@.len(),
            logs@.len() == old(logs)@.len(),
            forall|j: int| i <= j < logs@.len() ==> logs@[j] == old(logs)@[j],
            forall|j: int| 0 <= j < i && old(logs)@[j].id != log_id ==> logs@[j] == old(
                logs,
            )@[j],
            forall|j: int| 0 <= j < i && old(logs)@[j].id == log_id ==> {
                let e = logs@[j];
                let o = old(logs)@[j];
                &&& e.id == o.id
                &&& e.ts_sec == o.ts_sec
                &&& e.asset == o.asset
                &&& e.from == o.from
                &&& e.to == o.to
                &&& e.value == o.value
                &&& e.status == PaymentStatus::Failed
                &&& e.tx_hash == o.tx_hash
                &&& e.fail_reason matches Some(m) && m@ == reason@
            },
        decreases n - i,
    {
        if logs[i].id == log_id {
            let entry = logs.remove(i);
            let updated = PaymentLog {
                id: entry.id,
                ts_sec: entry.ts_sec,
                asset: entry.asset,
                from: entry.from,
                to: entry.to,
                value: entry.value,
                status: PaymentStatus::Failed,
                tx_hash: entry.tx_hash,
                fail_reason: Some(reason.to_owned()),
            };
            logs.insert(i, updated);
        }
        i = i + 1;
    }
}

/// Marks the entry with `log_id` as `Broadcasted`, records the
/// transaction hash and clears any failure reason; every other entry and
/// field stay as they were. An unknown id changes nothing.
#[verifier::loop_isolation(false)]
pub fn mark_log_success(logs: &mut Vec<PaymentLog>, log_id: u64, tx_hash: &str)
    ensures
        final(logs)@.len() == old(logs)@.len(),
        forall|i: int| 0 <= i < old(logs)@.len() && old(logs)@[i].id != log_id
            ==> final(logs)@[i] == old(logs)@[i],
        forall|i: int| 0 <= i < old(logs)@.len() && old(logs)@[i].id == log_id ==> {
            let e = final(logs)@[i];
            let o = old(logs)@[i];
            &&& e.id == o.id
            &&& e.ts_sec == o.ts_sec
            &&& e.asset == o.asset
            &&& e.from == o.from
            &&& e.to == o.to
            &&& e.value == o.value
            &&& e.status == PaymentStatus::Broadcasted
            &&& e.tx_hash matches Some(h) && h@ == tx_hash@
            &&& e.fail_reason is None
        },
{
    let n = logs.len();
    let mut i: usize = 0;
    while i < n
        invariant
            i <= n == logs@.len(),
            logs@.len() == old(logs)@.len(),
            forall|j: int| i <= j < logs@.len() ==> logs@[j] == old(logs)@[j],
            forall|j: int| 0 <= j < i && old(logs)@[j].id != log_id ==> logs@[j] == old(
                logs,
            )@[j],
            forall|j: int| 0 <= j < i && old(logs)@[j].id == log_id ==> {
                let e = logs@[j];
                let o = old(logs)@[j];
                &&& e.id == o.id
                &&& e.ts_sec == o.ts_sec
                &&& e.asset == o.asset
                &&& e.from == o.from
                &&& e.to == o.to
                &&& e.value == o.value
                &&& e.status == PaymentStatus::Broadcasted
                &&& e.tx_hash matches Some(h) && h@ == tx_hash@
                &&& e.fail_reason is None
            },
        decreases n - i,
    {
        if logs[i].id == log_id {
            let entry = logs.remove(i);
            let updated = PaymentLog {
                id: entry.id,
                ts_sec: entry.ts_sec,
                asset: entry.asset,
                from: entry.from,
                to: entry.to,
                value: entry.value,
                status: PaymentStatus::Broadcasted,
                tx_hash: Some(tx_hash.to_owned()),
                fail_reason: None,
            };
            logs.insert(i, updated);
        }
        i = i + 1;
    }
}

/// A log entry as the observation surface reports it.
pub struct LogEntryOut {
    pub id: u64,
    pub ts: u64,
    pub from: String,
    pub to: String,
    pub value: BigNum,
    pub tx: Option<String>,
    pub status: String,
    pub fail_reason: Option<String>,
}

/// The display word for each status.
pub open spec fn spec_status_chars(s: PaymentStatus) -> Seq<char> {
    match s {
        PaymentStatus::Accepted => "accepted"@,
        PaymentStatus::Broadcasted => "broadcasted"@,
        PaymentStatus::Failed => "failed"@,
    }
}

pub fn status_string(s: &PaymentStatus) -> (r: String)
    ensures
        r@ == spec_status_chars(*s),
{
    match s {
        PaymentStatus::Accepted => String::from_str("accepted"),
        PaymentStatus::Broadcasted => String::from_str("broadcasted"),
        PaymentStatus::Failed => String::from_str("failed"),
    }
}

/// The entries a page shows, newest first: walk the log backwards, pass
/// over ids at or below the cursor, and stop once `room` entries stand.
pub open spec fn spec_page(logs: Seq<PaymentLog>, cursor: Option<u64>, room: nat) -> Seq<
    PaymentLog,
>
    decreases logs.len(),
{
    if logs.len() == 0 {
        Seq::empty()
    } else {
        let rest = logs.drop_last();
        let last = logs.last();
        if cursor matches Some(c) && last.id <= c {
            spec_page(rest, cursor, room)
        } else if room == 0 {
            Seq::empty()
        } else {
            seq![last] + spec_page(rest, cursor, (room - 1) as nat)
        }
    }
}

/// With no room left a page shows nothing.
pub proof fn lemma_page_zero_room(logs: Seq<PaymentLog>, cursor: Option<u64>)
    ensures
        spec_page(logs, cursor, 0) == Seq::<PaymentLog>::empty(),
    decreases logs.len(),
{
    if logs.len() > 0 {
        lemma_page_zero_room(logs.drop_last(), cursor);
    }
}

/// Whether an output row reports exactly the entry `l`.
pub open spec fn spec_entry_matches(v: LogEntryOut, l: PaymentLog) -> bool {
    &&& v.id == l.id
    &&& v.ts == l.ts_sec
    &&& v.from@ == l.from@
    &&& v.to@ == l.to@
    &&& v.value.value() == l.value.value()
    &&& (v.tx is Some <==> l.tx_hash is Some)
    &&& (l.tx_hash is Some ==> v.tx->Some_0@ == l.tx_hash->Some_0@)
    &&& v.status@ == spec_status_chars(l.status)
    &&& (v.fail_reason is Some <==> l.fail_reason is Some)
    &&& (l.fail_reason is Some ==> v.fail_reason->Some_0@ == l.fail_reason->Some_0@)
}

fn clone_opt_string(o: &Option<String>) -> (r: Option<String>)
    ensures
        r is Some <==> o is Some,
        o is Some ==> r->Some_0@ == o->Some_0@,
{
    match o {
        Some(s) => Some(s.clone()),
        None => None,
    }
}

/// Up to `max(limit, 1)` entries with ids above the cursor, newest first.
#[verifier::loop_isolation(false)]
pub fn logs_page(logs: &Vec<PaymentLog>, start_after: Option<u64>, limit: u32) -> (out: Vec<
    LogEntryOut,
>)
    requires
        forall|i: int| 0 <= i < logs@.len() ==> (#[trigger] logs@[i]).value.wf(),
    ensures
        ({
            let room = if limit == 0 { 1nat } else { limit as nat };
            let sel = spec_page(logs@, start_after, room);
            &&& out@.len() == sel.len()
            &&& forall|k: int| 0 <= k < sel.len() ==> spec_entry_matches(#[trigger] out@[k], sel[k])
        }),
{
    let room: usize = if limit == 0 {
        1
    } else {
        limit as usize
    };
    let ghost room0: nat = room as nat;
    let mut out: Vec<LogEntryOut> = Vec::new();
    let ghost mut picked: Seq<PaymentLog> = Seq::empty();
    let mut i: usize = logs.len();
    proof {
        assert(logs@.take(i as int) =~= logs@);
        assert(Seq::<PaymentLog>::empty() + spec_page(logs@, start_after, room0) =~= spec_page(
            logs@,
            start_after,
            room0,
        ));
    }
    while i > 0
        invariant
            i <= logs@.len(),
            out@.len() == picked.len(),
            out@.len() <= room0,
            forall|k: int| 0 <= k < picked.len() ==> spec_entry_matches(
                #[trigger] out@[k],
                picked[k],
            ),
            spec_page(logs@, start_after, room0) == picked + spec_page(
                logs@.take(i as int),
                start_after,
                (room0 - out@.len()) as nat,
            ),
        decreases i,
    {
        i = i - 1;
        let entry = &logs[i];
        proof {
            assert(logs@.take(i + 1).drop_last() =~= logs@.take(i as int));
            assert(logs@.take(i + 1).last() == logs@[i as int]);
        }
        let skip = match start_after {
            Some(c) => entry.id <= c,
            None => false,
        };
        if !skip {
            if out.len() >= room {
                proof {
                    lemma_page_zero_room(logs@.take(i + 1), start_after);
                    lemma_page_zero_room(logs@.take(i as int), start_after);
                }
            } else {
                let row = LogEntryOut {
                    id: entry.id,
                    ts: entry.ts_sec,
                    from: entry.from.clone(),
                    to: entry.to.clone(),
                    value: entry.value.clone_value(),
                    tx: clone_opt_string(&entry.tx_hash),
                    status: status_string(&entry.status),
                    fail_reason: clone_opt_string(&entry.fail_reason),
                };
                proof {
                    assert(spec_entry_matches(row, logs@[i as int]));
                    assert(picked + (seq![logs@[i as int]] + spec_page(
                        logs@.take(i as int),
                        start_after,
                        (room0 - out@.len() - 1) as nat,
                    )) =~= (picked + seq![logs@[i as int]]) + spec_page(
                        logs@.take(i as int),
                        start_after,
                        (room0 - out@.len() - 1) as nat,
                    ));
                }
                out.push(row);
                proof {
                    picked = picked.push(logs@[i as int]);
                }
            }
        }
    }
    proof {
        assert(logs@.take(0) =~= Seq::<PaymentLog>::empty());
        assert(spec_page(logs@, start_after, room0) =~= picked);
    }
    out
}

/// Marking an entry keeps the log well formed: no id or value changes.
pub proof fn lemma_marking_preserves_wf(
    before: Seq<PaymentLog>,
    after: Seq<PaymentLog>,
    next_log_id: u64,
    log_id: u64,
)
    requires
        logs_wf(before, next_log_id),
        after.len() == before.len(),
        forall|i: int| 0 <= i < before.len() ==> after[i].id == before[i].id && after[i].value
            == before[i].value,
    ensures
        logs_wf(after, next_log_id),
{
}

} // verus!
