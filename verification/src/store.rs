//! The server's memory: which requests it has seen and what came of them, and
//! the log of its operations.
//!
//! What a request or an operation adds is written to disk before it is added
//! here: the functions that add it take what came of the writing, and leave the
//! memory as it was where the writing failed.

use vstd::prelude::*;

use crate::error::ProtocolError;
use crate::messages::{RequestStatus, RequestStatusResult, ServerMessage};
use crate::record::{AnyOperationRecord, PreparedRecord};
use crate::text;

verus! {

/// What came of a request.
#[derive(Debug)]
pub enum StoredResult {
    Done(ServerMessage),
    Error(ProtocolError),
}

/// A request that the server has seen. Without a result, it is in progress.
#[derive(Debug)]
pub struct RequestEntry {
    pub request_id: String,
    pub op_kind: String,
    pub result: Option<StoredResult>,
}

/// Whether one of the entries belongs to request `id`.
pub open spec fn knows(requests: Seq<RequestEntry>, id: Seq<char>) -> bool {
    exists|i: int| 0 <= i < requests.len() && (#[trigger] requests[i]).request_id@ == id
}

/// Whether each request has one entry.
pub open spec fn one_entry_each(requests: Seq<RequestEntry>) -> bool {
    forall|i: int, j: int|
        0 <= i < j < requests.len() ==> (#[trigger] requests[i]).request_id@ != (
        #[trigger] requests[j]).request_id@
}

/// The id of the `n`th operation.
pub open spec fn operation_id(n: nat) -> Seq<char> {
    seq!['o', 'p', '-'] + text::decimal(n)
}

/// The number of an operation id, if it is one.
pub open spec fn operation_number(id: Seq<char>) -> Option<nat> {
    let digits = id.skip(3);
    if id.len() > 3 && id.take(3) == seq!['o', 'p', '-'] && (forall|i: int|
        0 <= i < digits.len() ==> text::is_digit(#[trigger] digits[i])) && text::digits_value(
        digits,
    ) <= u64::MAX {
        Some(text::digits_value(digits))
    } else {
        None
    }
}

/// How many of the lines record an operation.
pub open spec fn operations_in(log: Seq<AnyOperationRecord>) -> nat
    decreases log.len(),
{
    if log.len() == 0 {
        0
    } else {
        operations_in(log.drop_last()) + if log.last().spec_is_operation() {
            1nat
        } else {
            0nat
        }
    }
}

/// The operations of a log, oldest first.
pub open spec fn operations_of(log: Seq<AnyOperationRecord>) -> Seq<AnyOperationRecord>
    decreases log.len(),
{
    if log.len() == 0 {
        Seq::<AnyOperationRecord>::empty()
    } else if log.last().spec_is_operation() {
        operations_of(log.drop_last()).push(log.last())
    } else {
        operations_of(log.drop_last())
    }
}

/// Whether pruning to `keep` operations drops the first `cut` lines: as many as
/// it takes to leave no more than `keep` operations, and none after those.
pub open spec fn is_cut(log: Seq<AnyOperationRecord>, keep: nat, cut: int) -> bool {
    &&& 0 <= cut <= log.len()
    &&& operations_in(log.skip(cut)) <= keep
    &&& cut > 0 ==> log[cut - 1].spec_is_operation() && operations_in(log.skip(cut)) == keep
}

/// Whether a line of the log belongs to request `id`.
pub open spec fn referenced(log: Seq<AnyOperationRecord>, id: Seq<char>) -> bool {
    exists|i: int| 0 <= i < log.len() && (#[trigger] log[i]).spec_request_id() == id
}

/// Whether pruning keeps an entry: its request is in progress, or a line that
/// stays belongs to it.
pub open spec fn keeps_entry(log: Seq<AnyOperationRecord>, entry: RequestEntry) -> bool {
    entry.result is None || referenced(log, entry.request_id@)
}

/// The entries that pruning keeps, in order.
pub open spec fn kept_entries(
    log: Seq<AnyOperationRecord>,
    requests: Seq<RequestEntry>,
) -> Seq<RequestEntry>
    decreases requests.len(),
{
    if requests.len() == 0 {
        Seq::<RequestEntry>::empty()
    } else if keeps_entry(log, requests.last()) {
        kept_entries(log, requests.drop_last()).push(requests.last())
    } else {
        kept_entries(log, requests.drop_last())
    }
}

/// The entries of requests that are over, in order.
pub open spec fn finished_entries(requests: Seq<RequestEntry>) -> Seq<RequestEntry>
    decreases requests.len(),
{
    if requests.len() == 0 {
        Seq::<RequestEntry>::empty()
    } else if requests.last().result is Some {
        finished_entries(requests.drop_last()).push(requests.last())
    } else {
        finished_entries(requests.drop_last())
    }
}

/// Whether line `i` announces a file operation and no later line tells what came
/// of it.
pub open spec fn unresolved(log: Seq<AnyOperationRecord>, i: int) -> bool {
    &&& 0 <= i < log.len()
    &&& log[i] is Prepared
    &&& forall|j: int|
        i < j < log.len() && !((#[trigger] log[j]) is Prepared) ==> log[j].spec_operation_id()
            != log[i].spec_operation_id()
}

/// Whether the log announces operation `id` and does not tell yet what came of it.
pub open spec fn announced(log: Seq<AnyOperationRecord>, id: Seq<char>) -> bool {
    exists|i: int| #[trigger] unresolved(log, i) && log[i].spec_operation_id() == id
}

/// The newest line that records operation `id`, if one does.
pub open spec fn record_of(log: Seq<AnyOperationRecord>, id: Seq<char>) -> Option<
    AnyOperationRecord,
>
    decreases log.len(),
{
    if log.len() == 0 {
        None
    } else if log.last().spec_is_operation() && log.last().spec_operation_id() == id {
        Some(log.last())
    } else {
        record_of(log.drop_last(), id)
    }
}

/// Whether `out` lists the newest operations of a log, at most `limit`, oldest
/// first.
pub open spec fn is_history(
    out: Seq<AnyOperationRecord>,
    log: Seq<AnyOperationRecord>,
    limit: nat,
) -> bool {
    let all = operations_of(log);
    let n = if all.len() <= limit {
        all.len() as int
    } else {
        limit as int
    };
    &&& out.len() == n
    &&& forall|i: int| 0 <= i < n ==> (#[trigger] out[i]).same(all[all.len() - n + i])
}

/// Whether `out` tells what is known of request `id`.
pub open spec fn is_status(
    out: RequestStatusResult,
    requests: Seq<RequestEntry>,
    id: Seq<char>,
) -> bool {
    &&& out.target@ == id
    &&& match entry_of(requests, id) {
        None => out.status == RequestStatus::Unknown && out.error is None,
        Some(entry) => match entry.result {
            None => out.status == RequestStatus::InProgress && out.error is None,
            Some(StoredResult::Done(_)) => out.status == RequestStatus::Done && out.error is None,
            Some(StoredResult::Error(e)) => out.status == RequestStatus::Error && out.error
                == Some(e),
        },
    }
}

/// Whether `last` is the number that was noted, or that of a line of the log.
pub open spec fn is_newest(log: Seq<AnyOperationRecord>, noted: u64, last: u64) -> bool {
    last == noted || exists|i: int|
        #![trigger log[i]]
        0 <= i < log.len() && operation_number(log[i].spec_operation_id()) == Some(last as nat)
}

/// Whether pruning to `keep` operations turned one store into the other.
pub open spec fn pruned(
    before: OperationStore,
    after: OperationStore,
    keep: nat,
    stats: PruneStats,
) -> bool {
    &&& after.last_id() == before.last_id()
    &&& exists|cut: int| #[trigger]
        is_cut(before.log(), keep, cut) && after.log() == before.log().skip(cut)
    &&& after.requests() == kept_entries(after.log(), before.requests())
    &&& stats.retained_operations == operations_in(after.log())
    &&& stats.removed_operations == operations_in(before.log()) - operations_in(after.log())
    &&& stats.removed_requests == before.requests().len() - after.requests().len()
}

/// What pruning removed and left.
pub struct PruneStats {
    pub removed_operations: usize,
    pub removed_requests: usize,
    pub retained_operations: usize,
}

/// Two numbers make two operation ids.
pub proof fn operation_ids_are_distinct(a: nat, b: nat)
    requires
        a != b,
    ensures
        operation_id(a) != operation_id(b),
{
    text::decimal_denotes(a);
    text::decimal_denotes(b);
    assert(operation_id(a).skip(3) =~= text::decimal(a));
    assert(operation_id(b).skip(3) =~= text::decimal(b));
}

/// An operation id tells its number.
pub proof fn operation_id_has_its_number(n: nat)
    requires
        n <= u64::MAX,
    ensures
        operation_number(operation_id(n)) == Some(n),
{
    text::decimal_denotes(n);
    assert(operation_id(n).skip(3) =~= text::decimal(n));
    assert(operation_id(n).take(3) =~= seq!['o', 'p', '-']);
}

pub struct OperationStore {
    requests: Vec<RequestEntry>,
    log: Vec<AnyOperationRecord>,
    last_id: u64,
}

impl OperationStore {
    /// The requests that the server has seen, in the order in which they came.
    pub closed spec fn requests(&self) -> Seq<RequestEntry> {
        self.requests@
    }

    /// The lines of the operation log, oldest first.
    pub closed spec fn log(&self) -> Seq<AnyOperationRecord> {
        self.log@
    }

    /// The number of the newest operation id that was ever given out.
    pub closed spec fn last_id(&self) -> u64 {
        self.last_id
    }

    /// Each request has one entry, and no id in the log is newer than the newest
    /// that was given out.
    pub open spec fn wf(&self) -> bool {
        &&& one_entry_each(self.requests())
        &&& ids_up_to(self.log(), self.last_id())
    }

    /// The next operation id is the id of no line of the log.
    pub proof fn next_id_is_fresh(&self, i: int)
        requires
            self.wf(),
            self.last_id() < u64::MAX,
            0 <= i < self.log().len(),
        ensures
            self.log()[i].spec_operation_id() != operation_id((self.last_id() + 1) as nat),
    {
        operation_id_has_its_number((self.last_id() + 1) as nat);
    }

    pub fn new() -> (s: Self)
        ensures
            s.wf(),
            s.requests() == Seq::<RequestEntry>::empty(),
            s.log() == Seq::<AnyOperationRecord>::empty(),
            s.last_id() == 0,
    {
        OperationStore { requests: Vec::new(), log: Vec::new(), last_id: 0 }
    }

    /// The memory as it was written: the entries in order, of which the newest
    /// for each request counts, the lines of the log, and the number that was
    /// noted as the newest.
    pub fn load(
        entries: Vec<RequestEntry>,
        log: Vec<AnyOperationRecord>,
        noted: u64,
    ) -> (s: Self)
        ensures
            s.wf(),
            s.log() == log@,
            is_newest(log@, noted, s.last_id()),
            s.last_id() >= noted,
            forall|i: int|
                #![trigger log@[i]]
                0 <= i < log@.len() ==> (operation_number(
                    log@[i].spec_operation_id(),
                ) matches Some(n) ==> n <= s.last_id()),
            s.requests() == newest_entries(entries@),
    {
        let last_id = newest_number(&log, noted);
        let mut requests: Vec<RequestEntry> = Vec::new();
        let ghost all = entries@;
        proof {
            assert(newest_entries(all.take(0)) =~= Seq::<RequestEntry>::empty());
        }
        for entry in it: entries.into_iter()
            invariant
                it.seq() == all,
                requests@ == newest_entries(all.take(it.index() as int)),
                one_entry_each(requests@),
        {
            let ghost k = it.index() as int;
            let ghost before = requests@;
            proof {
                assert(all.take(k + 1).drop_last() =~= all.take(k));
                assert(all.take(k + 1).last() == entry);
            }
            match find_entry(&requests, entry.request_id.as_str()) {
                Some(i) => {
                    requests.set(i, entry);
                    assert(requests@ =~= before.update(i as int, entry));
                    proof {
                        entry_position_is(before, entry.request_id@, i as int);
                        assert forall|a: int, b: int| 0 <= a < b < requests@.len() implies (
                        #[trigger] requests@[a]).request_id@ != (
                        #[trigger] requests@[b]).request_id@ by {
                            assert(before[a].request_id@ != before[b].request_id@);
                        }
                    }
                },
                None => {
                    requests.push(entry);
                    proof {
                        assert forall|a: int, b: int| 0 <= a < b < requests@.len() implies (
                        #[trigger] requests@[a]).request_id@ != (
                        #[trigger] requests@[b]).request_id@ by {
                            if b < before.len() {
                                assert(before[a].request_id@ != before[b].request_id@);
                            } else {
                                assert(before[a].request_id@ != entry.request_id@);
                            }
                        }
                    }
                },
            }
        }
        assert(all.take(all.len() as int) =~= all);
        OperationStore { requests, log, last_id }
    }

    /// The position of the entry of request `id`.
    pub fn find_request(&self, id: &str) -> (out: Option<usize>)
        ensures
            match out {
                Some(i) => i < self.requests().len() && self.requests()[i as int].request_id@
                    == id@,
                None => !knows(self.requests(), id@),
            },
    {
        find_entry(&self.requests, id)
    }

    /// The entry at a position.
    pub fn request_at(&self, i: usize) -> (entry: &RequestEntry)
        requires
            i < self.requests().len(),
        ensures
            *entry == self.requests()[i as int],
    {
        &self.requests[i]
    }

    /// How many requests have an entry.
    pub fn request_count(&self) -> (n: usize)
        ensures
            n == self.requests().len(),
    {
        self.requests.len()
    }

    /// How many lines the log has.
    pub fn log_len(&self) -> (n: usize)
        ensures
            n == self.log().len(),
    {
        self.log.len()
    }

    /// The line of the log at a position.
    pub fn log_line(&self, i: usize) -> (line: &AnyOperationRecord)
        requires
            i < self.log().len(),
        ensures
            *line == self.log()[i as int],
    {
        &self.log[i]
    }

    /// Enters a request that is new as in progress.
    pub fn claim_request(
        &mut self,
        id: &str,
        op_kind: &str,
        written: Result<(), ProtocolError>,
    ) -> (out: Result<(), ProtocolError>)
        requires
            old(self).wf(),
            !knows(old(self).requests(), id@),
        ensures
            final(self).wf(),
            out == written,
            final(self).log() == old(self).log(),
            final(self).last_id() == old(self).last_id(),
            match written {
                Ok(_) => {
                    &&& final(self).requests().len() == old(self).requests().len() + 1
                    &&& final(self).requests().drop_last() == old(self).requests()
                    &&& final(self).requests().last().request_id@ == id@
                    &&& final(self).requests().last().op_kind@ == op_kind@
                    &&& final(self).requests().last().result is None
                },
                Err(_) => final(self).requests() == old(self).requests(),
            },
    {
        if written.is_ok() {
            let ghost before = self.requests@;
            self.requests.push(
                RequestEntry { request_id: id.to_owned(), op_kind: op_kind.to_owned(), result: None },
            );
            proof {
                assert(self.requests@.drop_last() =~= before);
                assert forall|a: int, b: int| 0 <= a < b < self.requests@.len() implies (
                #[trigger] self.requests@[a]).request_id@ != (
                #[trigger] self.requests@[b]).request_id@ by {
                    if b < before.len() {
                        assert(before[a].request_id@ != before[b].request_id@);
                    } else {
                        assert(before[a].request_id@ != id@);
                    }
                }
            }
        }
        written
    }

    /// Sets what came of the request at a position.
    pub fn remember(
        &mut self,
        i: usize,
        result: StoredResult,
        written: Result<(), ProtocolError>,
    ) -> (out: Result<(), ProtocolError>)
        requires
            old(self).wf(),
            i < old(self).requests().len(),
        ensures
            final(self).wf(),
            out == written,
            final(self).log() == old(self).log(),
            final(self).last_id() == old(self).last_id(),
            final(self).requests() == (match written {
                Ok(_) => old(self).requests().update(
                    i as int,
                    (RequestEntry { result: Some(result), ..old(self).requests()[i as int] }),
                ),
                Err(_) => old(self).requests(),
            }),
    {
        if written.is_ok() {
            let ghost before = self.requests@;
            let entry = RequestEntry {
                request_id: self.requests[i].request_id.clone(),
                op_kind: self.requests[i].op_kind.clone(),
                result: Some(result),
            };
            self.requests.set(i, entry);
            proof {
                assert forall|a: int, b: int| 0 <= a < b < self.requests@.len() implies (
                #[trigger] self.requests@[a]).request_id@ != (
                #[trigger] self.requests@[b]).request_id@ by {
                    assert(before[a].request_id@ != before[b].request_id@);
                }
            }
        }
        written
    }

    /// What is known of request `id`.
    pub fn status_for_request(&self, id: &str) -> (out: RequestStatusResult)
        requires
            self.wf(),
        ensures
            is_status(out, self.requests(), id@),
    {
        let target = id.to_owned();
        match self.find_request(id) {
            None => RequestStatusResult { target, status: RequestStatus::Unknown, error: None },
            Some(i) => {
                proof {
                    entry_position_is(self.requests@, id@, i as int);
                }
                match &self.requests[i].result {
                    None => RequestStatusResult {
                        target,
                        status: RequestStatus::InProgress,
                        error: None,
                    },
                    Some(StoredResult::Done(_)) => RequestStatusResult {
                        target,
                        status: RequestStatus::Done,
                        error: None,
                    },
                    Some(StoredResult::Error(e)) => RequestStatusResult {
                        target,
                        status: RequestStatus::Error,
                        error: Some(e.clone()),
                    },
                }
            },
        }
    }

    /// Whether another operation id can be given out.
    pub fn has_ids(&self) -> (yes: bool)
        ensures
            yes == (self.last_id() < u64::MAX),
    {
        self.last_id < u64::MAX
    }

    /// The number of the newest operation id that was given out.
    pub fn newest_id(&self) -> (n: u64)
        ensures
            n == self.last_id(),
    {
        self.last_id
    }

    /// Gives out the next operation id.
    pub fn next_operation_id(&mut self) -> (id: String)
        requires
            old(self).wf(),
            old(self).last_id() < u64::MAX,
        ensures
            final(self).wf(),
            id@ == operation_id(final(self).last_id() as nat),
            final(self).last_id() == old(self).last_id() + 1,
            final(self).log() == old(self).log(),
            final(self).requests() == old(self).requests(),
    {
        self.last_id = self.last_id + 1;
        let n = text::decimal_u64(self.last_id);
        let id = text::concat("op-", n.as_str());
        proof {
            reveal_strlit("op-");
            assert("op-"@ =~= seq!['o', 'p', '-']);
        }
        id
    }

    /// Adds a line to the log.
    pub fn append(
        &mut self,
        record: AnyOperationRecord,
        written: Result<(), ProtocolError>,
    ) -> (out: Result<(), ProtocolError>)
        requires
            old(self).wf(),
            operation_number(record.spec_operation_id()) matches Some(n) ==> n <= old(
                self,
            ).last_id(),
        ensures
            final(self).wf(),
            out == written,
            final(self).last_id() == old(self).last_id(),
            final(self).requests() == old(self).requests(),
            final(self).log() == (match written {
                Ok(_) => old(self).log().push(record),
                Err(_) => old(self).log(),
            }),
    {
        if written.is_ok() {
            self.log.push(record);
        }
        written
    }

    /// The newest line that records operation `id`. Lines that announce or give
    /// up an operation do not record it.
    pub fn find_record(&self, id: &str) -> (out: Option<&AnyOperationRecord>)
        ensures
            match out {
                Some(r) => record_of(self.log(), id@) == Some(*r),
                None => record_of(self.log(), id@) is None,
            },
    {
        let mut i: usize = self.log.len();
        assert(self.log@.take(i as int) =~= self.log@);
        while i > 0
            invariant
                i <= self.log@.len(),
                record_of(self.log@, id@) == record_of(self.log@.take(i as int), id@),
            decreases i,
        {
            proof {
                assert(self.log@.take(i as int).drop_last() =~= self.log@.take(i - 1));
                assert(self.log@.take(i as int).last() == self.log@[i - 1]);
            }
            i -= 1;
            if self.log[i].is_operation() && text::str_eq(
                self.log[i].operation_id().as_str(),
                id,
            ) {
                return Some(&self.log[i]);
            }
        }
        None
    }

    /// The newest operations, at most `limit`, oldest first.
    pub fn history(&self, limit: usize) -> (out: Vec<AnyOperationRecord>)
        ensures
            is_history(out@, self.log(), limit as nat),
    {
        let ghost log = self.log@;
        let ghost all = operations_of(log);
        let mut positions: Vec<usize> = Vec::new();
        let mut i: usize = self.log.len();
        proof {
            assert(log.take(i as int) =~= log);
        }
        while i > 0 && positions.len() < limit
            invariant
                i <= self.log@.len(),
                log == self.log@,
                all == operations_of(log),
                positions@.len() <= limit,
                operations_of(log.take(i as int)).len() + positions@.len() == all.len(),
                forall|k: int|
                    0 <= k < positions@.len() ==> (#[trigger] positions@[k]) < log.len()
                        && log[positions@[k] as int] == all[all.len() - 1 - k],
                forall|m: int|
                    0 <= m < operations_of(log.take(i as int)).len() ==> #[trigger] operations_of(
                        log.take(i as int),
                    )[m] == all[m],
            decreases i,
        {
            proof {
                assert(log.take(i as int).drop_last() =~= log.take(i - 1));
                assert(log.take(i as int).last() == log[i - 1]);
            }
            let ghost now = operations_of(log.take(i as int));
            i -= 1;
            if self.log[i].is_operation() {
                positions.push(i);
                assert(now[now.len() - 1] == log[i as int]);
                assert forall|m: int|
                    0 <= m < operations_of(log.take(i as int)).len() implies #[trigger] operations_of(
                    log.take(i as int),
                )[m] == all[m] by {
                    assert(now[m] == operations_of(log.take(i as int))[m]);
                }
            }
        }
        if i == 0 {
            assert(log.take(0) =~= Seq::<AnyOperationRecord>::empty());
        }
        let n: usize = positions.len();
        let mut out: Vec<AnyOperationRecord> = Vec::new();
        let mut k: usize = n;
        while k > 0
            invariant
                k <= n,
                n == positions@.len(),
                n <= all.len(),
                log == self.log@,
                out@.len() == n - k,
                forall|j: int|
                    0 <= j < n ==> (#[trigger] positions@[j]) < log.len()
                        && log[positions@[j] as int] == all[all.len() - 1 - j],
                forall|j: int|
                    0 <= j < out@.len() ==> (#[trigger] out@[j]).same(all[all.len() - n + j]),
            decreases k,
        {
            k -= 1;
            let at: usize = positions[k];
            out.push(self.log[at].clone());
        }
        out
    }

    /// Drops the oldest lines until no more than `keep` operations are left, and
    /// the entries of requests that are over and that no line left belongs to.
    pub fn prune(&mut self, keep: usize) -> (out: PruneStats)
        requires
            old(self).wf(),
        ensures
            final(self).wf(),
            pruned(*old(self), *final(self), keep as nat, out),
    {
        let ghost log = self.log@;
        let ghost requests = self.requests@;
        let cut = find_cut(&self.log, keep);
        let total = count_operations(&self.log);
        let tail = self.log.split_off(cut);
        assert(tail@ =~= log.skip(cut as int));
        self.log = tail;
        let retained = count_operations(&self.log);
        let had: usize = self.requests.len();
        let mut entries: Vec<RequestEntry> = Vec::new();
        std::mem::swap(&mut entries, &mut self.requests);
        let requests_kept = keep_entries(entries, &self.log);
        self.requests = requests_kept;
        proof {
            kept_entries_facts(self.log@, requests);
            operations_in_skip(log, cut as int);
            assert(is_cut(log, keep as nat, cut as int));
            assert forall|i: int|
                #![trigger self.log@[i]]
                0 <= i < self.log@.len() implies (operation_number(
                self.log@[i].spec_operation_id(),
            ) matches Some(n) ==> n <= self.last_id) by {
                assert(self.log@[i] == log[cut + i]);
            }
        }
        PruneStats {
            removed_operations: total - retained,
            removed_requests: had - self.requests.len(),
            retained_operations: retained,
        }
    }

    /// The first line from position `from` on that announces an operation of
    /// which no later line tells what came.
    pub fn next_unresolved(&self, from: usize) -> (out: Option<usize>)
        requires
            from <= self.log().len(),
        ensures
            match out {
                Some(i) => {
                    &&& from <= i < self.log().len()
                    &&& unresolved(self.log(), i as int)
                    &&& forall|j: int| from <= j < i ==> !#[trigger] unresolved(self.log(), j)
                },
                None => forall|j: int|
                    from <= j < self.log().len() ==> !#[trigger] unresolved(self.log(), j),
            },
    {
        let n: usize = self.log.len();
        let mut i: usize = from;
        while i < n
            invariant
                from <= i <= n,
                n == self.log@.len(),
                forall|j: int| from <= j < i ==> !#[trigger] unresolved(self.log(), j),
            decreases n - i,
        {
            let announces = match &self.log[i] {
                AnyOperationRecord::Prepared(_) => true,
                _ => false,
            };
            if announces && !self.told_later(i) {
                return Some(i);
            }
            i += 1;
        }
        None
    }

    /// Whether the log announces operation `id` and does not tell yet what came of
    /// it.
    pub fn is_announced(&self, id: &str) -> (yes: bool)
        ensures
            yes == announced(self.log(), id@),
    {
        let n: usize = self.log.len();
        let mut from: usize = 0;
        while from < n
            invariant
                from <= n,
                n == self.log@.len(),
                forall|j: int| #[trigger]
                    unresolved(self.log(), j) && j < from ==> self.log()[j].spec_operation_id()
                        != id@,
            decreases n - from,
        {
            match self.next_unresolved(from) {
                None => {
                    return false;
                },
                Some(i) => {
                    if text::str_eq(self.log[i].operation_id().as_str(), id) {
                        return true;
                    }
                    from = i + 1;
                },
            }
        }
        false
    }

    fn told_later(&self, i: usize) -> (yes: bool)
        requires
            i < self.log@.len(),
        ensures
            yes == exists|j: int|
                i < j < self.log@.len() && !((#[trigger] self.log@[j]) is Prepared)
                    && self.log@[j].spec_operation_id() == self.log@[i as int].spec_operation_id(),
    {
        let n: usize = self.log.len();
        let mut j: usize = i + 1;
        while j < n
            invariant
                i < j <= n,
                n == self.log@.len(),
                forall|k: int|
                    i < k < j && !((#[trigger] self.log@[k]) is Prepared)
                        ==> self.log@[k].spec_operation_id()
                        != self.log@[i as int].spec_operation_id(),
            decreases n - j,
        {
            let tells = match &self.log[j] {
                AnyOperationRecord::Prepared(_) => false,
                _ => true,
            };
            if tells && text::str_eq(
                self.log[j].operation_id().as_str(),
                self.log[i].operation_id().as_str(),
            ) {
                return true;
            }
            j += 1;
        }
        false
    }

    /// The announced operation at a position.
    pub fn prepared_at(&self, i: usize) -> (out: Option<&PreparedRecord>)
        requires
            i < self.log().len(),
        ensures
            match out {
                Some(p) => self.log()[i as int] == AnyOperationRecord::Prepared(*p),
                None => !(self.log()[i as int] is Prepared),
            },
    {
        match &self.log[i] {
            AnyOperationRecord::Prepared(p) => Some(p),
            _ => None,
        }
    }

    /// Drops the entries of requests that are in progress, so that they can be
    /// sent again.
    pub fn clear_in_progress(&mut self) -> (removed: usize)
        requires
            old(self).wf(),
        ensures
            final(self).wf(),
            final(self).log() == old(self).log(),
            final(self).last_id() == old(self).last_id(),
            final(self).requests() == finished_entries(old(self).requests()),
            removed == old(self).requests().len() - final(self).requests().len(),
    {
        let ghost requests = self.requests@;
        let had: usize = self.requests.len();
        let mut entries: Vec<RequestEntry> = Vec::new();
        std::mem::swap(&mut entries, &mut self.requests);
        let kept = finished_only(entries);
        self.requests = kept;
        proof {
            finished_entries_facts(requests);
        }
        had - self.requests.len()
    }
}

/// Whether no operation id in the log has a number above `last`.
pub open spec fn ids_up_to(log: Seq<AnyOperationRecord>, last: u64) -> bool {
    forall|i: int|
        #![trigger log[i]]
        0 <= i < log.len() ==> (operation_number(log[i].spec_operation_id()) matches Some(n) ==> n
            <= last)
}

/// The position of the entry of request `id`, of which there is one.
pub open spec fn entry_position(requests: Seq<RequestEntry>, id: Seq<char>) -> int {
    choose|i: int| 0 <= i < requests.len() && (#[trigger] requests[i]).request_id@ == id
}

/// The entry of request `id`, if there is one.
pub open spec fn entry_of(requests: Seq<RequestEntry>, id: Seq<char>) -> Option<RequestEntry> {
    if knows(requests, id) {
        Some(requests[entry_position(requests, id)])
    } else {
        None
    }
}

/// Where the one entry of a request stands.
pub proof fn entry_position_is(requests: Seq<RequestEntry>, id: Seq<char>, i: int)
    requires
        one_entry_each(requests),
        0 <= i < requests.len(),
        requests[i].request_id@ == id,
    ensures
        entry_position(requests, id) == i,
{
    let k = entry_position(requests, id);
    assert(0 <= k < requests.len() && requests[k].request_id@ == id);
    if k < i {
        assert(requests[k].request_id@ != requests[i].request_id@);
    } else if i < k {
        assert(requests[i].request_id@ != requests[k].request_id@);
    }
}

/// The newest entry of each request, where its first entry stood.
pub open spec fn newest_entries(entries: Seq<RequestEntry>) -> Seq<RequestEntry>
    decreases entries.len(),
{
    if entries.len() == 0 {
        Seq::<RequestEntry>::empty()
    } else {
        let front = newest_entries(entries.drop_last());
        let entry = entries.last();
        if knows(front, entry.request_id@) {
            front.update(entry_position(front, entry.request_id@), entry)
        } else {
            front.push(entry)
        }
    }
}

fn find_entry(requests: &Vec<RequestEntry>, id: &str) -> (out: Option<usize>)
    ensures
        match out {
            Some(i) => i < requests@.len() && requests@[i as int].request_id@ == id@,
            None => !knows(requests@, id@),
        },
{
    let n: usize = requests.len();
    let mut i: usize = 0;
    while i < n
        invariant
            i <= n,
            n == requests@.len(),
            forall|j: int| 0 <= j < i ==> (#[trigger] requests@[j]).request_id@ != id@,
        decreases n - i,
    {
        if text::str_eq(requests[i].request_id.as_str(), id) {
            return Some(i);
        }
        i += 1;
    }
    None
}

fn number_of(id: &str) -> (out: Option<u64>)
    ensures
        match out {
            Some(n) => operation_number(id@) == Some(n as nat),
            None => operation_number(id@) is None,
        },
{
    let chars = text::chars_of(id);
    let n: usize = chars.len();
    if n <= 3 || chars[0] != 'o' || chars[1] != 'p' || chars[2] != '-' {
        proof {
            if n > 3 {
                assert(id@.take(3)[0] == id@[0] && id@.take(3)[1] == id@[1] && id@.take(3)[2]
                    == id@[2]);
            }
        }
        return None;
    }
    assert(id@.take(3) =~= seq!['o', 'p', '-']);
    let digits = vstd::slice::slice_subrange(chars.as_slice(), 3, n);
    assert(digits@ =~= id@.skip(3));
    text::parse_digits(digits)
}

fn newest_number(log: &Vec<AnyOperationRecord>, noted: u64) -> (last: u64)
    ensures
        last >= noted,
        ids_up_to(log@, last),
        is_newest(log@, noted, last),
{
    let n: usize = log.len();
    let mut last: u64 = noted;
    let mut i: usize = 0;
    while i < n
        invariant
            i <= n,
            n == log@.len(),
            last >= noted,
            is_newest(log@, noted, last),
            forall|j: int|
                #![trigger log@[j]]
                0 <= j < i ==> (operation_number(log@[j].spec_operation_id()) matches Some(k) ==> k
                    <= last),
        decreases n - i,
    {
        if let Some(k) = number_of(log[i].operation_id().as_str()) {
            if k > last {
                last = k;
            }
        }
        i += 1;
    }
    last
}

fn count_operations(log: &Vec<AnyOperationRecord>) -> (n: usize)
    ensures
        n == operations_in(log@),
        n <= log@.len(),
{
    let len: usize = log.len();
    let mut n: usize = 0;
    let mut i: usize = 0;
    assert(log@.take(0) =~= Seq::<AnyOperationRecord>::empty());
    while i < len
        invariant
            i <= len,
            len == log@.len(),
            n <= i,
            n == operations_in(log@.take(i as int)),
        decreases len - i,
    {
        assert(log@.take(i + 1).drop_last() =~= log@.take(i as int));
        if log[i].is_operation() {
            n += 1;
        }
        i += 1;
    }
    assert(log@.take(len as int) =~= log@);
    n
}

proof fn operations_in_prepend(line: AnyOperationRecord, rest: Seq<AnyOperationRecord>)
    ensures
        operations_in(seq![line] + rest) == operations_in(rest) + if line.spec_is_operation() {
            1nat
        } else {
            0nat
        },
    decreases rest.len(),
{
    let all = seq![line] + rest;
    if rest.len() == 0 {
        assert(all.drop_last() =~= Seq::<AnyOperationRecord>::empty());
        assert(operations_in(all.drop_last()) == 0);
    } else {
        assert(all.drop_last() =~= seq![line] + rest.drop_last());
        operations_in_prepend(line, rest.drop_last());
    }
}

proof fn operations_in_skip(log: Seq<AnyOperationRecord>, cut: int)
    requires
        0 <= cut <= log.len(),
    ensures
        operations_in(log.skip(cut)) <= operations_in(log),
    decreases cut,
{
    if cut == 0 {
        assert(log.skip(0) =~= log);
    } else {
        operations_in_skip(log, cut - 1);
        assert(log.skip(cut - 1) =~= seq![log[cut - 1]] + log.skip(cut));
        operations_in_prepend(log[cut - 1], log.skip(cut));
    }
}

fn find_cut(log: &Vec<AnyOperationRecord>, keep: usize) -> (cut: usize)
    ensures
        is_cut(log@, keep as nat, cut as int),
{
    let mut cut: usize = log.len();
    let mut left: usize = 0;
    assert(log@.skip(cut as int) =~= Seq::<AnyOperationRecord>::empty());
    while cut > 0
        invariant
            cut <= log@.len(),
            left == operations_in(log@.skip(cut as int)),
            left <= keep,
        decreases cut,
    {
        proof {
            assert(log@.skip(cut - 1) =~= seq![log@[cut - 1]] + log@.skip(cut as int));
            operations_in_prepend(log@[cut - 1], log@.skip(cut as int));
        }
        if log[cut - 1].is_operation() {
            if left == keep {
                return cut;
            }
            left += 1;
        }
        cut -= 1;
    }
    cut
}

fn is_referenced(log: &Vec<AnyOperationRecord>, id: &str) -> (yes: bool)
    ensures
        yes == referenced(log@, id@),
{
    let n: usize = log.len();
    let mut i: usize = 0;
    while i < n
        invariant
            i <= n,
            n == log@.len(),
            forall|j: int| 0 <= j < i ==> (#[trigger] log@[j]).spec_request_id() != id@,
        decreases n - i,
    {
        if text::str_eq(log[i].request_id().as_str(), id) {
            return true;
        }
        i += 1;
    }
    false
}

fn keep_entries(entries: Vec<RequestEntry>, log: &Vec<AnyOperationRecord>) -> (out: Vec<
    RequestEntry,
>)
    ensures
        out@ == kept_entries(log@, entries@),
        out@.len() <= entries@.len(),
{
    let ghost all = entries@;
    let mut out: Vec<RequestEntry> = Vec::new();
    assert(all.take(0) =~= Seq::<RequestEntry>::empty());
    for entry in it: entries.into_iter()
        invariant
            it.seq() == all,
            out@ == kept_entries(log@, all.take(it.index() as int)),
            out@.len() <= it.index(),
    {
        let ghost k = it.index() as int;
        proof {
            assert(all.take(k + 1).drop_last() =~= all.take(k));
            assert(all.take(k + 1).last() == entry);
        }
        if entry.result.is_none() || is_referenced(log, entry.request_id.as_str()) {
            out.push(entry);
        }
    }
    assert(all.take(all.len() as int) =~= all);
    out
}

fn finished_only(entries: Vec<RequestEntry>) -> (out: Vec<RequestEntry>)
    ensures
        out@ == finished_entries(entries@),
        out@.len() <= entries@.len(),
{
    let ghost all = entries@;
    let mut out: Vec<RequestEntry> = Vec::new();
    assert(all.take(0) =~= Seq::<RequestEntry>::empty());
    for entry in it: entries.into_iter()
        invariant
            it.seq() == all,
            out@ == finished_entries(all.take(it.index() as int)),
            out@.len() <= it.index(),
    {
        let ghost k = it.index() as int;
        proof {
            assert(all.take(k + 1).drop_last() =~= all.take(k));
            assert(all.take(k + 1).last() == entry);
        }
        if entry.result.is_some() {
            out.push(entry);
        }
    }
    assert(all.take(all.len() as int) =~= all);
    out
}

/// An entry of `part` stands in `all` as well.
spec fn within(part: Seq<RequestEntry>, all: Seq<RequestEntry>) -> bool {
    forall|i: int| 0 <= i < part.len() ==> knows(all, (#[trigger] part[i]).request_id@)
}

proof fn kept_entries_facts(log: Seq<AnyOperationRecord>, requests: Seq<RequestEntry>)
    requires
        one_entry_each(requests),
    ensures
        one_entry_each(kept_entries(log, requests)),
        within(kept_entries(log, requests), requests),
    decreases requests.len(),
{
    if requests.len() > 0 {
        let front = requests.drop_last();
        let kept = kept_entries(log, front);
        assert forall|a: int, b: int| 0 <= a < b < front.len() implies (
        #[trigger] front[a]).request_id@ != (#[trigger] front[b]).request_id@ by {
            assert(requests[a].request_id@ != requests[b].request_id@);
        }
        kept_entries_facts(log, front);
        subset_grows(kept, requests);
    }
}

proof fn finished_entries_facts(requests: Seq<RequestEntry>)
    requires
        one_entry_each(requests),
    ensures
        one_entry_each(finished_entries(requests)),
        within(finished_entries(requests), requests),
    decreases requests.len(),
{
    if requests.len() > 0 {
        let front = requests.drop_last();
        let kept = finished_entries(front);
        assert forall|a: int, b: int| 0 <= a < b < front.len() implies (
        #[trigger] front[a]).request_id@ != (#[trigger] front[b]).request_id@ by {
            assert(requests[a].request_id@ != requests[b].request_id@);
        }
        finished_entries_facts(front);
        subset_grows(kept, requests);
    }
}

proof fn subset_grows(kept: Seq<RequestEntry>, requests: Seq<RequestEntry>)
    requires
        requests.len() > 0,
        one_entry_each(requests),
        one_entry_each(kept),
        within(kept, requests.drop_last()),
    ensures
        one_entry_each(kept.push(requests.last())),
        within(kept.push(requests.last()), requests),
        within(kept, requests),
{
    let front = requests.drop_last();
    let n = requests.len() - 1;
    assert forall|i: int| 0 <= i < kept.len() implies knows(
        requests,
        (#[trigger] kept[i]).request_id@,
    ) && kept[i].request_id@ != requests.last().request_id@ by {
        assert(knows(front, kept[i].request_id@));
        let k = choose|k: int|
            0 <= k < front.len() && (#[trigger] front[k]).request_id@ == kept[i].request_id@;
        assert(requests[k].request_id@ == kept[i].request_id@);
        assert(requests[k].request_id@ != requests[n].request_id@);
    }
    let all = kept.push(requests.last());
    assert forall|a: int, b: int| 0 <= a < b < all.len() implies (#[trigger] all[a]).request_id@
        != (#[trigger] all[b]).request_id@ by {
        if b < kept.len() {
            assert(kept[a].request_id@ != kept[b].request_id@);
        } else {
            assert(kept[a].request_id@ != requests.last().request_id@);
        }
    }
    assert forall|i: int| 0 <= i < all.len() implies knows(
        requests,
        (#[trigger] all[i]).request_id@,
    ) by {
        if i < kept.len() {
            assert(knows(requests, kept[i].request_id@));
        } else {
            assert(requests[n].request_id@ == all[i].request_id@);
        }
    }
}

proof fn operations_split(log: Seq<AnyOperationRecord>, cut: int)
    requires
        0 <= cut <= log.len(),
    ensures
        operations_of(log) == operations_of(log.take(cut)) + operations_of(log.skip(cut)),
    decreases log.len() - cut,
{
    if cut == log.len() {
        assert(log.take(cut) =~= log);
        assert(log.skip(cut) =~= Seq::<AnyOperationRecord>::empty());
        assert(operations_of(log) + Seq::<AnyOperationRecord>::empty() =~= operations_of(log));
    } else {
        let front = log.drop_last();
        operations_split(front, cut);
        assert(front.take(cut) =~= log.take(cut));
        assert(log.skip(cut).drop_last() =~= front.skip(cut));
        assert(log.skip(cut).last() == log.last());
        assert(operations_of(log) =~= operations_of(log.take(cut)) + operations_of(log.skip(cut)));
    }
}

proof fn operations_counted(log: Seq<AnyOperationRecord>)
    ensures
        operations_of(log).len() == operations_in(log),
    decreases log.len(),
{
    if log.len() > 0 {
        operations_counted(log.drop_last());
    }
}

/// Pruning keeps the newest operations, as many as it is told to or all that
/// there are.
pub proof fn pruning_keeps_the_newest(log: Seq<AnyOperationRecord>, keep: nat, cut: int)
    requires
        is_cut(log, keep, cut),
    ensures
        ({
            let all = operations_of(log);
            let n = if all.len() <= keep {
                all.len()
            } else {
                keep
            };
            operations_of(log.skip(cut)) == all.skip(all.len() - n)
        }),
{
    operations_split(log, cut);
    operations_counted(log);
    operations_counted(log.skip(cut));
    operations_counted(log.take(cut));
    let all = operations_of(log);
    let rest = operations_of(log.skip(cut));
    if cut == 0 {
        assert(log.skip(0) =~= log);
        assert(all.skip(0) =~= all);
    } else {
        let front = log.take(cut);
        assert(front.last() == log[cut - 1]);
        assert(operations_of(front).len() > 0);
        assert(all.skip(all.len() - rest.len()) =~= rest);
    }
}

/// Pruned operation ids are never given out again: the next id after pruning is
/// that of no line from before.
pub proof fn pruned_ids_are_not_reused(
    before: OperationStore,
    after: OperationStore,
    keep: nat,
    stats: PruneStats,
    i: int,
)
    requires
        before.wf(),
        pruned(before, after, keep, stats),
        after.last_id() < u64::MAX,
        0 <= i < before.log().len(),
    ensures
        before.log()[i].spec_operation_id() != operation_id((after.last_id() + 1) as nat),
{
    before.next_id_is_fresh(i);
}

/// An operation is found exactly where some line records it; of one whose lines
/// are gone, nothing is found.
pub proof fn operations_are_found(log: Seq<AnyOperationRecord>, id: Seq<char>)
    ensures
        record_of(log, id) is Some <==> exists|i: int|
            0 <= i < log.len() && (#[trigger] log[i]).spec_is_operation()
                && log[i].spec_operation_id() == id,
        record_of(log, id) matches Some(r) ==> r.spec_is_operation() && r.spec_operation_id() == id,
    decreases log.len(),
{
    if log.len() > 0 {
        let front = log.drop_last();
        let last = log[log.len() - 1];
        operations_are_found(front, id);
        if last.spec_is_operation() && last.spec_operation_id() == id {
        } else if record_of(front, id) is Some {
            let i = choose|i: int|
                0 <= i < front.len() && (#[trigger] front[i]).spec_is_operation()
                    && front[i].spec_operation_id() == id;
            assert(log[i] == front[i]);
        } else {
            assert forall|i: int| 0 <= i < log.len() implies !((#[trigger] log[i]).spec_is_operation()
                && log[i].spec_operation_id() == id) by {
                if i < front.len() {
                    assert(front[i] == log[i]);
                }
            }
        }
    }
}

/// A line that was just added is what is found of its operation.
pub proof fn newest_record_is_found(log: Seq<AnyOperationRecord>, record: AnyOperationRecord)
    requires
        record.spec_is_operation(),
    ensures
        record_of(log.push(record), record.spec_operation_id()) == Some(record),
        forall|id: Seq<char>|
            id != record.spec_operation_id() ==> #[trigger] record_of(log.push(record), id)
                == record_of(log, id),
{
    assert(log.push(record).drop_last() =~= log);
}

/// The entry of request `id` is the one that stands for it, wherever it stands.
pub proof fn entry_is_found(requests: Seq<RequestEntry>, i: int)
    requires
        one_entry_each(requests),
        0 <= i < requests.len(),
    ensures
        entry_of(requests, requests[i].request_id@) == Some(requests[i]),
{
    entry_position_is(requests, requests[i].request_id@, i);
}

/// Pruning forgets a request exactly where it is over and no line that stays
/// belongs to it; what is known of every other request stays as it was. So the
/// time for which an answer can be replayed is the time for which its operation
/// is kept.
pub proof fn pruning_keeps_referenced_requests(
    log: Seq<AnyOperationRecord>,
    requests: Seq<RequestEntry>,
    id: Seq<char>,
)
    requires
        one_entry_each(requests),
    ensures
        entry_of(kept_entries(log, requests), id) == (match entry_of(requests, id) {
            Some(entry) => if keeps_entry(log, entry) {
                Some(entry)
            } else {
                None
            },
            None => None,
        }),
    decreases requests.len(),
{
    kept_entries_facts(log, requests);
    if requests.len() > 0 {
        let front = requests.drop_last();
        let n = requests.len() - 1;
        assert forall|a: int, b: int| 0 <= a < b < front.len() implies (
        #[trigger] front[a]).request_id@ != (#[trigger] front[b]).request_id@ by {
            assert(requests[a].request_id@ != requests[b].request_id@);
        }
        pruning_keeps_referenced_requests(log, front, id);
        pushed_entry_found(front, requests.last(), id);
        assert(front.push(requests.last()) =~= requests);
        kept_entries_facts(log, front);
        let kept = kept_entries(log, front);
        if keeps_entry(log, requests.last()) {
            pushed_entry_found(kept, requests.last(), id);
        }
        if id == requests[n].request_id@ {
            assert(!knows(front, id)) by {
                if knows(front, id) {
                    let k = choose|k: int|
                        0 <= k < front.len() && (#[trigger] front[k]).request_id@ == id;
                    assert(requests[k].request_id@ != requests[n].request_id@);
                }
            }
        }
    }
}

/// A request that was interrupted can be sent again and is then carried out, and
/// what is known of a request that is over is kept.
pub proof fn interrupted_requests_can_be_retried(requests: Seq<RequestEntry>, id: Seq<char>)
    requires
        one_entry_each(requests),
    ensures
        entry_of(finished_entries(requests), id) == (match entry_of(requests, id) {
            Some(entry) => if entry.result is Some {
                Some(entry)
            } else {
                None
            },
            None => None,
        }),
    decreases requests.len(),
{
    finished_entries_facts(requests);
    if requests.len() > 0 {
        let front = requests.drop_last();
        let n = requests.len() - 1;
        assert forall|a: int, b: int| 0 <= a < b < front.len() implies (
        #[trigger] front[a]).request_id@ != (#[trigger] front[b]).request_id@ by {
            assert(requests[a].request_id@ != requests[b].request_id@);
        }
        interrupted_requests_can_be_retried(front, id);
        pushed_entry_found(front, requests.last(), id);
        assert(front.push(requests.last()) =~= requests);
        if requests.last().result is Some {
            pushed_entry_found(finished_entries(front), requests.last(), id);
        }
        if id == requests[n].request_id@ {
            assert(!knows(front, id)) by {
                if knows(front, id) {
                    let k = choose|k: int|
                        0 <= k < front.len() && (#[trigger] front[k]).request_id@ == id;
                    assert(requests[k].request_id@ != requests[n].request_id@);
                }
            }
        }
    }
}

proof fn pushed_entry_found(requests: Seq<RequestEntry>, entry: RequestEntry, id: Seq<char>)
    requires
        one_entry_each(requests.push(entry)),
    ensures
        entry_of(requests.push(entry), id) == (if id == entry.request_id@ {
            Some(entry)
        } else {
            entry_of(requests, id)
        }),
{
    let all = requests.push(entry);
    assert forall|a: int, b: int| 0 <= a < b < requests.len() implies (
    #[trigger] requests[a]).request_id@ != (#[trigger] requests[b]).request_id@ by {
        assert(all[a].request_id@ != all[b].request_id@);
    }
    if id == entry.request_id@ {
        entry_is_found(all, requests.len() as int);
    } else if knows(requests, id) {
        let k = choose|k: int|
            0 <= k < requests.len() && (#[trigger] requests[k]).request_id@ == id;
        entry_is_found(requests, k);
        assert(all[k] == requests[k]);
        entry_is_found(all, k);
    } else {
        assert(!knows(all, id)) by {
            if knows(all, id) {
                let k = choose|k: int| 0 <= k < all.len() && (#[trigger] all[k]).request_id@ == id;
                if k < requests.len() {
                    assert(requests[k] == all[k]);
                }
            }
        }
    }
}

/// A restart loses nothing that was written: reading the written lines back gives
/// the entries that they were written for, when a request is entered and when its
/// result is set.
pub proof fn written_lines_rebuild_requests(
    lines: Seq<RequestEntry>,
    requests: Seq<RequestEntry>,
    entry: RequestEntry,
)
    requires
        newest_entries(lines) == requests,
    ensures
        !knows(requests, entry.request_id@) ==> newest_entries(lines.push(entry))
            == requests.push(entry),
        knows(requests, entry.request_id@) ==> newest_entries(lines.push(entry))
            == requests.update(entry_position(requests, entry.request_id@), entry),
{
    assert(lines.push(entry).drop_last() =~= lines);
}

/// The lines that record operations are those of files, commands and transfers.
proof fn operations_are_filtered(
    log: Seq<AnyOperationRecord>,
    recorded: spec_fn(AnyOperationRecord) -> bool,
)
    requires
        forall|r: AnyOperationRecord| #[trigger]
            recorded(r) == (r is Fs || r is Exec || r is Transfer),
    ensures
        operations_of(log) == log.filter(recorded),
        operations_in(log) == log.filter(recorded).len(),
    decreases log.len(),
{
    reveal(Seq::filter);
    if log.len() > 0 {
        operations_are_filtered(log.drop_last(), recorded);
    }
}

/// A history with room for all operations tells of all of them, each as it was
/// recorded and in the order of the log; a shorter one is the end of that, as
/// long as it was asked to be. What was announced or aborted is not in it.
pub proof fn history_tells_of_every_operation(
    out: Seq<AnyOperationRecord>,
    log: Seq<AnyOperationRecord>,
    limit: nat,
)
    requires
        is_history(out, log, limit),
    ensures
        ({
            let all = log.filter(
                |r: AnyOperationRecord| r is Fs || r is Exec || r is Transfer,
            );
            &&& out.len() == vstd::math::min(all.len() as int, limit as int)
            &&& forall|i: int|
                0 <= i < out.len() ==> (#[trigger] out[i]).same(all[all.len() - out.len() + i])
            &&& forall|i: int|
                0 <= i < out.len() && !((#[trigger] out[i]) is Exec) ==> out[i] == all[all.len()
                    - out.len() + i]
            &&& forall|i: int|
                0 <= i < out.len() ==> (#[trigger] out[i]).spec_operation_id() == all[all.len()
                    - out.len() + i].spec_operation_id()
        }),
{
    let recorded = |r: AnyOperationRecord| r is Fs || r is Exec || r is Transfer;
    operations_are_filtered(log, recorded);
    let all = log.filter(recorded);
    assert forall|i: int| 0 <= i < out.len() implies (#[trigger] out[i]).same(
        all[all.len() - out.len() + i],
    ) && (!(out[i] is Exec) ==> out[i] == all[all.len() - out.len() + i])
        && out[i].spec_operation_id() == all[all.len() - out.len() + i].spec_operation_id() by {
        crate::record::same_lines_hold_the_same_values(out[i], all[all.len() - out.len() + i]);
    }
}

/// The history of a longer limit ends with the history of a shorter one.
pub proof fn histories_agree(
    long: Seq<AnyOperationRecord>,
    short: Seq<AnyOperationRecord>,
    log: Seq<AnyOperationRecord>,
    limit: nat,
    less: nat,
)
    requires
        less <= limit,
        is_history(long, log, limit),
        is_history(short, log, less),
    ensures
        short.len() == vstd::math::min(long.len() as int, less as int),
        forall|i: int|
            0 <= i < short.len() ==> (#[trigger] short[i]).spec_operation_id() == long[long.len()
                - short.len() + i].spec_operation_id(),
{
    history_tells_of_every_operation(long, log, limit);
    history_tells_of_every_operation(short, log, less);
    assert forall|i: int| 0 <= i < short.len() implies (#[trigger] short[i]).spec_operation_id()
        == long[long.len() - short.len() + i].spec_operation_id() by {
        assert(long[long.len() - short.len() + i].spec_operation_id()
            == long[long.len() - short.len() + i].spec_operation_id());
    }
}

/// Pruning keeps the newest operations, as many as it is told to or all there
/// are, drops the oldest lines and none between those that stay, and tells the
/// numbers of what it dropped and kept. It forgets exactly the requests that are
/// over and whose lines are gone.
pub proof fn pruning_drops_the_oldest(
    before: OperationStore,
    after: OperationStore,
    keep: nat,
    stats: PruneStats,
)
    requires
        before.wf(),
        pruned(before, after, keep, stats),
    ensures
        ({
            let recorded = |r: AnyOperationRecord| r is Fs || r is Exec || r is Transfer;
            let had = before.log().filter(recorded);
            let has = after.log().filter(recorded);
            &&& after.log().len() <= before.log().len()
            &&& after.log() == before.log().skip(before.log().len() - after.log().len())
            &&& has.len() == vstd::math::min(had.len() as int, keep as int)
            &&& has == had.skip(had.len() - has.len())
            &&& stats.retained_operations == has.len()
            &&& stats.removed_operations == had.len() - has.len()
            &&& had.len() <= keep ==> after.log() == before.log()
        }),
        forall|i: int|
            0 <= i < before.requests().len() ==> (after.requests().contains(
                #[trigger] before.requests()[i],
            ) <==> before.requests()[i].result is None || exists|k: int|
                0 <= k < after.log().len() && (#[trigger] after.log()[k]).spec_request_id()
                    == before.requests()[i].request_id@),
        forall|i: int|
            0 <= i < after.requests().len() ==> before.requests().contains(
                #[trigger] after.requests()[i],
            ),
        stats.removed_requests == before.requests().len() - after.requests().len(),
        after.last_id() == before.last_id(),
{
    let recorded = |r: AnyOperationRecord| r is Fs || r is Exec || r is Transfer;
    let log = before.log();
    let cut = choose|cut: int| #[trigger]
        is_cut(log, keep, cut) && after.log() == log.skip(cut);
    operations_are_filtered(log, recorded);
    operations_are_filtered(after.log(), recorded);
    pruning_keeps_the_newest(log, keep, cut);
    assert(log.len() - after.log().len() == cut);
    if cut > 0 {
        operations_split(log, cut);
        operations_counted(log.take(cut));
        assert(log.take(cut).last() == log[cut - 1]);
        operations_counted(log);
        operations_counted(after.log());
    } else {
        assert(log.skip(0) =~= log);
    }
    kept_are_the_kept(after.log(), before.requests());
}

/// What pruning keeps of the requests, entry by entry.
proof fn kept_are_the_kept(log: Seq<AnyOperationRecord>, requests: Seq<RequestEntry>)
    requires
        one_entry_each(requests),
    ensures
        forall|i: int|
            0 <= i < requests.len() ==> (kept_entries(log, requests).contains(
                #[trigger] requests[i],
            ) <==> requests[i].result is None || exists|k: int|
                0 <= k < log.len() && (#[trigger] log[k]).spec_request_id()
                    == requests[i].request_id@),
        forall|i: int|
            0 <= i < kept_entries(log, requests).len() ==> requests.contains(
                #[trigger] kept_entries(log, requests)[i],
            ),
    decreases requests.len(),
{
    if requests.len() > 0 {
        let front = requests.drop_last();
        let n = requests.len() - 1;
        let last = requests[n];
        assert forall|a: int, b: int| 0 <= a < b < front.len() implies (
        #[trigger] front[a]).request_id@ != (#[trigger] front[b]).request_id@ by {
            assert(requests[a].request_id@ != requests[b].request_id@);
        }
        kept_are_the_kept(log, front);
        let kept = kept_entries(log, requests);
        let before = kept_entries(log, front);
        assert forall|i: int| 0 <= i < kept.len() implies requests.contains(#[trigger] kept[i]) by {
            if i < before.len() {
                assert(kept[i] == before[i]);
                let k = choose|k: int| 0 <= k < front.len() && front[k] == before[i];
                assert(requests[k] == before[i]);
            } else {
                assert(kept[i] == requests[n]);
            }
        }
        assert forall|i: int| 0 <= i < requests.len() implies (kept.contains(
            #[trigger] requests[i],
        ) <==> requests[i].result is None || exists|k: int|
            0 <= k < log.len() && (#[trigger] log[k]).spec_request_id()
                == requests[i].request_id@) by {
            if i < n {
                assert(front[i] == requests[i]);
                assert(requests[i].request_id@ != requests[n].request_id@);
                if before.contains(front[i]) {
                    let k = choose|k: int| 0 <= k < before.len() && before[k] == front[i];
                    assert(kept[k] == requests[i]);
                }
                if kept.contains(requests[i]) {
                    let k = choose|k: int| 0 <= k < kept.len() && kept[k] == requests[i];
                    assert(k < before.len());
                    assert(before[k] == front[i]);
                }
            } else {
                if keeps_entry(log, last) {
                    assert(kept[before.len() as int] == last);
                } else if kept.contains(last) {
                    let k = choose|k: int| 0 <= k < kept.len() && kept[k] == last;
                    assert(before[k] == last);
                    let j = choose|j: int| 0 <= j < front.len() && front[j] == before[k];
                    assert(requests[j].request_id@ != requests[n].request_id@);
                }
            }
        }
    }
}

/// The status of a request tells what came of it: that it is in progress, done, or
/// refused with the error that it was refused with; and of a request that no entry
/// stands for, that it is not known.
pub proof fn statuses_tell_what_came(
    out: RequestStatusResult,
    requests: Seq<RequestEntry>,
    id: Seq<char>,
    i: int,
)
    requires
        one_entry_each(requests),
        is_status(out, requests, id),
    ensures
        out.target@ == id,
        (forall|k: int| 0 <= k < requests.len() ==> (#[trigger] requests[k]).request_id@ != id)
            ==> out.status == RequestStatus::Unknown && out.error is None,
        0 <= i < requests.len() && requests[i].request_id@ == id ==> match requests[i].result {
            None => out.status == RequestStatus::InProgress && out.error is None,
            Some(StoredResult::Done(_)) => out.status == RequestStatus::Done && out.error is None,
            Some(StoredResult::Error(e)) => out.status == RequestStatus::Error && out.error
                == Some(e),
        },
{
    if 0 <= i < requests.len() && requests[i].request_id@ == id {
        entry_is_found(requests, i);
    }
}

/// Of the lines that were written for a request the last one counts when they are
/// read again, and each request has one entry then.
pub proof fn last_written_lines_count(entries: Seq<RequestEntry>, i: int)
    requires
        0 <= i < entries.len(),
        forall|k: int|
            i < k < entries.len() ==> (#[trigger] entries[k]).request_id@ != entries[i].request_id@,
    ensures
        one_entry_each(newest_entries(entries)),
        newest_entries(entries).contains(entries[i]),
        entry_of(newest_entries(entries), entries[i].request_id@) == Some(entries[i]),
        forall|k: int|
            0 <= k < newest_entries(entries).len() ==> entries.contains(
                #[trigger] newest_entries(entries)[k],
            ),
    decreases entries.len(),
{
    newest_entries_are_single(entries);
    let all = newest_entries(entries);
    let front = newest_entries(entries.drop_last());
    let last = entries.last();
    let id = entries[i].request_id@;
    newest_entries_are_single(entries.drop_last());
    if i == entries.len() - 1 {
        if knows(front, id) {
            let p = entry_position(front, id);
            assert(0 <= p < front.len() && front[p].request_id@ == id);
            assert(all[p] == last);
            entry_is_found(all, p);
        } else {
            assert(all[front.len() as int] == last);
            entry_is_found(all, front.len() as int);
        }
    } else {
        assert(entries.drop_last()[i] == entries[i]);
        assert forall|k: int| i < k < entries.drop_last().len() implies (
        #[trigger] entries.drop_last()[k]).request_id@ != id by {
            assert(entries.drop_last()[k] == entries[k]);
        }
        last_written_lines_count(entries.drop_last(), i);
        assert(entries[entries.len() - 1].request_id@ != id);
        let q = choose|q: int| 0 <= q < front.len() && front[q] == entries[i];
        if knows(front, last.request_id@) {
            let p = entry_position(front, last.request_id@);
            assert(0 <= p < front.len() && front[p].request_id@ == last.request_id@);
            assert(p != q);
        }
        assert(all[q] == entries[i]);
        entry_is_found(all, q);
    }
}

proof fn newest_entries_are_single(entries: Seq<RequestEntry>)
    ensures
        one_entry_each(newest_entries(entries)),
        forall|k: int|
            0 <= k < newest_entries(entries).len() ==> entries.contains(
                #[trigger] newest_entries(entries)[k],
            ),
    decreases entries.len(),
{
    if entries.len() > 0 {
        let before = entries.drop_last();
        newest_entries_are_single(before);
        let front = newest_entries(before);
        let all = newest_entries(entries);
        let last = entries[entries.len() - 1];
        if knows(front, last.request_id@) {
            let p = entry_position(front, last.request_id@);
            assert(0 <= p < front.len() && front[p].request_id@ == last.request_id@);
            assert forall|a: int, b: int| 0 <= a < b < all.len() implies (
            #[trigger] all[a]).request_id@ != (#[trigger] all[b]).request_id@ by {
                assert(front[a].request_id@ != front[b].request_id@);
            }
        } else {
            assert forall|a: int, b: int| 0 <= a < b < all.len() implies (
            #[trigger] all[a]).request_id@ != (#[trigger] all[b]).request_id@ by {
                if b < front.len() {
                    assert(front[a].request_id@ != front[b].request_id@);
                } else {
                    assert(front[a].request_id@ != last.request_id@);
                }
            }
        }
        assert forall|k: int| 0 <= k < all.len() implies entries.contains(#[trigger] all[k]) by {
            if all[k] == last {
                assert(entries[entries.len() - 1] == last);
            } else {
                assert(all[k] == front[k]);
                assert(before.contains(front[k]));
                let j = choose|j: int| 0 <= j < before.len() && before[j] == front[k];
                assert(entries[j] == all[k]);
            }
        }
    }
}

/// A restart opens the requests that were in progress again and keeps the others,
/// in their order.
pub proof fn finished_requests_are_kept(requests: Seq<RequestEntry>)
    ensures
        finished_entries(requests) == requests.filter(|e: RequestEntry| e.result is Some),
    decreases requests.len(),
{
    reveal(Seq::filter);
    if requests.len() > 0 {
        finished_requests_are_kept(requests.drop_last());
    }
}

/// What is found of an operation is the newest line that records it.
pub proof fn newest_lines_are_found(log: Seq<AnyOperationRecord>, i: int)
    requires
        0 <= i < log.len(),
        log[i] is Fs || log[i] is Exec || log[i] is Transfer,
        forall|k: int|
            i < k < log.len() && ((#[trigger] log[k]) is Fs || log[k] is Exec
                || log[k] is Transfer) ==> log[k].spec_operation_id()
                != log[i].spec_operation_id(),
    ensures
        record_of(log, log[i].spec_operation_id()) == Some(log[i]),
    decreases log.len(),
{
    if i < log.len() - 1 {
        let front = log.drop_last();
        assert(front[i] == log[i]);
        assert forall|k: int|
            i < k < front.len() && ((#[trigger] front[k]) is Fs || front[k] is Exec
                || front[k] is Transfer) implies front[k].spec_operation_id()
            != front[i].spec_operation_id() by {
            assert(front[k] == log[k]);
        }
        newest_lines_are_found(front, i);
        assert(log[log.len() - 1] == log.last());
    }
}

/// Operation ids are `op-` and a number.
pub proof fn operation_ids_are_numbered(n: nat)
    ensures
        operation_id(n) == "op-"@ + text::decimal(n),
{
    reveal_strlit("op-");
    assert(operation_id(n) =~= "op-"@ + text::decimal(n));
}

}
