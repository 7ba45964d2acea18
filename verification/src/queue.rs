//! The delivery queue: rows awaiting or undergoing delivery.
//!
//! Rows are kept ascending by creation time, so claiming always takes the
//! oldest pending rows first. A claim atomically marks what it returns as
//! `Sending`; the worker later resolves each claimed row to success
//! (deleted, after archiving) or failure (back to `Pending` with its
//! attempt count raised and the error recorded).

use vstd::math::min;
use vstd::prelude::*;
use vstd::string::StringExecFns;

use crate::errors::ApiError;
use crate::errors::ErrorKind;
use crate::text::str_eq;

verus! {

/// Where a queue row stands.
#[derive(Clone, Copy, Debug, PartialEq, Eq, Structural)]
pub enum DeliveryStatus {
    /// Waiting to be claimed by the worker.
    Pending,
    /// Claimed and currently being delivered.
    Sending,
}

/// The content of one message as a sender hands it in.
#[derive(Debug)]
pub struct MailMessage {
    pub from: String,
    pub to: Vec<String>,
    pub subject: String,
    pub body: String,
    pub html: Option<String>,
}

/// One persistent queue row.
#[derive(Debug)]
pub struct QueueRow {
    pub id: String,
    pub status: DeliveryStatus,
    pub from: String,
    pub to: Vec<String>,
    pub subject: String,
    pub body: String,
    pub html: Option<String>,
    pub created_at: i64,
    pub attempts: u64,
    pub last_error: Option<String>,
}

/// What a claim hands the worker: the row's identity and content.
#[derive(Debug)]
pub struct ClaimedMessage {
    pub id: String,
    pub from: String,
    pub to: Vec<String>,
    pub subject: String,
    pub body: String,
    pub html: Option<String>,
}

/// Two rows carry the same data.
pub open spec fn row_eq(a: QueueRow, b: QueueRow) -> bool {
    &&& a.id@ == b.id@
    &&& a.status == b.status
    &&& a.from@ == b.from@
    &&& a.to.deep_view() == b.to.deep_view()
    &&& a.subject@ == b.subject@
    &&& a.body@ == b.body@
    &&& a.html.deep_view() == b.html.deep_view()
    &&& a.created_at == b.created_at
    &&& a.attempts == b.attempts
    &&& a.last_error.deep_view() == b.last_error.deep_view()
}

/// `b` is `a` marked as in flight; everything else is unchanged.
pub open spec fn row_marked(a: QueueRow, b: QueueRow) -> bool {
    &&& b.status == DeliveryStatus::Sending
    &&& a.id@ == b.id@
    &&& a.from@ == b.from@
    &&& a.to.deep_view() == b.to.deep_view()
    &&& a.subject@ == b.subject@
    &&& a.body@ == b.body@
    &&& a.html.deep_view() == b.html.deep_view()
    &&& a.created_at == b.created_at
    &&& a.attempts == b.attempts
    &&& a.last_error.deep_view() == b.last_error.deep_view()
}

/// `b` is `a` after a failed delivery attempt: back to `Pending`, the
/// attempt counted, the error text recorded; the content is unchanged.
pub open spec fn row_failed(a: QueueRow, b: QueueRow, err: Seq<char>) -> bool {
    &&& b.status == DeliveryStatus::Pending
    &&& b.attempts == if a.attempts < u64::MAX {
        (a.attempts + 1) as u64
    } else {
        a.attempts
    }
    &&& b.last_error.deep_view() matches Some(e) && e == err
    &&& a.id@ == b.id@
    &&& a.from@ == b.from@
    &&& a.to.deep_view() == b.to.deep_view()
    &&& a.subject@ == b.subject@
    &&& a.body@ == b.body@
    &&& a.html.deep_view() == b.html.deep_view()
    &&& a.created_at == b.created_at
}

/// The fresh row that enqueuing `m` under `id` at `now` creates.
pub open spec fn row_from(m: MailMessage, id: Seq<char>, now: i64, b: QueueRow) -> bool {
    &&& b.id@ == id
    &&& b.status == DeliveryStatus::Pending
    &&& b.from@ == m.from@
    &&& b.to.deep_view() == m.to.deep_view()
    &&& b.subject@ == m.subject@
    &&& b.body@ == m.body@
    &&& b.html.deep_view() == m.html.deep_view()
    &&& b.created_at == now
    &&& b.attempts == 0
    &&& b.last_error is None
}

/// `m` reports exactly the identity and content of row `r`.
pub open spec fn msg_matches_row(m: ClaimedMessage, r: QueueRow) -> bool {
    &&& m.id@ == r.id@
    &&& m.from@ == r.from@
    &&& m.to.deep_view() == r.to.deep_view()
    &&& m.subject@ == r.subject@
    &&& m.body@ == r.body@
    &&& m.html.deep_view() == r.html.deep_view()
}

/// First row at or after `i` whose id is `id`.
pub open spec fn index_of_id_from(rows: Seq<QueueRow>, id: Seq<char>, i: int) -> Option<int>
    decreases rows.len() - i,
{
    if i < 0 || i >= rows.len() {
        None
    } else if rows[i].id@ == id {
        Some(i)
    } else {
        index_of_id_from(rows, id, i + 1)
    }
}

/// The position of the row with identity `id`, if one exists.
pub open spec fn index_of_id(rows: Seq<QueueRow>, id: Seq<char>) -> Option<int> {
    index_of_id_from(rows, id, 0)
}

/// How many of the first `i` rows are pending.
pub open spec fn count_pending_to(rows: Seq<QueueRow>, i: int) -> nat
    decreases i,
{
    if i <= 0 {
        0
    } else {
        count_pending_to(rows, i - 1) + (if i - 1 < rows.len() && rows[i - 1].status
            == DeliveryStatus::Pending {
            1nat
        } else {
            0nat
        })
    }
}

/// Whether a claim with the given limit takes row `i`: it is pending, and
/// fewer than `limit` pending rows precede it.
pub open spec fn claimed_at(rows: Seq<QueueRow>, limit: nat, i: int) -> bool {
    &&& 0 <= i < rows.len()
    &&& rows[i].status == DeliveryStatus::Pending
    &&& count_pending_to(rows, i) < limit
}

/// Where a row created at `now` is inserted, scanning from `i`: before
/// the first row created after `now`.
pub open spec fn insert_pos_from(rows: Seq<QueueRow>, now: i64, i: int) -> int
    decreases rows.len() - i,
{
    if i < 0 || i >= rows.len() {
        rows.len() as int
    } else if rows[i].created_at <= now {
        insert_pos_from(rows, now, i + 1)
    } else {
        i
    }
}

/// Where a row created at `now` is inserted: after every row created at
/// or before `now`, before the rest.
pub open spec fn insert_pos(rows: Seq<QueueRow>, now: i64) -> int {
    insert_pos_from(rows, now, 0)
}

/// The delivery queue.
#[derive(Debug)]
pub struct DeliveryQueue {
    pub rows: Vec<QueueRow>,
}

impl DeliveryQueue {
    /// Row ids are unique and rows ascend by creation time.
    pub open spec fn wf(self) -> bool {
        &&& forall|i: int, j: int|
            0 <= i < j < self.rows@.len() ==> self.rows@[i].id@ != self.rows@[j].id@
        &&& forall|i: int, j: int|
            0 <= i < j < self.rows@.len() ==> self.rows@[i].created_at <= self.rows@[j].created_at
    }

    /// An empty queue.
    pub fn new() -> (r: DeliveryQueue)
        ensures
            r.wf(),
            r.rows@.len() == 0,
    {
        DeliveryQueue { rows: Vec::new() }
    }

    fn find_id_idx(&self, id: &str) -> (r: Option<usize>)
        ensures
            match r {
                Some(i) => index_of_id(self.rows@, id@) == Some(i as int) && i < self.rows@.len()
                    && self.rows@[i as int].id@ == id@,
                None => index_of_id(self.rows@, id@) is None,
            },
    {
        let mut i: usize = 0;
        while i < self.rows.len()
            invariant
                0 <= i <= self.rows@.len(),
                index_of_id(self.rows@, id@) == index_of_id_from(self.rows@, id@, i as int),
            decreases self.rows@.len() - i,
        {
            if str_eq(self.rows[i].id.as_str(), id) {
                return Some(i);
            }
            i = i + 1;
        }
        None
    }

    /// Inserts a fresh `Pending` row for `msg`, keeping rows ascending by
    /// creation time. A clash on `id` is refused as a `Persistence`
    /// failure, as the backing store's key constraint would refuse it.
    pub fn enqueue(&mut self, msg: &MailMessage, id: String, now: i64) -> (r: Result<(), ApiError>)
        requires
            old(self).wf(),
        ensures
            final(self).wf(),
            index_of_id(old(self).rows@, id@) is Some ==> (r matches Err(e) && e.kind
                == ErrorKind::Persistence && *final(self) == *old(self)),
            index_of_id(old(self).rows@, id@) is None ==> (r is Ok && (exists|b: QueueRow|
                row_from(*msg, id@, now, b) && final(self).rows@ == old(self).rows@.insert(
                    insert_pos(old(self).rows@, now),
                    b,
                ))),
    {
        if self.find_id_idx(id.as_str()).is_some() {
            return Err(ApiError::new(ErrorKind::Persistence, String::from_str("duplicate id")));
        }
        proof {
            crate::queue::lemma_index_of_id_char(self.rows@, id@, 0);
        }
        let mut k: usize = 0;
        while k < self.rows.len() && self.rows[k].created_at <= now
            invariant
                0 <= k <= self.rows@.len(),
                *self == *old(self),
                forall|i: int| 0 <= i < k ==> self.rows@[i].created_at <= now,
                insert_pos(self.rows@, now) == insert_pos_from(self.rows@, now, k as int),
            decreases self.rows@.len() - k,
        {
            k = k + 1;
        }
        let row = QueueRow {
            id,
            status: DeliveryStatus::Pending,
            from: msg.from.clone(),
            to: clone_strings(&msg.to),
            subject: msg.subject.clone(),
            body: msg.body.clone(),
            html: clone_opt_string(&msg.html),
            created_at: now,
            attempts: 0,
            last_error: None,
        };
        let ghost row_g = row;
        let ghost old_rows = self.rows@;
        self.rows.insert(k, row);
        proof {
            assert(k as int == insert_pos(old_rows, now));
            assert(row_from(*msg, row_g.id@, now, row_g));
            assert(self.rows@ == old_rows.insert(k as int, row_g));
            let new_rows = self.rows@;
            assert forall|i: int, j: int|
                0 <= i < j < new_rows.len() implies new_rows[i].id@ != new_rows[j].id@
                && new_rows[i].created_at <= new_rows[j].created_at by {
                let i0 = if i < k { i } else { i - 1 };
                let j0 = if j < k { j } else { j - 1 };
                if i != k && j != k {
                    assert(new_rows[i] == old_rows[i0]);
                    assert(new_rows[j] == old_rows[j0]);
                } else if i == k {
                    assert(new_rows[j] == old_rows[j0]);
                    assert(old_rows[j0].created_at > now);
                } else {
                    assert(new_rows[i] == old_rows[i0]);
                }
            }
        }
        Ok(())
    }

    /// Claims up to `limit` of the oldest pending rows: marks each
    /// `Sending` and returns their content, oldest first.
    pub fn claim(&mut self, limit: usize) -> (r: Vec<ClaimedMessage>)
        requires
            old(self).wf(),
        ensures
            final(self).wf(),
            final(self).rows@.len() == old(self).rows@.len(),
            forall|i: int|
                claimed_at(old(self).rows@, limit as nat, i) ==> row_marked(
                    old(self).rows@[i],
                    #[trigger] final(self).rows@[i],
                ),
            forall|i: int|
                0 <= i < old(self).rows@.len() && !claimed_at(old(self).rows@, limit as nat, i)
                    ==> row_eq(old(self).rows@[i], #[trigger] final(self).rows@[i]),
            r@.len() == min(
                count_pending_to(old(self).rows@, old(self).rows@.len() as int) as int,
                limit as int,
            ),
            forall|i: int|
                claimed_at(old(self).rows@, limit as nat, i) ==> msg_matches_row(
                    #[trigger] r@[count_pending_to(old(self).rows@, i) as int],
                    old(self).rows@[i],
                ),
    {
        let ghost old_rows = self.rows@;
        let mut out: Vec<ClaimedMessage> = Vec::new();
        let mut kept: Vec<QueueRow> = Vec::new();
        let mut n: usize = 0;
        let mut i: usize = 0;
        while i < self.rows.len()
            invariant
                0 <= i <= self.rows@.len(),
                *self == *old(self),
                old_rows == self.rows@,
                n <= i,
                n == count_pending_to(old_rows, i as int),
                out@.len() == min(n as int, limit as int),
                kept@.len() == i,
                forall|m: int|
                    claimed_at(old_rows, limit as nat, m) && m < i ==> row_marked(
                        old_rows[m],
                        #[trigger] kept@[m],
                    ),
                forall|m: int|
                    0 <= m < i && !claimed_at(old_rows, limit as nat, m) ==> row_eq(
                        old_rows[m],
                        #[trigger] kept@[m],
                    ),
                forall|m: int|
                    claimed_at(old_rows, limit as nat, m) && m < i ==> msg_matches_row(
                        #[trigger] out@[count_pending_to(old_rows, m) as int],
                        old_rows[m],
                    ),
            decreases self.rows@.len() - i,
        {
            let row = &self.rows[i];
            let pending = match row.status {
                DeliveryStatus::Pending => true,
                DeliveryStatus::Sending => false,
            };
            if pending && out.len() < limit {
                out.push(
                    ClaimedMessage {
                        id: row.id.clone(),
                        from: row.from.clone(),
                        to: clone_strings(&row.to),
                        subject: row.subject.clone(),
                        body: row.body.clone(),
                        html: clone_opt_string(&row.html),
                    },
                );
                kept.push(
                    QueueRow {
                        id: row.id.clone(),
                        status: DeliveryStatus::Sending,
                        from: row.from.clone(),
                        to: clone_strings(&row.to),
                        subject: row.subject.clone(),
                        body: row.body.clone(),
                        html: clone_opt_string(&row.html),
                        created_at: row.created_at,
                        attempts: row.attempts,
                        last_error: clone_opt_string(&row.last_error),
                    },
                );
                proof {
                    assert(n < limit);
                    assert(out@.len() == n + 1);
                    assert(msg_matches_row(out@[n as int], old_rows[i as int]));
                    assert(count_pending_to(old_rows, i as int) == n);
                    assert forall|m: int|
                        claimed_at(old_rows, limit as nat, m) && m < i + 1 implies msg_matches_row(
                        out@[count_pending_to(old_rows, m) as int],
                        old_rows[m],
                    ) by {
                        if m < i {
                            lemma_count_pending_mono(old_rows, m + 1, i as int);
                            assert(count_pending_to(old_rows, m + 1) == count_pending_to(
                                old_rows,
                                m,
                            ) + 1);
                            assert(count_pending_to(old_rows, m) < n);
                        }
                    }
                }
            } else {
                kept.push(
                    QueueRow {
                        id: row.id.clone(),
                        status: row.status,
                        from: row.from.clone(),
                        to: clone_strings(&row.to),
                        subject: row.subject.clone(),
                        body: row.body.clone(),
                        html: clone_opt_string(&row.html),
                        created_at: row.created_at,
                        attempts: row.attempts,
                        last_error: clone_opt_string(&row.last_error),
                    },
                );
            }
            proof {
                assert(count_pending_to(old_rows, i as int + 1) == count_pending_to(
                    old_rows,
                    i as int,
                ) + (if old_rows[i as int].status == DeliveryStatus::Pending {
                    1nat
                } else {
                    0nat
                }));
            }
            if pending {
                n = n + 1;
            }
            i = i + 1;
        }
        self.rows = kept;
        proof {
            assert forall|p: int, q: int|
                0 <= p < q < self.rows@.len() implies self.rows@[p].id@ != self.rows@[q].id@
                && self.rows@[p].created_at <= self.rows@[q].created_at by {
                lemma_kept_fields(old_rows, self.rows@, limit as nat, p);
                lemma_kept_fields(old_rows, self.rows@, limit as nat, q);
            }
        }
        out
    }

    /// Deletes the row with identity `id`; reports whether one existed.
    pub fn resolve_success(&mut self, id: &str) -> (r: bool)
        requires
            old(self).wf(),
        ensures
            final(self).wf(),
            match index_of_id(old(self).rows@, id@) {
                Some(k) => r && final(self).rows@ == old(self).rows@.remove(k),
                None => !r && *final(self) == *old(self),
            },
    {
        match self.find_id_idx(id) {
            Some(k) => {
                self.rows.remove(k);
                proof {
                    let old_rows = old(self).rows@;
                    let new_rows = self.rows@;
                    assert forall|i: int, j: int|
                        0 <= i < j < new_rows.len() implies new_rows[i].id@ != new_rows[j].id@
                        && new_rows[i].created_at <= new_rows[j].created_at by {
                        let i0 = if i < k { i } else { i + 1 };
                        let j0 = if j < k { j } else { j + 1 };
                        assert(new_rows[i] == old_rows[i0]);
                        assert(new_rows[j] == old_rows[j0]);
                    }
                }
                true
            },
            None => false,
        }
    }

    /// Returns the row with identity `id` to `Pending`, counts the failed
    /// attempt, and records the error text; reports whether one existed.
    /// The row is never deleted on failure.
    pub fn resolve_failure(&mut self, id: &str, error: &str) -> (r: bool)
        requires
            old(self).wf(),
        ensures
            final(self).wf(),
            final(self).rows@.len() == old(self).rows@.len(),
            match index_of_id(old(self).rows@, id@) {
                Some(k) => r && row_failed(old(self).rows@[k], final(self).rows@[k], error@) && (
                forall|i: int|
                    0 <= i < old(self).rows@.len() && i != k ==> row_eq(
                        old(self).rows@[i],
                        #[trigger] final(self).rows@[i],
                    )),
                None => !r && *final(self) == *old(self),
            },
    {
        let k = match self.find_id_idx(id) {
            Some(k) => k,
            None => {
                return false;
            },
        };
        let ghost old_rows = self.rows@;
        let mut kept: Vec<QueueRow> = Vec::new();
        let mut i: usize = 0;
        while i < self.rows.len()
            invariant
                0 <= i <= self.rows@.len(),
                *self == *old(self),
                old_rows == self.rows@,
                k < old_rows.len(),
                kept@.len() == i,
                forall|m: int|
                    0 <= m < i && m != k ==> row_eq(old_rows[m], #[trigger] kept@[m]),
                i > k ==> row_failed(old_rows[k as int], kept@[k as int], error@),
            decreases self.rows@.len() - i,
        {
            let row = &self.rows[i];
            if i == k {
                let attempts = if row.attempts < u64::MAX {
                    row.attempts + 1
                } else {
                    row.attempts
                };
                kept.push(
                    QueueRow {
                        id: row.id.clone(),
                        status: DeliveryStatus::Pending,
                        from: row.from.clone(),
                        to: clone_strings(&row.to),
                        subject: row.subject.clone(),
                        body: row.body.clone(),
                        html: clone_opt_string(&row.html),
                        created_at: row.created_at,
                        attempts,
                        last_error: Some(String::from_str(error)),
                    },
                );
            } else {
                kept.push(
                    QueueRow {
                        id: row.id.clone(),
                        status: row.status,
                        from: row.from.clone(),
                        to: clone_strings(&row.to),
                        subject: row.subject.clone(),
                        body: row.body.clone(),
                        html: clone_opt_string(&row.html),
                        created_at: row.created_at,
                        attempts: row.attempts,
                        last_error: clone_opt_string(&row.last_error),
                    },
                );
            }
            i = i + 1;
        }
        self.rows = kept;
        proof {
            assert forall|p: int, q: int|
                0 <= p < q < self.rows@.len() implies self.rows@[p].id@ != self.rows@[q].id@
                && self.rows@[p].created_at <= self.rows@[q].created_at by {}
        }
        true
    }

    /// How many rows have at least one failed attempt behind them.
    pub fn retrying_count(&self) -> (r: usize)
        ensures
            r == count_retrying_to(self.rows@, self.rows@.len() as int),
    {
        let mut n: usize = 0;
        let mut i: usize = 0;
        while i < self.rows.len()
            invariant
                0 <= i <= self.rows@.len(),
                n == count_retrying_to(self.rows@, i as int),
                n <= i,
            decreases self.rows@.len() - i,
        {
            if self.rows[i].attempts > 0 {
                n = n + 1;
            }
            i = i + 1;
        }
        n
    }
}

/// How many of the first `i` rows have a nonzero attempt count.
pub open spec fn count_retrying_to(rows: Seq<QueueRow>, i: int) -> nat
    decreases i,
{
    if i <= 0 {
        0
    } else {
        count_retrying_to(rows, i - 1) + (if i - 1 < rows.len() && rows[i - 1].attempts > 0 {
            1nat
        } else {
            0nat
        })
    }
}

/// Counting pending rows over a longer prefix never counts fewer.
pub proof fn lemma_count_pending_mono(rows: Seq<QueueRow>, a: int, b: int)
    requires
        a <= b,
    ensures
        count_pending_to(rows, a) <= count_pending_to(rows, b),
    decreases b - a,
{
    if a < b {
        lemma_count_pending_mono(rows, a, b - 1);
    }
}

/// A found index holds the id and is the first to do so; a failed search
/// means no row holds it.
pub proof fn lemma_index_of_id_char(rows: Seq<QueueRow>, id: Seq<char>, i: int)
    requires
        0 <= i <= rows.len(),
    ensures
        match index_of_id_from(rows, id, i) {
            Some(j) => i <= j < rows.len() && rows[j].id@ == id,
            None => forall|j: int| i <= j < rows.len() ==> rows[j].id@ != id,
        },
    decreases rows.len() - i,
{
    if i < rows.len() && rows[i].id@ != id {
        lemma_index_of_id_char(rows, id, i + 1);
    }
}

proof fn lemma_kept_fields(old_rows: Seq<QueueRow>, new_rows: Seq<QueueRow>, limit: nat, p: int)
    requires
        0 <= p < old_rows.len(),
        old_rows.len() == new_rows.len(),
        claimed_at(old_rows, limit, p) ==> row_marked(old_rows[p], new_rows[p]),
        !claimed_at(old_rows, limit, p) ==> row_eq(old_rows[p], new_rows[p]),
    ensures
        new_rows[p].id@ == old_rows[p].id@,
        new_rows[p].created_at == old_rows[p].created_at,
{
}

pub(crate) fn clone_strings(v: &Vec<String>) -> (r: Vec<String>)
    ensures
        r.deep_view() == v.deep_view(),
        r@.len() == v@.len(),
{
    let mut r: Vec<String> = Vec::new();
    let mut i: usize = 0;
    while i < v.len()
        invariant
            0 <= i <= v@.len(),
            r@.len() == i,
            forall|m: int| 0 <= m < i ==> #[trigger] r@[m]@ == v@[m]@,
        decreases v@.len() - i,
    {
        r.push(v[i].clone());
        i = i + 1;
    }
    proof {
        assert(r.deep_view() =~= v.deep_view());
    }
    r
}

fn clone_opt_string(v: &Option<String>) -> (r: Option<String>)
    ensures
        r.deep_view() == v.deep_view(),
        r is Some <==> v is Some,
{
    match v {
        Some(s) => Some(s.clone()),
        None => None,
    }
}

} // verus!
