//! The archive: an append-only record of delivered messages, bounded by a
//! retention ceiling.
//!
//! Row identifiers ascend strictly in append order, so the order by id is
//! the order of delivery; culling removes rows from the low end and so
//! always keeps the most recent ones.

use vstd::prelude::*;
use vstd::string::StringExecFns;

verus! {

/// One archived message.
#[derive(Debug)]
pub struct ArchiveRow {
    pub id: i64,
    pub queue_id: String,
    pub from: String,
    pub to: Vec<String>,
    pub subject: String,
    pub body: String,
    pub html: Option<String>,
    pub sent_at: i64,
}

/// The archive row recording a delivery: identity `id`, the originating
/// queue identity, the message content, and the delivery time.
pub open spec fn arch_row_is(
    b: ArchiveRow,
    id: int,
    queue_id: Seq<char>,
    from: Seq<char>,
    to: Seq<Seq<char>>,
    subject: Seq<char>,
    body: Seq<char>,
    html: Option<Seq<char>>,
    sent_at: i64,
) -> bool {
    &&& b.id == id
    &&& b.queue_id@ == queue_id
    &&& b.from@ == from
    &&& b.to.deep_view() == to
    &&& b.subject@ == subject
    &&& b.body@ == body
    &&& b.html.deep_view() == html
    &&& b.sent_at == sent_at
}

/// The archive store.
#[derive(Debug)]
pub struct Archive {
    pub rows: Vec<ArchiveRow>,
    pub next_id: i64,
}

impl Archive {
    /// Identifiers ascend strictly and stay below the next one to be
    /// handed out.
    pub open spec fn wf(self) -> bool {
        &&& forall|i: int, j: int|
            0 <= i < j < self.rows@.len() ==> self.rows@[i].id < self.rows@[j].id
        &&& forall|i: int| 0 <= i < self.rows@.len() ==> #[trigger] self.rows@[i].id < self.next_id
    }

    /// An empty archive.
    pub fn new() -> (r: Archive)
        ensures
            r.wf(),
            r.rows@.len() == 0,
            r.next_id == 1,
    {
        Archive { rows: Vec::new(), next_id: 1 }
    }

    /// Appends the record of one delivery under the next identifier.
    pub fn append(
        &mut self,
        queue_id: String,
        from: &str,
        to: &Vec<String>,
        subject: &str,
        body: &str,
        html: &Option<String>,
        sent_at: i64,
    ) -> (r: i64)
        requires
            old(self).wf(),
            old(self).next_id < i64::MAX,
        ensures
            final(self).wf(),
            r == old(self).next_id,
            final(self).next_id == old(self).next_id + 1,
            exists|b: ArchiveRow|
                arch_row_is(
                    b,
                    old(self).next_id as int,
                    queue_id@,
                    from@,
                    to.deep_view(),
                    subject@,
                    body@,
                    html.deep_view(),
                    sent_at,
                ) && final(self).rows@ == old(self).rows@.push(b),
    {
        let id = self.next_id;
        let row = ArchiveRow {
            id,
            queue_id,
            from: String::from_str(from),
            to: copy_strings(to),
            subject: String::from_str(subject),
            body: String::from_str(body),
            html: copy_opt_string(html),
            sent_at,
        };
        let ghost row_g = row;
        self.rows.push(row);
        self.next_id = id + 1;
        proof {
            assert(self.rows@ == old(self).rows@.push(row_g));
        }
        id
    }

    /// Restores a stored row, accepting it only when its identifier
    /// continues the ascending order; reports whether it was taken.
    pub fn restore_row(&mut self, row: ArchiveRow) -> (r: bool)
        requires
            old(self).wf(),
        ensures
            final(self).wf(),
            row.id >= old(self).next_id && row.id < i64::MAX ==> (r && final(self).next_id == row.id
                + 1 && final(self).rows@ == old(self).rows@.push(row)),
            !(row.id >= old(self).next_id && row.id < i64::MAX) ==> (!r && *final(self)
                == *old(self)),
    {
        if row.id >= self.next_id && row.id < i64::MAX {
            let id = row.id;
            self.rows.push(row);
            self.next_id = id + 1;
            true
        } else {
            false
        }
    }

    /// Enforces the retention ceiling: when more than `ceiling` rows are
    /// stored, deletes the oldest rows — those with the lowest ids — until
    /// exactly `ceiling` remain. Returns how many were deleted.
    pub fn cull(&mut self, ceiling: u64) -> (deleted: usize)
        requires
            old(self).wf(),
        ensures
            final(self).wf(),
            final(self).next_id == old(self).next_id,
            old(self).rows@.len() <= ceiling ==> deleted == 0 && *final(self) == *old(self),
            old(self).rows@.len() > ceiling ==> deleted == old(self).rows@.len() - ceiling
                && final(self).rows@ == old(self).rows@.skip(deleted as int),
            final(self).rows@.len() <= ceiling || final(self).rows@.len() == old(self).rows@.len(),
    {
        let len = self.rows.len();
        if len as u64 <= ceiling {
            return 0;
        }
        let excess = (len as u64 - ceiling) as usize;
        let ghost old_rows = self.rows@;
        let mut j: usize = 0;
        while j < excess
            invariant
                0 <= j <= excess,
                excess <= old_rows.len(),
                self.rows@ == old_rows.skip(j as int),
                self.next_id == old(self).next_id,
            decreases excess - j,
        {
            self.rows.remove(0);
            proof {
                assert(old_rows.skip(j as int).remove(0) =~= old_rows.skip(j as int + 1));
            }
            j = j + 1;
        }
        proof {
            assert forall|i: int, j2: int|
                0 <= i < j2 < self.rows@.len() implies self.rows@[i].id < self.rows@[j2].id by {
                assert(self.rows@[i] == old_rows[i + excess]);
                assert(self.rows@[j2] == old_rows[j2 + excess]);
            }
            assert forall|i: int|
                0 <= i < self.rows@.len() implies #[trigger] self.rows@[i].id
                < self.next_id by {
                assert(self.rows@[i] == old_rows[i + excess]);
            }
        }
        excess
    }
}

fn copy_strings(v: &Vec<String>) -> (r: Vec<String>)
    ensures
        r.deep_view() == v.deep_view(),
        r@.len() == v@.len(),
{
    let mut r: Vec<String> = Vec::new();
    let mut i: usize = 0;
    while i < v.len()
        invariant
            0 <= i <= v@.len(),
            r@.len() == i,
            forall|m: int| 0 <= m < i ==> #[trigger] r@[m]@ == v@[m]@,
        decreases v@.len() - i,
    {
        r.push(v[i].clone());
        i = i + 1;
    }
    proof {
        assert(r.deep_view() =~= v.deep_view());
    }
    r
}

fn copy_opt_string(v: &Option<String>) -> (r: Option<String>)
    ensures
        r.deep_view() == v.deep_view(),
{
    match v {
        Some(s) => Some(s.clone()),
        None => None,
    }
}

} // verus!
