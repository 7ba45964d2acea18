//! Laws of the relay: properties that tie several operations together,
//! stated over the same spec functions the operations' contracts use.

use vstd::prelude::*;

use crate::addr::domain_of_addr;
use crate::archive::ArchiveRow;
use crate::domains::lookup_token;
use crate::domains::tokens_unique;
use crate::domains::DomainRow;
use crate::errors::ErrorKind;
use crate::queue::claimed_at;
use crate::queue::count_pending_to;
use crate::queue::lemma_count_pending_mono;
use crate::queue::QueueRow;
use crate::relay::auth_error;

verus! {

/// Token scoping, the accepting half: when tokens are unique and an
/// authorization with the token of registration `k` passes, the sender's
/// address carries exactly that registration's domain.
pub proof fn lemma_token_scoping(rows: Seq<DomainRow>, k: int, from: Seq<char>)
    requires
        tokens_unique(rows),
        0 <= k < rows.len(),
        auth_error(rows, Some(rows[k].token@), from) is None,
    ensures
        domain_of_addr(from) == Some(rows[k].domain@),
{
    crate::domains::lemma_lookup_token_present(rows, k);
    assert(lookup_token(rows, rows[k].token@) == Some(rows[k]));
}

/// Token scoping, the refusing half: with unique tokens, a sender address
/// whose domain differs from the token's registered domain is always
/// refused as forbidden.
pub proof fn lemma_token_mismatch_forbidden(
    rows: Seq<DomainRow>,
    k: int,
    from: Seq<char>,
    d: Seq<char>,
)
    requires
        tokens_unique(rows),
        0 <= k < rows.len(),
        domain_of_addr(from) == Some(d),
        d != rows[k].domain@,
    ensures
        auth_error(rows, Some(rows[k].token@), from) == Some(ErrorKind::Forbidden),
{
    crate::domains::lemma_lookup_token_present(rows, k);
    assert(lookup_token(rows, rows[k].token@) == Some(rows[k]));
}

/// Retention: after a culler cycle — which leaves an archive within the
/// ceiling unchanged and otherwise keeps the highest-id suffix of exactly
/// `ceiling` rows — at most `ceiling` rows remain, every retained row was
/// already archived, and every deleted row's id is below every retained
/// row's id: the rows kept are always the most recent ones.
pub proof fn lemma_retention(old_rows: Seq<ArchiveRow>, new_rows: Seq<ArchiveRow>, ceiling: u64)
    requires
        forall|i: int, j: int| 0 <= i < j < old_rows.len() ==> old_rows[i].id < old_rows[j].id,
        old_rows.len() <= ceiling ==> new_rows == old_rows,
        old_rows.len() > ceiling ==> new_rows == old_rows.skip(
            old_rows.len() - ceiling as int,
        ),
    ensures
        new_rows.len() <= ceiling,
        forall|j: int|
            0 <= j < new_rows.len() ==> old_rows[j + (old_rows.len() - new_rows.len())]
                == #[trigger] new_rows[j],
        forall|i: int, j: int|
            0 <= i < old_rows.len() - new_rows.len() && 0 <= j < new_rows.len()
                ==> #[trigger] old_rows[i].id < #[trigger] new_rows[j].id,
{
    let cut = old_rows.len() - new_rows.len();
    assert forall|j: int| 0 <= j < new_rows.len() implies old_rows[j + cut]
        == #[trigger] new_rows[j] by {
        if old_rows.len() > ceiling {
            assert(new_rows[j] == old_rows.skip(old_rows.len() - ceiling as int)[j]);
        }
    }
}

/// Claim order is first-in, first-out: of two rows both taken by one
/// claim, the older one stands earlier in the batch.
pub proof fn lemma_claim_fifo(rows: Seq<QueueRow>, limit: nat, i: int, j: int)
    requires
        claimed_at(rows, limit, i),
        claimed_at(rows, limit, j),
        i < j,
    ensures
        count_pending_to(rows, i) < count_pending_to(rows, j),
{
    assert(count_pending_to(rows, i + 1) == count_pending_to(rows, i) + 1);
    lemma_count_pending_mono(rows, i + 1, j);
}

} // verus!
