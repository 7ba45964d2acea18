//! Address validation for the mail transport.
//!
//! A send is built from a sender mailbox and one mailbox per recipient;
//! any entry the mailbox grammar rejects fails the whole send, surfacing
//! as a transport-class failure exactly as a refused connection would.

use vstd::prelude::*;
use vstd::string::StringExecFns;

use crate::errors::ApiError;
use crate::errors::ErrorKind;
use crate::trusted::is_valid_mailbox;
use crate::trusted::mailbox_ok;

verus! {

/// Accepts a message for transport exactly when the sender address and
/// every recipient address parse as mailboxes.
pub fn validate_message(from: &str, to: &Vec<String>) -> (r: Result<(), ApiError>)
    ensures
        r is Ok <==> (mailbox_ok(from@) && (forall|i: int|
            0 <= i < to@.len() ==> mailbox_ok(#[trigger] to@[i]@))),
        r matches Err(e) ==> e.kind == ErrorKind::Transport,
{
    if !is_valid_mailbox(from) {
        return Err(ApiError::new(ErrorKind::Transport, String::from_str("bad from address")));
    }
    let mut i: usize = 0;
    while i < to.len()
        invariant
            0 <= i <= to@.len(),
            mailbox_ok(from@),
            forall|m: int| 0 <= m < i ==> mailbox_ok(#[trigger] to@[m]@),
        decreases to@.len() - i,
    {
        if !is_valid_mailbox(to[i].as_str()) {
            return Err(ApiError::new(ErrorKind::Transport, String::from_str("bad to address")));
        }
        i = i + 1;
    }
    Ok(())
}

} // verus!
