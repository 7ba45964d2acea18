//! The crate's trusted boundary: wrappers around outside functions whose
//! contracts Verus believes without proof.
//!
//! Each wrapper's body holds exactly one outside call plus conversions of
//! its result; the doc comment names what is relied on.

use vstd::prelude::*;

verus! {

/// The Unicode lowercase mapping of a character sequence, as
/// `str::to_lowercase` computes it: a function of the characters alone.
pub uninterp spec fn lower_of(s: Seq<char>) -> Seq<char>;

/// Relies on `str::to_lowercase` (std): returns the lowercase mapping of
/// the input, which depends on the input characters alone.
#[verifier::external_body]
pub(crate) fn lowercase(s: &str) -> (r: String)
    ensures
        r@ == lower_of(s@),
{
    s.to_lowercase()
}

/// Whether lettre's mailbox grammar accepts `s` (`user@domain` or
/// `Name <user@domain>`).
pub uninterp spec fn mailbox_ok(s: Seq<char>) -> bool;

/// Relies on `<lettre::message::Mailbox as FromStr>::from_str`: a pure
/// parser, so acceptance depends on the string alone.
#[verifier::external_body]
pub(crate) fn is_valid_mailbox(s: &str) -> (r: bool)
    ensures
        r == mailbox_ok(s@),
{
    s.parse::<lettre::message::Mailbox>().is_ok()
}

/// Relies on `uuid::Uuid::new_v4` and its `Display`: a fresh random
/// version-4 UUID rendered in the 36-character hyphenated form. Nothing is
/// assumed of the value beyond its length; in particular not uniqueness.
#[verifier::external_body]
pub(crate) fn fresh_uuid() -> (r: String)
    ensures
        r@.len() == 36,
{
    uuid::Uuid::new_v4().to_string()
}

/// Relies on `std::time::SystemTime::now` and
/// `SystemTime::duration_since`: milliseconds elapsed since the Unix epoch,
/// 0 if the clock reads earlier than the epoch, saturating at `i64::MAX`.
/// Nothing is assumed of the value beyond being nonnegative.
#[verifier::external_body]
pub fn now_millis() -> (r: i64)
    ensures
        0 <= r,
{
    std::time::SystemTime::now()
        .duration_since(std::time::UNIX_EPOCH)
        .map(|d| i64::try_from(d.as_millis()).unwrap_or(i64::MAX))
        .unwrap_or(0)
}

} // verus!
