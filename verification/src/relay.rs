//! The relay core: one façade over the domain directory, the delivery
//! queue, the archive and the transport credential cell.
//!
//! Request handlers drive it through the registration, submission and
//! status operations; the background worker through claiming and the two
//! delivery resolutions; the culler through [`Relay::cull_archive`]. The
//! network itself stays outside: the synchronous path asks for clearance
//! with [`Relay::begin_sync_send`], performs the transport call, and
//! records the outcome with [`Relay::record_sent`].

use vstd::prelude::*;
use vstd::string::StrSliceExecFns;
use vstd::string::StringExecFns;

use crate::addr::domain_of_addr;
use crate::addr::extract_domain_from_addr;
use crate::archive::arch_row_is;
use crate::archive::Archive;
use crate::archive::ArchiveRow;
use crate::config::Config;
use crate::domains::lookup_domain;
use crate::domains::lookup_token;
use crate::domains::registered_post;
use crate::domains::valid_domain;
use crate::domains::DomainDirectory;
use crate::domains::DomainListEntry;
use crate::domains::DomainResponse;
use crate::errors::ApiError;
use crate::errors::ErrorKind;
use crate::queue::claimed_at;
use crate::queue::count_pending_to;
use crate::queue::count_retrying_to;
use crate::queue::index_of_id;
use crate::queue::insert_pos;
use crate::queue::msg_matches_row;
use crate::queue::row_eq;
use crate::queue::row_failed;
use crate::queue::row_from;
use crate::queue::row_marked;
use crate::queue::ClaimedMessage;
use crate::queue::DeliveryQueue;
use crate::queue::MailMessage;
use crate::text::str_eq;
use crate::text::trim_spec;
use crate::trusted::fresh_uuid;
use crate::trusted::lower_of;

verus! {

/// What a submission answers: the message identity and `"queued"` or
/// `"sent"`.
#[derive(Debug)]
pub struct SubmitReceipt {
    pub id: String,
    pub status: String,
}

/// Queue and archive sizes, as the health endpoint reports them.
#[derive(Debug)]
pub struct Health {
    pub queue_size: usize,
    pub archive_size: usize,
}

/// The current transport credentials. Both fields are empty (no
/// authentication) or both are set.
#[derive(Debug)]
pub struct TransportCredentials {
    pub user: String,
    pub pass: String,
}

/// What the credential endpoint reports: whether credentials are set, and
/// for whom.
#[derive(Debug)]
pub struct TransportStatus {
    pub configured: bool,
    pub user: String,
}

/// The view of an optional borrowed token.
pub open spec fn opt_view(t: Option<&str>) -> Option<Seq<char>> {
    match t {
        Some(s) => Some(s@),
        None => None,
    }
}

/// Why an authorization check fails, or nothing on success: no token is an
/// authentication failure, an unknown token too; a sender address without
/// a parseable domain is invalid; a domain other than the token's is
/// forbidden.
pub open spec fn auth_error(
    rows: Seq<crate::domains::DomainRow>,
    token: Option<Seq<char>>,
    from: Seq<char>,
) -> Option<ErrorKind> {
    match token {
        None => Some(ErrorKind::Auth),
        Some(t) => match lookup_token(rows, t) {
            None => Some(ErrorKind::Auth),
            Some(row) => match domain_of_addr(from) {
                None => Some(ErrorKind::Validation),
                Some(d) => if d == row.domain@ {
                    None
                } else {
                    Some(ErrorKind::Forbidden)
                },
            },
        },
    }
}

/// Why a submission is refused before any queue or transport work, or
/// nothing when it may proceed: an authorization failure, or an empty
/// recipient list.
pub open spec fn submit_error(
    rows: Seq<crate::domains::DomainRow>,
    token: Option<Seq<char>>,
    from: Seq<char>,
    n_to: int,
) -> Option<ErrorKind> {
    match auth_error(rows, token, from) {
        Some(k) => Some(k),
        None => if n_to == 0 {
            Some(ErrorKind::Validation)
        } else {
            None
        },
    }
}

/// The whole relay state.
#[derive(Debug)]
pub struct Relay {
    pub config: Config,
    pub domains: DomainDirectory,
    pub queue: DeliveryQueue,
    pub archive: Archive,
    pub creds: TransportCredentials,
}

impl Relay {
    /// Every component is well formed.
    pub open spec fn wf(self) -> bool {
        &&& self.domains.wf()
        &&& self.queue.wf()
        &&& self.archive.wf()
    }

    /// A fresh relay: empty stores, the given configuration and transport
    /// credentials.
    pub fn new(config: Config, smtp_user: String, smtp_pass: String) -> (r: Relay)
        ensures
            r.wf(),
            r.domains.rows@.len() == 0,
            r.queue.rows@.len() == 0,
            r.archive.rows@.len() == 0,
            r.config == config,
            r.creds.user@ == smtp_user@,
            r.creds.pass@ == smtp_pass@,
    {
        Relay {
            config,
            domains: DomainDirectory::new(),
            queue: DeliveryQueue::new(),
            archive: Archive::new(),
            creds: TransportCredentials { user: smtp_user, pass: smtp_pass },
        }
    }

    /// Registers a domain under a fresh random token.
    pub fn register_domain(&mut self, name: &str, now: i64) -> (r: Result<DomainResponse, ApiError>)
        requires
            old(self).wf(),
        ensures
            final(self).wf(),
            final(self).queue == old(self).queue,
            final(self).archive == old(self).archive,
            final(self).creds == old(self).creds,
            final(self).config == old(self).config,
            ({
                let norm = lower_of(trim_spec(name@));
                &&& !valid_domain(norm) ==> (r matches Err(e) && e.kind == ErrorKind::Validation)
                &&& valid_domain(norm) && lookup_domain(old(self).domains.rows@, norm) is Some ==> (
                r matches Err(e) && e.kind == ErrorKind::Conflict)
                &&& valid_domain(norm) && lookup_domain(old(self).domains.rows@, norm) is None && r
                    is Err ==> (r matches Err(e) && e.kind == ErrorKind::Conflict)
                &&& r is Err ==> final(self).domains == old(self).domains
                &&& r matches Ok(resp) ==> (valid_domain(norm) && lookup_domain(
                    old(self).domains.rows@,
                    norm,
                ) is None && resp.domain@ == norm && registered_post(
                    old(self).domains.rows@,
                    final(self).domains.rows@,
                    norm,
                    resp.token@,
                    now,
                ))
            }),
    {
        self.domains.register(name, now)
    }

    /// Registers a domain under the given token.
    pub fn register_domain_with_token(&mut self, name: &str, token: String, now: i64) -> (r: Result<
        DomainResponse,
        ApiError,
    >)
        requires
            old(self).wf(),
        ensures
            final(self).wf(),
            final(self).queue == old(self).queue,
            final(self).archive == old(self).archive,
            final(self).creds == old(self).creds,
            final(self).config == old(self).config,
            ({
                let norm = lower_of(trim_spec(name@));
                &&& !valid_domain(norm) ==> (r matches Err(e) && e.kind == ErrorKind::Validation
                    && final(self).domains == old(self).domains)
                &&& valid_domain(norm) && lookup_domain(old(self).domains.rows@, norm) is Some ==> (
                r matches Err(e) && e.kind == ErrorKind::Conflict && final(self).domains == old(self).domains)
                &&& valid_domain(norm) && lookup_domain(old(self).domains.rows@, norm) is None
                    && lookup_token(old(self).domains.rows@, token@) is Some ==> (r matches Err(e)
                    && e.kind == ErrorKind::Conflict && final(self).domains == old(self).domains)
                &&& valid_domain(norm) && lookup_domain(old(self).domains.rows@, norm) is None
                    && lookup_token(old(self).domains.rows@, token@) is None ==> (r matches Ok(resp)
                    && resp.domain@ == norm && resp.token@ == token@ && registered_post(
                    old(self).domains.rows@,
                    final(self).domains.rows@,
                    norm,
                    token@,
                    now,
                ))
            }),
    {
        self.domains.register_with_token(name, token, now)
    }

    /// Lists every registered domain, ascending by name.
    pub fn list_domains(&self) -> (r: Vec<DomainListEntry>)
        requires
            self.wf(),
        ensures
            r@.len() == self.domains.rows@.len(),
            forall|i: int|
                0 <= i < r@.len() ==> #[trigger] r@[i].domain@ == self.domains.rows@[i].domain@
                    && r@[i].created_at == self.domains.rows@[i].created_at,
    {
        let r = self.domains.list();
        proof {
            assert forall|i: int|
                0 <= i < r@.len() implies #[trigger] r@[i].domain@
                == self.domains.rows@[i].domain@ by {}
            assert forall|i: int|
                0 <= i < r@.len() implies #[trigger] r@[i].created_at
                == self.domains.rows@[i].created_at by {
                assert(r@[i].domain@ == self.domains.rows@[i].domain@);
            }
        }
        r
    }

    /// Deletes a domain registration; its token stops authorizing at once.
    pub fn delete_domain(&mut self, name: &str) -> (r: Result<(), ApiError>)
        requires
            old(self).wf(),
        ensures
            final(self).wf(),
            final(self).queue == old(self).queue,
            final(self).archive == old(self).archive,
            final(self).creds == old(self).creds,
            final(self).config == old(self).config,
            ({
                let norm = lower_of(name@);
                &&& lookup_domain(old(self).domains.rows@, norm) is None ==> (r matches Err(e)
                    && e.kind == ErrorKind::NotFound && final(self).domains == old(self).domains)
                &&& match lookup_domain(old(self).domains.rows@, norm) {
                    Some(row) => r is Ok && lookup_domain(final(self).domains.rows@, norm) is None
                        && lookup_token(final(self).domains.rows@, row.token@) is None && (forall|
                        x: Seq<char>,
                    |
                        x != norm ==> lookup_domain(final(self).domains.rows@, x) == lookup_domain(
                            old(self).domains.rows@,
                            x,
                        )) && (forall|x: Seq<char>|
                        x != row.token@ ==> lookup_token(final(self).domains.rows@, x)
                            == lookup_token(old(self).domains.rows@, x)),
                    None => true,
                }
            }),
    {
        self.domains.delete(name)
    }

    /// Seeds the configured startup domains, idempotently.
    pub fn seed_domains(&mut self, now: i64)
        requires
            old(self).wf(),
        ensures
            final(self).wf(),
            final(self).queue == old(self).queue,
            final(self).archive == old(self).archive,
            final(self).creds == old(self).creds,
            final(self).config == old(self).config,
            forall|x: Seq<char>|
                lookup_domain(old(self).domains.rows@, x) is Some ==> lookup_domain(
                    final(self).domains.rows@,
                    x,
                ) == lookup_domain(old(self).domains.rows@, x),
            forall|x: Seq<char>|
                lookup_domain(final(self).domains.rows@, x) is Some ==> lookup_domain(
                    old(self).domains.rows@,
                    x,
                ) is Some || (exists|i: int|
                    0 <= i < old(self).config.seed_domains@.len() && lower_of(
                        trim_spec(#[trigger] old(self).config.seed_domains@[i]@),
                    ) == x),
            (forall|i: int|
                0 <= i < old(self).config.seed_domains@.len() ==> (valid_domain(
                    lower_of(trim_spec(#[trigger] old(self).config.seed_domains@[i]@)),
                ) ==> lookup_domain(
                    old(self).domains.rows@,
                    lower_of(trim_spec(old(self).config.seed_domains@[i]@)),
                ) is Some)) ==> final(self).domains == old(self).domains,
    {
        let list = crate::queue::clone_strings(&self.config.seed_domains);
        proof {
            assert forall|i: int|
                0 <= i < list@.len() implies #[trigger] list@[i]@
                == self.config.seed_domains@[i]@ by {
                assert(list.deep_view()[i] == list@[i]@);
                assert(self.config.seed_domains.deep_view()[i] == self.config.seed_domains@[i]@);
            }
        }
        self.domains.seed(&list, now);
    }

    /// Gates a send: resolves the token, extracts the sender's domain, and
    /// demands that they agree.
    pub fn authorize(&self, token: Option<&str>, from: &str) -> (r: Result<(), ApiError>)
        ensures
            match auth_error(self.domains.rows@, opt_view(token), from@) {
                Some(k) => r matches Err(e) && e.kind == k,
                None => r is Ok,
            },
    {
        let t = match token {
            Some(t) => t,
            None => {
                return Err(
                    ApiError::new(
                        ErrorKind::Auth,
                        String::from_str("missing Authorization header"),
                    ),
                );
            },
        };
        let authorized = match self.domains.lookup_by_token(t) {
            Some(d) => d,
            None => {
                return Err(ApiError::new(ErrorKind::Auth, String::from_str("invalid token")));
            },
        };
        let from_domain = match extract_domain_from_addr(from) {
            Some(d) => d,
            None => {
                return Err(
                    ApiError::new(ErrorKind::Validation, String::from_str("invalid from address")),
                );
            },
        };
        if str_eq(from_domain.as_str(), authorized.as_str()) {
            Ok(())
        } else {
            Err(
                ApiError::new(
                    ErrorKind::Forbidden,
                    String::from_str("token does not authorize this sender domain"),
                ),
            )
        }
    }

    /// Authorizes and enqueues a message under the given identity.
    pub fn submit_queued(
        &mut self,
        token: Option<&str>,
        msg: &MailMessage,
        id: String,
        now: i64,
    ) -> (r: Result<SubmitReceipt, ApiError>)
        requires
            old(self).wf(),
        ensures
            final(self).wf(),
            final(self).domains == old(self).domains,
            final(self).archive == old(self).archive,
            final(self).creds == old(self).creds,
            final(self).config == old(self).config,
            match submit_error(old(self).domains.rows@, opt_view(token), msg.from@, msg.to@.len() as int) {
                Some(k) => r matches Err(e) && e.kind == k && *final(self) == *old(self),
                None => {
                    &&& index_of_id(old(self).queue.rows@, id@) is Some ==> (r matches Err(e)
                        && e.kind == ErrorKind::Persistence && *final(self) == *old(self))
                    &&& index_of_id(old(self).queue.rows@, id@) is None ==> (r matches Ok(receipt)
                        && receipt.id@ == id@ && receipt.status@ == "queued"@ && (exists|
                        b: crate::queue::QueueRow,
                    |
                        row_from(*msg, id@, now, b) && final(self).queue.rows@ == old(self).queue.rows@.insert(insert_pos(old(self).queue.rows@, now), b)))
                },
            },
    {
        match self.authorize(token, &msg.from) {
            Ok(()) => (),
            Err(e) => {
                return Err(e);
            },
        }
        if msg.to.len() == 0 {
            return Err(ApiError::new(ErrorKind::Validation, String::from_str("to list is empty")));
        }
        let receipt_id = id.clone();
        match self.queue.enqueue(msg, id, now) {
            Ok(()) => Ok(SubmitReceipt { id: receipt_id, status: String::from_str("queued") }),
            Err(e) => Err(e),
        }
    }

    /// Authorizes and enqueues a message under a fresh random identity:
    /// the asynchronous submission path.
    pub fn submit(&mut self, token: Option<&str>, msg: &MailMessage, now: i64) -> (r: Result<
        SubmitReceipt,
        ApiError,
    >)
        requires
            old(self).wf(),
        ensures
            final(self).wf(),
            final(self).domains == old(self).domains,
            final(self).archive == old(self).archive,
            final(self).creds == old(self).creds,
            final(self).config == old(self).config,
            match submit_error(old(self).domains.rows@, opt_view(token), msg.from@, msg.to@.len() as int) {
                Some(k) => r matches Err(e) && e.kind == k && *final(self) == *old(self),
                None => {
                    &&& r matches Err(e) ==> (e.kind == ErrorKind::Persistence && *final(self)
                        == *old(self))
                    &&& r matches Ok(receipt) ==> (receipt.status@ == "queued"@ && (exists|
                        b: crate::queue::QueueRow,
                    |
                        row_from(*msg, receipt.id@, now, b) && final(self).queue.rows@ == old(self).queue.rows@.insert(insert_pos(old(self).queue.rows@, now), b)))
                },
            },
    {
        let id = fresh_uuid();
        self.submit_queued(token, msg, id, now)
    }

    /// Clears a synchronous send: the same gate as queued submission, with
    /// no state change. The caller performs the transport call and then
    /// records the outcome.
    pub fn begin_sync_send(&self, token: Option<&str>, msg: &MailMessage) -> (r: Result<
        (),
        ApiError,
    >)
        ensures
            match submit_error(self.domains.rows@, opt_view(token), msg.from@, msg.to@.len() as int) {
                Some(k) => r matches Err(e) && e.kind == k,
                None => r is Ok,
            },
    {
        match self.authorize(token, &msg.from) {
            Ok(()) => (),
            Err(e) => {
                return Err(e);
            },
        }
        if msg.to.len() == 0 {
            return Err(ApiError::new(ErrorKind::Validation, String::from_str("to list is empty")));
        }
        Ok(())
    }

    /// Records a completed synchronous send: archives the message under
    /// the given identity when `save` asks for it.
    pub fn record_sent(&mut self, msg: &MailMessage, save: bool, id: String, now: i64) -> (r:
        SubmitReceipt)
        requires
            old(self).wf(),
            old(self).archive.next_id < i64::MAX,
        ensures
            final(self).wf(),
            final(self).domains == old(self).domains,
            final(self).queue == old(self).queue,
            final(self).creds == old(self).creds,
            final(self).config == old(self).config,
            r.id@ == id@,
            r.status@ == "sent"@,
            save ==> (exists|b: ArchiveRow|
                arch_row_is(
                    b,
                    old(self).archive.next_id as int,
                    id@,
                    msg.from@,
                    msg.to.deep_view(),
                    msg.subject@,
                    msg.body@,
                    msg.html.deep_view(),
                    now,
                ) && final(self).archive.rows@ == old(self).archive.rows@.push(b)),
            !save ==> final(self).archive == old(self).archive,
    {
        let receipt_id = id.clone();
        if save {
            let _ = self.archive.append(
                id,
                msg.from.as_str(),
                &msg.to,
                msg.subject.as_str(),
                msg.body.as_str(),
                &msg.html,
                now,
            );
        }
        SubmitReceipt { id: receipt_id, status: String::from_str("sent") }
    }

    /// As [`Relay::record_sent`], under a fresh random identity.
    pub fn record_sent_fresh(&mut self, msg: &MailMessage, save: bool, now: i64) -> (r:
        SubmitReceipt)
        requires
            old(self).wf(),
            old(self).archive.next_id < i64::MAX,
        ensures
            final(self).wf(),
            final(self).domains == old(self).domains,
            final(self).queue == old(self).queue,
            final(self).creds == old(self).creds,
            final(self).config == old(self).config,
            r.status@ == "sent"@,
            save ==> (exists|b: ArchiveRow|
                arch_row_is(
                    b,
                    old(self).archive.next_id as int,
                    r.id@,
                    msg.from@,
                    msg.to.deep_view(),
                    msg.subject@,
                    msg.body@,
                    msg.html.deep_view(),
                    now,
                ) && final(self).archive.rows@ == old(self).archive.rows@.push(b)),
            !save ==> final(self).archive == old(self).archive,
    {
        let id = fresh_uuid();
        self.record_sent(msg, save, id, now)
    }

    /// Claims up to `limit` of the oldest pending queue rows for delivery.
    pub fn claim_batch(&mut self, limit: usize) -> (r: Vec<ClaimedMessage>)
        requires
            old(self).wf(),
        ensures
            final(self).wf(),
            final(self).domains == old(self).domains,
            final(self).archive == old(self).archive,
            final(self).creds == old(self).creds,
            final(self).config == old(self).config,
            final(self).queue.rows@.len() == old(self).queue.rows@.len(),
            forall|i: int|
                claimed_at(old(self).queue.rows@, limit as nat, i) ==> row_marked(
                    old(self).queue.rows@[i],
                    #[trigger] final(self).queue.rows@[i],
                ),
            forall|i: int|
                0 <= i < old(self).queue.rows@.len() && !claimed_at(
                    old(self).queue.rows@,
                    limit as nat,
                    i,
                ) ==> row_eq(old(self).queue.rows@[i], #[trigger] final(self).queue.rows@[i]),
            r@.len() == vstd::math::min(
                count_pending_to(old(self).queue.rows@, old(self).queue.rows@.len() as int) as int,
                limit as int,
            ),
            forall|i: int|
                claimed_at(old(self).queue.rows@, limit as nat, i) ==> msg_matches_row(
                    #[trigger] r@[count_pending_to(old(self).queue.rows@, i) as int],
                    old(self).queue.rows@[i],
                ),
    {
        self.queue.claim(limit)
    }

    /// Records a delivered queue message: archives its content, then
    /// deletes its queue row.
    pub fn record_delivery_success(&mut self, msg: &ClaimedMessage, now: i64)
        requires
            old(self).wf(),
            old(self).archive.next_id < i64::MAX,
        ensures
            final(self).wf(),
            final(self).domains == old(self).domains,
            final(self).creds == old(self).creds,
            final(self).config == old(self).config,
            final(self).archive.next_id == old(self).archive.next_id + 1,
            exists|b: ArchiveRow|
                arch_row_is(
                    b,
                    old(self).archive.next_id as int,
                    msg.id@,
                    msg.from@,
                    msg.to.deep_view(),
                    msg.subject@,
                    msg.body@,
                    msg.html.deep_view(),
                    now,
                ) && final(self).archive.rows@ == old(self).archive.rows@.push(b),
            match index_of_id(old(self).queue.rows@, msg.id@) {
                Some(k) => final(self).queue.rows@ == old(self).queue.rows@.remove(k),
                None => final(self).queue == old(self).queue,
            },
    {
        let _ = self.archive.append(
            msg.id.clone(),
            msg.from.as_str(),
            &msg.to,
            msg.subject.as_str(),
            msg.body.as_str(),
            &msg.html,
            now,
        );
        let _ = self.queue.resolve_success(msg.id.as_str());
    }

    /// Records a failed delivery attempt: the row goes back to `Pending`
    /// with the attempt counted and the error text stored; it is never
    /// deleted.
    pub fn record_delivery_failure(&mut self, id: &str, error: &str)
        requires
            old(self).wf(),
        ensures
            final(self).wf(),
            final(self).domains == old(self).domains,
            final(self).archive == old(self).archive,
            final(self).creds == old(self).creds,
            final(self).config == old(self).config,
            final(self).queue.rows@.len() == old(self).queue.rows@.len(),
            match index_of_id(old(self).queue.rows@, id@) {
                Some(k) => row_failed(
                    old(self).queue.rows@[k],
                    final(self).queue.rows@[k],
                    error@,
                ) && (forall|i: int|
                    0 <= i < old(self).queue.rows@.len() && i != k ==> row_eq(
                        old(self).queue.rows@[i],
                        #[trigger] final(self).queue.rows@[i],
                    )),
                None => final(self).queue == old(self).queue,
            },
    {
        let _ = self.queue.resolve_failure(id, error);
    }

    /// Runs one culler cycle against the configured retention ceiling.
    pub fn cull_archive(&mut self) -> (deleted: usize)
        requires
            old(self).wf(),
        ensures
            final(self).wf(),
            final(self).domains == old(self).domains,
            final(self).queue == old(self).queue,
            final(self).creds == old(self).creds,
            final(self).config == old(self).config,
            final(self).archive.next_id == old(self).archive.next_id,
            old(self).archive.rows@.len() <= old(self).config.archive_max_rows ==> deleted == 0
                && final(self).archive == old(self).archive,
            old(self).archive.rows@.len() > old(self).config.archive_max_rows ==> deleted == old(self).archive.rows@.len() - old(self).config.archive_max_rows && final(self).archive.rows@
                == old(self).archive.rows@.skip(deleted as int),
            final(self).archive.rows@.len() <= old(self).config.archive_max_rows || final(self).archive.rows@.len() == old(self).archive.rows@.len(),
    {
        let ceiling = self.config.archive_max_rows;
        self.archive.cull(ceiling)
    }

    /// Queue and archive sizes.
    pub fn health(&self) -> (r: Health)
        ensures
            r.queue_size == self.queue.rows@.len(),
            r.archive_size == self.archive.rows@.len(),
    {
        Health { queue_size: self.queue.rows.len(), archive_size: self.archive.rows.len() }
    }

    /// How many queue rows have failed at least once and are waiting to be
    /// retried.
    pub fn retrying_count(&self) -> (r: usize)
        ensures
            r == count_retrying_to(self.queue.rows@, self.queue.rows@.len() as int),
    {
        self.queue.retrying_count()
    }

    /// Whether transport credentials are configured, and for which user.
    pub fn transport_status(&self) -> (r: TransportStatus)
        ensures
            r.configured == (self.creds.user@.len() != 0),
            r.user@ == self.creds.user@,
    {
        let configured = self.creds.user.as_str().unicode_len() != 0;
        TransportStatus { configured, user: self.creds.user.clone() }
    }

    /// Replaces the transport credentials; both fields are required, and
    /// the new pair takes effect for every later send.
    pub fn set_transport_credentials(&mut self, user: String, pass: String) -> (r: Result<
        (),
        ApiError,
    >)
        requires
            old(self).wf(),
        ensures
            final(self).wf(),
            final(self).domains == old(self).domains,
            final(self).queue == old(self).queue,
            final(self).archive == old(self).archive,
            final(self).config == old(self).config,
            user@.len() == 0 || pass@.len() == 0 ==> (r matches Err(e) && e.kind
                == ErrorKind::Validation && *final(self) == *old(self)),
            user@.len() != 0 && pass@.len() != 0 ==> (r is Ok && final(self).creds.user@ == user@
                && final(self).creds.pass@ == pass@),
    {
        if user.as_str().unicode_len() == 0 || pass.as_str().unicode_len() == 0 {
            return Err(
                ApiError::new(ErrorKind::Validation, String::from_str("user and pass are required")),
            );
        }
        self.creds = TransportCredentials { user, pass };
        Ok(())
    }
}

} // verus!
