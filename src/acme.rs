//! The ACME order for one domain, as a state machine: create the order, check its
//! validations, publish the HTTP-01 challenge, have it validated, refresh, retract the
//! challenge, and once everything is validated finalize and download the certificate.
//! The caller talks to the ACME server, hands over each outcome as an event and
//! performs the action that comes back.

use vstd::prelude::*;
use crate::challenge::{challenge_path, Challenge, ChallengeRegistry};

verus! {

/// Where an order stands.
#[derive(Clone, Copy, PartialEq, Eq, Structural, Debug)]
pub enum OrderStage {
    /// Waiting for the order to be created.
    Creating,
    /// Waiting to learn whether every authorization is validated.
    Confirming,
    /// Waiting for the authorizations.
    Authorizing,
    /// The challenge is published; waiting for the server's verdict.
    Validating,
    /// The challenge is published; waiting for the refreshed order status.
    Refreshing,
    /// Waiting for the finalized order.
    Finalizing,
    /// Waiting for the certificate.
    Downloading,
    /// The certificate was issued and downloaded.
    Issued,
    /// The order failed.
    Failed,
}

/// Why an order failed.
#[derive(Clone, Copy, PartialEq, Eq, Structural, Debug)]
pub enum OrderError {
    /// The order has no authorization to take an HTTP-01 challenge from.
    NoAuthorizations,
    /// The ACME server, or the way to it, returned an error.
    Server,
    /// An event came that the order was not waiting for.
    OutOfOrder,
}

/// What the caller does next.
#[derive(Clone, Copy, PartialEq, Eq, Structural, Debug)]
pub enum OrderAction {
    /// Create the order for the domain, with no alternative names.
    CreateOrder,
    /// Ask whether every authorization is validated.
    ConfirmValidations,
    /// Fetch the authorizations and hand over the first one's HTTP-01 challenge.
    FetchAuthorizations,
    /// Ask the server to validate the published challenge, waiting a bounded time.
    RequestValidation,
    /// Refresh the order status.
    RefreshOrder,
    /// Generate a key pair and finalize the order with its signing request.
    FinalizeOrder,
    /// Download and store the issued certificate.
    DownloadCertificate,
    /// The certificate is issued.
    Done,
    /// The order failed.
    Fail(OrderError),
}

/// The token and key authorization of an HTTP-01 challenge.
pub struct HttpChallenge {
    pub token: String,
    pub proof: String,
}

/// The outcome of the last action.
pub enum OrderEvent {
    /// The action succeeded.
    Succeeded,
    /// The action returned an error.
    Failed,
    /// Whether every authorization of the order is validated.
    Confirmed(bool),
    /// The HTTP-01 challenge of the first authorization; `None` where there is none.
    Authorized(Option<HttpChallenge>),
}

/// An event, as plain values.
pub enum OrderEventView {
    Succeeded,
    Failed,
    Confirmed(bool),
    Authorized(Option<(Seq<char>, Seq<char>)>),
}

impl View for OrderEvent {
    type V = OrderEventView;

    open spec fn view(&self) -> OrderEventView {
        match self {
            OrderEvent::Succeeded => OrderEventView::Succeeded,
            OrderEvent::Failed => OrderEventView::Failed,
            OrderEvent::Confirmed(b) => OrderEventView::Confirmed(*b),
            OrderEvent::Authorized(None) => OrderEventView::Authorized(None),
            OrderEvent::Authorized(Some(c)) => OrderEventView::Authorized(
                Some((c.token@, c.proof@)),
            ),
        }
    }
}

/// Whether the domain's challenge is published at `stage`: from the request for
/// validation until the refreshed status, or an error, has come.
pub open spec fn holds_challenge(stage: OrderStage) -> bool {
    stage == OrderStage::Validating || stage == OrderStage::Refreshing
}

/// Whether the order is over.
pub open spec fn is_finished(stage: OrderStage) -> bool {
    stage == OrderStage::Issued || stage == OrderStage::Failed
}

/// The stage and action that follow an event.
pub open spec fn transition(stage: OrderStage, event: OrderEventView) -> (OrderStage, OrderAction) {
    let fail = (OrderStage::Failed, OrderAction::Fail(OrderError::Server));
    let out_of_order = (OrderStage::Failed, OrderAction::Fail(OrderError::OutOfOrder));
    if is_finished(stage) {
        (stage, OrderAction::Fail(OrderError::OutOfOrder))
    } else {
        match event {
            OrderEventView::Failed => fail,
            OrderEventView::Succeeded => match stage {
                OrderStage::Creating => (OrderStage::Confirming, OrderAction::ConfirmValidations),
                OrderStage::Validating => (OrderStage::Refreshing, OrderAction::RefreshOrder),
                OrderStage::Refreshing => (OrderStage::Confirming, OrderAction::ConfirmValidations),
                OrderStage::Finalizing => (
                    OrderStage::Downloading,
                    OrderAction::DownloadCertificate,
                ),
                OrderStage::Downloading => (OrderStage::Issued, OrderAction::Done),
                _ => out_of_order,
            },
            OrderEventView::Confirmed(valid) => if stage == OrderStage::Confirming {
                if valid {
                    (OrderStage::Finalizing, OrderAction::FinalizeOrder)
                } else {
                    (OrderStage::Authorizing, OrderAction::FetchAuthorizations)
                }
            } else {
                out_of_order
            },
            OrderEventView::Authorized(c) => if stage == OrderStage::Authorizing {
                match c {
                    Some(_) => (OrderStage::Validating, OrderAction::RequestValidation),
                    None => (OrderStage::Failed, OrderAction::Fail(OrderError::NoAuthorizations)),
                }
            } else {
                out_of_order
            },
        }
    }
}

/// The registry holds a challenge for `domain` exactly while `stage` holds one, and
/// then it is the one for `token`.
pub open spec fn lifecycle(
    registry: Map<Seq<char>, Challenge>,
    domain: Seq<char>,
    stage: OrderStage,
    token: Seq<char>,
) -> bool {
    &&& registry.contains_key(domain) == holds_challenge(stage)
    &&& holds_challenge(stage) ==> registry[domain].path@ == challenge_path(token)
}

/// `after` is `before` with the challenge for `token`, answered by `proof`, published
/// for `domain`.
pub open spec fn published(
    before: Map<Seq<char>, Challenge>,
    after: Map<Seq<char>, Challenge>,
    domain: Seq<char>,
    token: Seq<char>,
    proof: Seq<char>,
) -> bool {
    &&& after.contains_key(domain)
    &&& after == before.insert(domain, after[domain])
    &&& after[domain].path@ == challenge_path(token)
    &&& after[domain].proof@ == proof
}

/// One certificate order for one domain.
pub struct Order {
    domain: String,
    stage: OrderStage,
    token: Ghost<Seq<char>>,
}

impl Order {
    /// A new order for `domain`; the first action is to create it.
    pub fn new(domain: String) -> (r: Self)
        ensures
            r.domain() == domain@,
            r.stage() == OrderStage::Creating,
            !holds_challenge(r.stage()),
    {
        Order { domain, stage: OrderStage::Creating, token: Ghost(Seq::empty()) }
    }

    pub closed spec fn domain(&self) -> Seq<char> {
        self.domain@
    }

    pub closed spec fn stage(&self) -> OrderStage {
        self.stage
    }

    /// The token of the challenge that was last published.
    pub closed spec fn token(&self) -> Seq<char> {
        self.token@
    }

    /// The first action of an order.
    pub fn first_action(&self) -> (r: OrderAction)
        ensures
            r == OrderAction::CreateOrder,
    {
        OrderAction::CreateOrder
    }

    /// Where the order stands.
    pub fn current_stage(&self) -> (r: OrderStage)
        ensures
            r == self.stage(),
    {
        self.stage
    }

    /// The domain the order is for.
    pub fn domain_name(&self) -> (r: &str)
        ensures
            r@ == self.domain(),
    {
        self.domain.as_str()
    }

    /// Takes in the outcome of the last action and says what to do next. The challenge
    /// is published in `registry` before validation is requested, and retracted once
    /// the verdict or the refreshed status has come, or an error, whatever it is.
    pub fn step(&mut self, registry: &mut ChallengeRegistry, event: OrderEvent) -> (r: OrderAction)
        ensures
            (final(self).stage(), r) == transition(old(self).stage(), event@),
            final(self).domain() == old(self).domain(),
            !holds_challenge(old(self).stage()) && holds_challenge(final(self).stage()) ==> match event@ {
                OrderEventView::Authorized(Some((token, proof))) => published(
                    old(registry)@,
                    final(registry)@,
                    final(self).domain(),
                    token,
                    proof,
                ) && final(self).token() == token,
                _ => false,
            },
            holds_challenge(old(self).stage()) && !holds_challenge(final(self).stage()) ==> final(registry)@ == old(registry)@.remove(old(self).domain()),
            holds_challenge(old(self).stage()) == holds_challenge(final(self).stage()) ==> final(registry)@ == old(registry)@ && final(self).token() == old(self).token(),
            lifecycle(old(registry)@, old(self).domain(), old(self).stage(), old(self).token())
                ==> lifecycle(
                final(registry)@,
                final(self).domain(),
                final(self).stage(),
                final(self).token(),
            ),
    {
        if self.stage == OrderStage::Issued || self.stage == OrderStage::Failed {
            return OrderAction::Fail(OrderError::OutOfOrder);
        }
        let holding = self.stage == OrderStage::Validating || self.stage == OrderStage::Refreshing;
        let (next, action) = match event {
            OrderEvent::Failed => (OrderStage::Failed, OrderAction::Fail(OrderError::Server)),
            OrderEvent::Succeeded => match self.stage {
                OrderStage::Creating => (OrderStage::Confirming, OrderAction::ConfirmValidations),
                OrderStage::Validating => (OrderStage::Refreshing, OrderAction::RefreshOrder),
                OrderStage::Refreshing => (OrderStage::Confirming, OrderAction::ConfirmValidations),
                OrderStage::Finalizing => (
                    OrderStage::Downloading,
                    OrderAction::DownloadCertificate,
                ),
                OrderStage::Downloading => (OrderStage::Issued, OrderAction::Done),
                _ => (OrderStage::Failed, OrderAction::Fail(OrderError::OutOfOrder)),
            },
            OrderEvent::Confirmed(valid) => {
                if self.stage == OrderStage::Confirming {
                    if valid {
                        (OrderStage::Finalizing, OrderAction::FinalizeOrder)
                    } else {
                        (OrderStage::Authorizing, OrderAction::FetchAuthorizations)
                    }
                } else {
                    (OrderStage::Failed, OrderAction::Fail(OrderError::OutOfOrder))
                }
            },
            OrderEvent::Authorized(found) => {
                if self.stage == OrderStage::Authorizing {
                    match found {
                        Some(c) => {
                            let ghost token = c.token@;
                            let challenge = Challenge::new(c.token.as_str(), c.proof);
                            registry.insert(self.domain.clone(), challenge);
                            self.token = Ghost(token);
                            (OrderStage::Validating, OrderAction::RequestValidation)
                        },
                        None => (
                            OrderStage::Failed,
                            OrderAction::Fail(OrderError::NoAuthorizations),
                        ),
                    }
                } else {
                    (OrderStage::Failed, OrderAction::Fail(OrderError::OutOfOrder))
                }
            },
        };
        if holding && !(next == OrderStage::Validating || next == OrderStage::Refreshing) {
            registry.remove(self.domain.as_str());
        }
        self.stage = next;
        action
    }
}

/// A fresh order satisfies the challenge lifecycle wherever the registry holds nothing
/// for its domain.
pub proof fn lemma_fresh_order_lifecycle(
    registry: Map<Seq<char>, Challenge>,
    domain: Seq<char>,
    token: Seq<char>,
)
    requires
        !registry.contains_key(domain),
    ensures
        lifecycle(registry, domain, OrderStage::Creating, token),
{
}

/// An order that is over, issued or failed, leaves no challenge published for its
/// domain.
pub proof fn lemma_finished_order_retracted(
    registry: Map<Seq<char>, Challenge>,
    domain: Seq<char>,
    stage: OrderStage,
    token: Seq<char>,
)
    requires
        lifecycle(registry, domain, stage, token),
        is_finished(stage),
    ensures
        !registry.contains_key(domain),
{
}

/// The certificates that the account store holds, given what it answered for each
/// domain in turn: the domains it holds none for are skipped, and the first error
/// fails the whole query.
pub open spec fn stored<C, E>(answers: Seq<(String, Result<Option<C>, E>)>) -> Result<
    Seq<(String, C)>,
    E,
>
    decreases answers.len(),
{
    if answers.len() == 0 {
        Ok(Seq::empty())
    } else {
        match stored(answers.drop_last()) {
            Err(e) => Err(e),
            Ok(found) => match answers.last().1 {
                Err(e) => Err(e),
                Ok(None) => Ok(found),
                Ok(Some(c)) => Ok(found.push((answers.last().0, c))),
            },
        }
    }
}

proof fn lemma_stored_error_stays<C, E>(answers: Seq<(String, Result<Option<C>, E>)>, k: int)
    requires
        0 <= k <= answers.len(),
        stored(answers.take(k)) is Err,
    ensures
        stored(answers) == stored(answers.take(k)),
    decreases answers.len() - k,
{
    if k < answers.len() {
        let next = answers.take(k + 1);
        assert(next.drop_last() =~= answers.take(k));
        assert(next.take(k + 1) =~= next);
        lemma_stored_error_stays(answers, k + 1);
    } else {
        assert(answers.take(k) =~= answers);
    }
}

/// The certificates found for each domain, given the account store's answers in the
/// order of the domains.
pub fn stored_certificates<C, E>(answers: Vec<(String, Result<Option<C>, E>)>) -> (r: Result<
    Vec<(String, C)>,
    E,
>)
    ensures
        match r {
            Ok(found) => stored(answers@) == Ok::<Seq<(String, C)>, E>(found@),
            Err(e) => stored(answers@) == Err::<Seq<(String, C)>, E>(e),
        },
{
    let ghost all = answers@;
    let total = answers.len();
    let mut rest = answers;
    let mut found: Vec<(String, C)> = Vec::new();
    let mut k: usize = 0;
    assert(all.take(0) =~= Seq::<(String, Result<Option<C>, E>)>::empty());
    assert(all.skip(0) =~= all);
    assert(found@ =~= Seq::<(String, C)>::empty());
    assert(stored(all.take(0)) == Ok::<Seq<(String, C)>, E>(Seq::empty()));
    while rest.len() > 0
        invariant
            k + rest@.len() == all.len(),
            all.len() == total,
            all == answers@,
            rest@ == all.skip(k as int),
            stored(all.take(k as int)) == Ok::<Seq<(String, C)>, E>(found@),
        decreases rest@.len(),
    {
        let (domain, answer) = rest.remove(0);
        assert(all.take(k + 1).drop_last() =~= all.take(k as int));
        assert(all.take(k + 1).last() == all[k as int]);
        assert(all[k as int] == all.skip(k as int)[0]);
        match answer {
            Err(e) => {
                proof {
                    assert(stored(all.take(k + 1)) == Err::<Seq<(String, C)>, E>(e));
                    lemma_stored_error_stays(all, k + 1);
                    assert(stored(all) == Err::<Seq<(String, C)>, E>(e));
                }
                return Err(e);
            },
            Ok(None) => {},
            Ok(Some(c)) => {
                found.push((domain, c));
            },
        }
        k = k + 1;
    }
    assert(all.take(k as int) =~= all);
    Ok(found)
}

} // verus!
