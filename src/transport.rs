//! The transport facade: destination settings resolved once at construction,
//! the delivery worker, and the rate limiter fed by the responses.
//!
//! The network call and the background thread are the host's part: it polls
//! `next_request`, performs the POST, and reports the outcome back with
//! `finish_delivery`.

use vstd::prelude::*;
use crate::proxy::{chosen_proxy, opt_view, select_proxy, Proxy, Scheme};
use crate::ratelimit::{update_for, RateLimiter, RateLimitingCategory};
use crate::worker::{fresh, DeliveryWorker, FlushStatus, Phase, WorkerView};

verus! {

/// How many envelopes may wait for delivery at once.
pub const QUEUE_CAPACITY: usize = 30;

/// The destination that envelopes are submitted to.
#[derive(Clone, Debug)]
pub struct Dsn {
    pub scheme: Scheme,
    /// The public key that authenticates the client.
    pub public_key: String,
    /// The URL that envelopes are posted to.
    pub envelope_api_url: String,
}

/// The client settings that a transport reads.
#[derive(Clone, Debug)]
pub struct ClientOptions {
    pub dsn: Option<Dsn>,
    pub http_proxy: Option<String>,
    pub https_proxy: Option<String>,
    /// Disables TLS certificate verification when set.
    pub accept_invalid_certs: bool,
    pub user_agent: String,
}

/// The settings of the HTTP agent that performs the requests.
#[derive(Clone, Debug)]
pub struct Agent {
    pub proxy: Option<Proxy>,
    pub verify_tls: bool,
}

/// An envelope, already serialized.
#[derive(Clone, Debug)]
pub struct Envelope {
    pub bytes: Vec<u8>,
}

/// One submission: a POST of `body` to `url` with `auth` as `X-Sentry-Auth`.
#[derive(Clone, Debug)]
pub struct Request {
    pub url: String,
    pub auth: String,
    pub body: Vec<u8>,
}

/// What became of a delivery attempt.
#[derive(Clone, Debug)]
pub enum DeliveryOutcome {
    /// No response came (connection, DNS, TLS or timeout failure).
    Failed,
    /// A response came, with its status and the two rate-limit headers.
    Response { status: u16, rate_limits: Option<String>, retry_after: Option<String> },
}

/// The view of an optional proxy.
pub open spec fn proxy_view(p: Option<Proxy>) -> Option<Seq<char>> {
    match p {
        Some(x) => Some(x.url@),
        None => None,
    }
}

/// The agent settings that the options ask for: the chosen proxy, and TLS
/// verification unless invalid certificates are accepted.
pub open spec fn agent_matches(a: Agent, o: ClientOptions) -> bool {
    &&& proxy_view(a.proxy) == chosen_proxy(
        o.dsn->0.scheme,
        opt_view(o.https_proxy),
        opt_view(o.http_proxy),
    )
    &&& a.verify_tls == !o.accept_invalid_certs
}

/// The value of the authentication header for `key` and `user_agent`.
pub open spec fn auth_header(key: Seq<char>, user_agent: Seq<char>) -> Seq<char> {
    "Sentry sentry_key="@ + key + ", sentry_version=7, sentry_client="@ + user_agent
}

/// Builds the value of the authentication header.
pub fn make_auth_header(key: &str, user_agent: &str) -> (r: String)
    ensures
        r@ == auth_header(key@, user_agent@),
{
    let mut r = String::from_str("Sentry sentry_key=");
    r.append(key);
    r.append(", sentry_version=7, sentry_client=");
    r.append(user_agent);
    r
}

impl Agent {
    /// The agent that `options` describe.
    pub fn from_options(options: &ClientOptions) -> (r: Agent)
        requires
            options.dsn is Some,
        ensures
            agent_matches(r, *options),
    {
        let scheme = match &options.dsn {
            Some(d) => d.scheme,
            None => Scheme::Http,
        };
        let proxy = select_proxy(scheme, &options.https_proxy, &options.http_proxy);
        Agent { proxy, verify_tls: !options.accept_invalid_certs }
    }
}

/// A transport that submits envelopes over HTTP, one at a time, in order.
pub struct UreqHttpTransport {
    agent: Agent,
    url: String,
    auth: String,
    worker: DeliveryWorker<Envelope>,
    limits: RateLimiter,
}

impl UreqHttpTransport {
    /// The agent settings.
    pub closed spec fn spec_agent(&self) -> Agent {
        self.agent
    }

    /// The submission URL.
    pub closed spec fn spec_url(&self) -> Seq<char> {
        self.url@
    }

    /// The authentication header value.
    pub closed spec fn spec_auth(&self) -> Seq<char> {
        self.auth@
    }

    /// The state of the delivery worker.
    pub closed spec fn spec_worker(&self) -> WorkerView<Envelope> {
        self.worker@
    }

    /// The rate-limit state.
    pub closed spec fn spec_limits(&self) -> RateLimiter {
        self.limits
    }

    /// Consistency of the transport, kept by every operation.
    pub closed spec fn wf(&self) -> bool {
        self.worker.wf()
    }

    /// A consistent transport has a consistent worker, so the laws over
    /// `WorkerView` apply to it.
    pub proof fn lemma_wf_worker(&self)
        requires
            self.wf(),
        ensures
            self.spec_worker().wf(),
    {
        self.worker.lemma_wf_view();
    }

    /// What a new transport for `options` with `agent` is.
    pub open spec fn built_from(&self, options: ClientOptions, agent: Agent) -> bool {
        &&& self.wf()
        &&& self.spec_agent() == agent
        &&& self.spec_url() == options.dsn->0.envelope_api_url@
        &&& self.spec_auth() == auth_header(options.dsn->0.public_key@, options.user_agent@)
        &&& self.spec_worker() == fresh::<Envelope>(QUEUE_CAPACITY as nat)
        &&& self.spec_limits() == RateLimiter::new_spec()
    }

    /// Creates a new transport, with an agent configured from `options`.
    pub fn new(options: &ClientOptions) -> (r: Self)
        requires
            options.dsn is Some,
        ensures
            r.built_from(*options, r.spec_agent()),
            agent_matches(r.spec_agent(), *options),
    {
        Self::new_internal(options, None)
    }

    /// Creates a new transport that uses the given agent.
    pub fn with_agent(options: &ClientOptions, agent: Agent) -> (r: Self)
        requires
            options.dsn is Some,
        ensures
            r.built_from(*options, agent),
    {
        Self::new_internal(options, Some(agent))
    }

    fn new_internal(options: &ClientOptions, agent: Option<Agent>) -> (r: Self)
        requires
            options.dsn is Some,
        ensures
            match agent {
                Some(a) => r.built_from(*options, a),
                None => r.built_from(*options, r.spec_agent()) && agent_matches(
                    r.spec_agent(),
                    *options,
                ),
            },
    {
        let agent = match agent {
            Some(a) => a,
            None => Agent::from_options(options),
        };
        let (url, auth) = match &options.dsn {
            Some(d) => (
                d.envelope_api_url.clone(),
                make_auth_header(d.public_key.as_str(), options.user_agent.as_str()),
            ),
            None => (String::new(), String::new()),
        };
        UreqHttpTransport {
            agent,
            url,
            auth,
            worker: DeliveryWorker::new(QUEUE_CAPACITY),
            limits: RateLimiter::new(),
        }
    }
    /// The limits after `outcome`, reported at `now`.
    pub open spec fn limits_after(limits: RateLimiter, outcome: DeliveryOutcome, now: u64) -> RateLimiter {
        match outcome {
            DeliveryOutcome::Failed => limits,
            DeliveryOutcome::Response { status, rate_limits, retry_after } => limits.after(
                update_for(status, opt_view(rate_limits), opt_view(retry_after)),
                now,
            ),
        }
    }

    /// Hands `envelope` to the worker, fire-and-forget: it is queued when the
    /// worker runs and has room, and dropped otherwise.
    pub fn send_envelope(&mut self, envelope: Envelope)
        requires
            old(self).wf(),
        ensures
            final(self).wf(),
            final(self).spec_worker() == old(self).spec_worker().after_send(envelope),
            final(self).spec_limits() == old(self).spec_limits(),
            final(self).spec_agent() == old(self).spec_agent(),
            final(self).spec_url() == old(self).spec_url(),
            final(self).spec_auth() == old(self).spec_auth(),
    {
        let _accepted = self.worker.enqueue(envelope);
    }

    /// The next submission to perform: the oldest queued envelope, unless a
    /// delivery is in flight, nothing is queued or the transport has stopped.
    pub fn next_request(&mut self) -> (r: Option<Request>)
        requires
            old(self).wf(),
        ensures
            final(self).wf(),
            final(self).spec_worker() == old(self).spec_worker().after_poll(),
            final(self).spec_limits() == old(self).spec_limits(),
            final(self).spec_agent() == old(self).spec_agent(),
            final(self).spec_url() == old(self).spec_url(),
            final(self).spec_auth() == old(self).spec_auth(),
            r is Some <==> old(self).spec_worker().can_start(),
            r is Some ==> {
                &&& r->0.url@ == old(self).spec_url()
                &&& r->0.auth@ == old(self).spec_auth()
                &&& r->0.body@ == old(self).spec_worker().queue[0].bytes@
            },
    {
        match self.worker.next_delivery() {
            Some(e) => Some(Request { url: self.url.clone(), auth: self.auth.clone(), body: e.bytes }),
            None => None,
        }
    }

    /// Records the outcome of the delivery in flight, received at `now`: a
    /// response updates the rate limits; a failure changes nothing else.
    pub fn finish_delivery(&mut self, outcome: DeliveryOutcome, now: u64)
        requires
            old(self).wf(),
        ensures
            final(self).wf(),
            final(self).spec_worker() == old(self).spec_worker().after_finish(),
            final(self).spec_limits() == Self::limits_after(old(self).spec_limits(), outcome, now),
            final(self).spec_agent() == old(self).spec_agent(),
            final(self).spec_url() == old(self).spec_url(),
            final(self).spec_auth() == old(self).spec_auth(),
    {
        match outcome {
            DeliveryOutcome::Failed => {},
            DeliveryOutcome::Response { status, rate_limits, retry_after } => {
                self.limits.update_from_response(status, rate_limits, retry_after, now);
            },
        }
        self.worker.finish_delivery();
    }

    /// Whether `category` is limited at `now`.
    pub fn is_rate_limited(&self, category: RateLimitingCategory, now: u64) -> (r: bool)
        ensures
            r == self.spec_limits().limited(category, now),
    {
        self.limits.is_disabled(category, now)
    }

    /// The mark of a flush begun now.
    pub fn flush_mark(&self) -> (r: u64)
        requires
            self.wf(),
        ensures
            r == self.spec_worker().accepted.len(),
    {
        self.worker.flush_mark()
    }

    /// Where a flush begun at `mark` stands at `now`, with its deadline.
    pub fn flush_status(&self, mark: u64, now: u64, deadline: u64) -> (r: FlushStatus)
        requires
            self.wf(),
        ensures
            r == (if self.spec_worker().flushed(mark as nat) {
                FlushStatus::Done
            } else if now >= deadline {
                FlushStatus::TimedOut
            } else {
                FlushStatus::Waiting
            }),
    {
        self.worker.flush_status(mark, now, deadline)
    }

    /// Begins a shutdown: no envelope is accepted any more, and the queued
    /// ones are still handed out for the flush that follows.
    pub fn begin_shutdown(&mut self)
        requires
            old(self).wf(),
        ensures
            final(self).wf(),
            final(self).spec_worker() == old(self).spec_worker().after_shutdown(),
            final(self).spec_limits() == old(self).spec_limits(),
            final(self).spec_agent() == old(self).spec_agent(),
            final(self).spec_url() == old(self).spec_url(),
            final(self).spec_auth() == old(self).spec_auth(),
    {
        self.worker.begin_shutdown();
    }

    /// Ends a shutdown, whatever became of its flush: the transport stops, and
    /// nothing sent afterwards reaches the network.
    pub fn finish_shutdown(&mut self)
        requires
            old(self).wf(),
        ensures
            final(self).wf(),
            final(self).spec_worker() == old(self).spec_worker().after_stop(),
            final(self).spec_limits() == old(self).spec_limits(),
            final(self).spec_agent() == old(self).spec_agent(),
            final(self).spec_url() == old(self).spec_url(),
            final(self).spec_auth() == old(self).spec_auth(),
    {
        self.worker.stop();
    }

    /// The life-cycle phase.
    pub fn phase(&self) -> (r: Phase)
        ensures
            r == self.spec_worker().phase,
    {
        self.worker.phase()
    }

    /// How many envelopes wait for delivery.
    pub fn pending(&self) -> (r: usize)
        ensures
            r == self.spec_worker().queue.len(),
    {
        self.worker.pending()
    }
    /// The agent settings.
    pub fn agent(&self) -> (r: &Agent)
        ensures
            *r == self.spec_agent(),
    {
        &self.agent
    }

    /// The submission URL.
    pub fn url(&self) -> (r: &str)
        ensures
            r@ == self.spec_url(),
    {
        self.url.as_str()
    }

    /// The authentication header value.
    pub fn auth(&self) -> (r: &str)
        ensures
            r@ == self.spec_auth(),
    {
        self.auth.as_str()
    }
}

} // verus!
