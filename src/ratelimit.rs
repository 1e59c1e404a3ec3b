//! Per-category throttle windows, updated from the server's responses.

use vstd::prelude::*;
use crate::httpdate::{http_date_secs, parse_http_date};
use crate::proxy::opt_view;
use crate::text::{
    chars_of, find, find_in, parse_seconds, saturate, seconds_value, trim, trim_in,
};

verus! {

/// A bucket of telemetry that the server throttles on its own.
#[derive(Clone, Copy, Debug, PartialEq, Eq, Structural)]
pub enum RateLimitingCategory {
    /// Every category at once.
    Any,
    Error,
    Session,
    Transaction,
    Attachment,
}

/// Reset instants, in seconds, per category. A category is limited while the
/// current instant is before its reset instant; expired entries stay inert.
#[derive(Clone, Copy, Debug, PartialEq, Eq, Structural)]
pub struct RateLimiter {
    pub global: Option<u64>,
    pub error: Option<u64>,
    pub session: Option<u64>,
    pub transaction: Option<u64>,
    pub attachment: Option<u64>,
}

/// Delay applied to every category after a bare `429 Too Many Requests`, and
/// after a `retry-after` value that cannot be read.
pub const DEFAULT_RETRY_AFTER_SECS: u64 = 60;

/// The instant `secs` seconds after `now`, saturating at `u64::MAX`.
pub open spec fn reset_time(now: u64, secs: nat) -> u64 {
    saturate((now + secs) as nat)
}

/// The category that a name in the rate-limit header stands for.
pub open spec fn category_named(name: Seq<char>) -> Option<RateLimitingCategory> {
    if name == seq!['e', 'r', 'r', 'o', 'r'] {
        Some(RateLimitingCategory::Error)
    } else if name == seq!['s', 'e', 's', 's', 'i', 'o', 'n'] {
        Some(RateLimitingCategory::Session)
    } else if name == seq!['t', 'r', 'a', 'n', 's', 'a', 'c', 't', 'i', 'o', 'n'] {
        Some(RateLimitingCategory::Transaction)
    } else if name == seq!['a', 't', 't', 'a', 'c', 'h', 'm', 'e', 'n', 't'] {
        Some(RateLimitingCategory::Attachment)
    } else {
        None
    }
}

/// The reset instant that a `retry-after` value received at `now` sets: a
/// delay in decimal seconds after `now` (rounded up), or the instant that an HTTP-date
/// names (blanks around either allowed), else the default delay.
/// Instants are seconds since the Unix epoch.
pub open spec fn retry_after_reset(value: Seq<char>, now: u64) -> u64 {
    let v = trim(value);
    if seconds_value(v) is Some {
        reset_time(now, seconds_value(v)->0)
    } else if http_date_secs(v) is Some {
        saturate(http_date_secs(v)->0)
    } else {
        reset_time(now, DEFAULT_RETRY_AFTER_SECS as nat)
    }
}

/// What a response asks of the rate limiter, strongest signal first.
#[derive(Clone, Debug)]
pub enum RateLimitUpdate {
    /// The structured rate-limit header, with its value.
    SentryHeader(String),
    /// The `retry-after` header, with its value.
    RetryAfter(String),
    /// Status 429 with neither header.
    TooManyRequests,
    /// Nothing to record.
    Unchanged,
}

/// HTTP status `429 Too Many Requests`.
pub const TOO_MANY_REQUESTS: u16 = 429;

/// The update that a response asks for: the rate-limit header wins over
/// `retry-after`, which wins over a bare status 429.
pub open spec fn update_for(
    status: u16,
    rate_limits: Option<Seq<char>>,
    retry_after: Option<Seq<char>>,
) -> RateLimitUpdateView {
    if rate_limits is Some {
        RateLimitUpdateView::SentryHeader(rate_limits->0)
    } else if retry_after is Some {
        RateLimitUpdateView::RetryAfter(retry_after->0)
    } else if status == TOO_MANY_REQUESTS {
        RateLimitUpdateView::TooManyRequests
    } else {
        RateLimitUpdateView::Unchanged
    }
}

/// The mathematical value of a `RateLimitUpdate`.
pub enum RateLimitUpdateView {
    SentryHeader(Seq<char>),
    RetryAfter(Seq<char>),
    TooManyRequests,
    Unchanged,
}

impl View for RateLimitUpdate {
    type V = RateLimitUpdateView;

    open spec fn view(&self) -> RateLimitUpdateView {
        match self {
            RateLimitUpdate::SentryHeader(h) => RateLimitUpdateView::SentryHeader(h@),
            RateLimitUpdate::RetryAfter(h) => RateLimitUpdateView::RetryAfter(h@),
            RateLimitUpdate::TooManyRequests => RateLimitUpdateView::TooManyRequests,
            RateLimitUpdate::Unchanged => RateLimitUpdateView::Unchanged,
        }
    }
}

/// Picks what a response with `status` and the two optional headers asks of
/// the rate limiter; the first present signal wins and the others are not read.
pub fn classify_response(status: u16, rate_limits: Option<String>, retry_after: Option<String>) -> (r:
    RateLimitUpdate)
    ensures
        r@ == update_for(status, opt_view(rate_limits), opt_view(retry_after)),
{
    match rate_limits {
        Some(h) => RateLimitUpdate::SentryHeader(h),
        None => match retry_after {
            Some(h) => RateLimitUpdate::RetryAfter(h),
            None => if status == TOO_MANY_REQUESTS {
                RateLimitUpdate::TooManyRequests
            } else {
                RateLimitUpdate::Unchanged
            },
        },
    }
}

impl RateLimiter {
    /// The recorded reset instant of `c` alone.
    pub open spec fn reset_at(self, c: RateLimitingCategory) -> Option<u64> {
        match c {
            RateLimitingCategory::Any => self.global,
            RateLimitingCategory::Error => self.error,
            RateLimitingCategory::Session => self.session,
            RateLimitingCategory::Transaction => self.transaction,
            RateLimitingCategory::Attachment => self.attachment,
        }
    }

    /// This state with the reset instant of `c` set to `t`.
    pub open spec fn with_reset(self, c: RateLimitingCategory, t: u64) -> RateLimiter {
        match c {
            RateLimitingCategory::Any => RateLimiter { global: Some(t), ..self },
            RateLimitingCategory::Error => RateLimiter { error: Some(t), ..self },
            RateLimitingCategory::Session => RateLimiter { session: Some(t), ..self },
            RateLimitingCategory::Transaction => RateLimiter { transaction: Some(t), ..self },
            RateLimitingCategory::Attachment => RateLimiter { attachment: Some(t), ..self },
        }
    }

    /// Whether `c`, or every category, is limited at `now`.
    pub open spec fn limited(self, c: RateLimitingCategory, now: u64) -> bool {
        (self.global is Some && now < self.global->0) || (self.reset_at(c) is Some && now
            < self.reset_at(c)->0)
    }

    /// The effect of a `;`-separated category list, each known name limited until `t`.
    pub open spec fn with_categories(self, cats: Seq<char>, t: u64) -> RateLimiter
        decreases cats.len(),
    {
        let q = find(cats, ';');
        let next = match category_named(cats.subrange(0, q)) {
            Some(c) => self.with_reset(c, t),
            None => self,
        };
        if 0 <= q < cats.len() {
            next.with_categories(cats.subrange(q + 1, cats.len() as int), t)
        } else {
            next
        }
    }

    /// The effect of one limit entry `seconds:categories[:scope...]` received at
    /// `now`, its delay in decimal seconds rounded up. An empty category list
    /// limits every category; an entry without a category field, or whose
    /// delay cannot be read, is ignored.
    pub open spec fn with_entry(self, entry: Seq<char>, now: u64) -> RateLimiter {
        let g = trim(entry);
        let p = find(g, ':');
        if p >= g.len() || seconds_value(g.subrange(0, p)) is None {
            self
        } else {
            let t = reset_time(now, seconds_value(g.subrange(0, p))->0);
            let rest = g.subrange(p + 1, g.len() as int);
            let cats = rest.subrange(0, find(rest, ':'));
            let base = if cats.len() == 0 {
                self.with_reset(RateLimitingCategory::Any, t)
            } else {
                self
            };
            base.with_categories(cats, t)
        }
    }

    /// The effect of a whole rate-limit header: its `,`-separated entries in turn.
    pub open spec fn with_header(self, header: Seq<char>, now: u64) -> RateLimiter
        decreases header.len(),
    {
        let k = find(header, ',');
        let next = self.with_entry(header.subrange(0, k), now);
        if 0 <= k < header.len() {
            next.with_header(header.subrange(k + 1, header.len() as int), now)
        } else {
            next
        }
    }

    /// The limiter with no category limited.
    pub open spec fn new_spec() -> RateLimiter {
        RateLimiter { global: None, error: None, session: None, transaction: None, attachment: None }
    }

    /// A limiter with no category limited.
    pub fn new() -> (r: RateLimiter)
        ensures
            r == RateLimiter::new_spec(),
    {
        RateLimiter { global: None, error: None, session: None, transaction: None, attachment: None }
    }

    /// Whether `category` may not be sent at `now`.
    pub fn is_disabled(&self, category: RateLimitingCategory, now: u64) -> (r: bool)
        ensures
            r == self.limited(category, now),
    {
        let own = match category {
            RateLimitingCategory::Any => self.global,
            RateLimitingCategory::Error => self.error,
            RateLimitingCategory::Session => self.session,
            RateLimitingCategory::Transaction => self.transaction,
            RateLimitingCategory::Attachment => self.attachment,
        };
        let g = match self.global {
            Some(t) => now < t,
            None => false,
        };
        let o = match own {
            Some(t) => now < t,
            None => false,
        };
        g || o
    }

    fn set_reset(&mut self, c: RateLimitingCategory, t: u64)
        ensures
            *final(self) == old(self).with_reset(c, t),
    {
        match c {
            RateLimitingCategory::Any => self.global = Some(t),
            RateLimitingCategory::Error => self.error = Some(t),
            RateLimitingCategory::Session => self.session = Some(t),
            RateLimitingCategory::Transaction => self.transaction = Some(t),
            RateLimitingCategory::Attachment => self.attachment = Some(t),
        }
    }

    /// Limits the category, if any, that `v[lo..hi]` names.
    fn apply_category_name(&mut self, v: &[char], lo: usize, hi: usize, t: u64)
        requires
            lo <= hi <= v@.len(),
        ensures
            *final(self) == match category_named(v@.subrange(lo as int, hi as int)) {
                Some(c) => old(self).with_reset(c, t),
                None => *old(self),
            },
    {
        let ghost name = v@.subrange(lo as int, hi as int);
        let len = hi - lo;
        if len == 5 && v[lo] == 'e' && v[lo + 1] == 'r' && v[lo + 2] == 'r' && v[lo + 3] == 'o'
            && v[lo + 4] == 'r' {
            assert(name =~= seq!['e', 'r', 'r', 'o', 'r']);
            self.set_reset(RateLimitingCategory::Error, t);
        } else if len == 7 && v[lo] == 's' && v[lo + 1] == 'e' && v[lo + 2] == 's' && v[lo + 3]
            == 's' && v[lo + 4] == 'i' && v[lo + 5] == 'o' && v[lo + 6] == 'n' {
            assert(name =~= seq!['s', 'e', 's', 's', 'i', 'o', 'n']);
            self.set_reset(RateLimitingCategory::Session, t);
        } else if len == 11 && v[lo] == 't' && v[lo + 1] == 'r' && v[lo + 2] == 'a' && v[lo + 3]
            == 'n' && v[lo + 4] == 's' && v[lo + 5] == 'a' && v[lo + 6] == 'c' && v[lo + 7] == 't'
            && v[lo + 8] == 'i' && v[lo + 9] == 'o' && v[lo + 10] == 'n' {
            assert(name =~= seq!['t', 'r', 'a', 'n', 's', 'a', 'c', 't', 'i', 'o', 'n']);
            self.set_reset(RateLimitingCategory::Transaction, t);
        } else if len == 10 && v[lo] == 'a' && v[lo + 1] == 't' && v[lo + 2] == 't' && v[lo + 3]
            == 'a' && v[lo + 4] == 'c' && v[lo + 5] == 'h' && v[lo + 6] == 'm' && v[lo + 7] == 'e'
            && v[lo + 8] == 'n' && v[lo + 9] == 't' {
            assert(name =~= seq!['a', 't', 't', 'a', 'c', 'h', 'm', 'e', 'n', 't']);
            self.set_reset(RateLimitingCategory::Attachment, t);
        } else {
            assert(category_named(name) is None) by {
                assert(name.len() == len);
                if name.len() > 0 {
                    assert(name[0] == v@[lo as int]);
                    assert(forall|j: int| 0 <= j < name.len() ==> name[j] == v@[lo + j]);
                }
            }
        }
    }
    /// Limits each known category of the `;`-separated list `v[lo..hi]` until `t`.
    fn apply_categories(&mut self, v: &[char], lo: usize, hi: usize, t: u64)
        requires
            lo <= hi <= v@.len(),
        ensures
            *final(self) == old(self).with_categories(v@.subrange(lo as int, hi as int), t),
    {
        let ghost target = self.with_categories(v@.subrange(lo as int, hi as int), t);
        let mut pos: usize = lo;
        loop
            invariant
                lo <= pos <= hi <= v@.len(),
                target == old(self).with_categories(v@.subrange(lo as int, hi as int), t),
                target == self.with_categories(v@.subrange(pos as int, hi as int), t),
            decreases hi - pos,
        {
            let q = find_in(v, pos, hi, ';');
            let ghost cats = v@.subrange(pos as int, hi as int);
            assert(cats.subrange(0, q - pos) =~= v@.subrange(pos as int, q as int));
            let ghost prev = *self;
            self.apply_category_name(v, pos, q, t);
            assert(prev.with_categories(cats, t) == if q < hi {
                self.with_categories(cats.subrange(q - pos + 1, cats.len() as int), t)
            } else {
                *self
            });
            if q == hi {
                return;
            }
            assert(cats.subrange(q - pos + 1, cats.len() as int) =~= v@.subrange(
                q + 1,
                hi as int,
            ));
            pos = q + 1;
        }
    }

    /// Applies the limit entry `v[lo..hi]` received at `now`.
    fn apply_entry(&mut self, v: &[char], lo: usize, hi: usize, now: u64)
        requires
            lo <= hi <= v@.len(),
        ensures
            *final(self) == old(self).with_entry(v@.subrange(lo as int, hi as int), now),
    {
        let (a, b) = trim_in(v, lo, hi);
        let ghost g = v@.subrange(a as int, b as int);
        assert(g == trim(v@.subrange(lo as int, hi as int)));
        let p = find_in(v, a, b, ':');
        if p == b {
            return;
        }
        assert(g.subrange(0, p - a) =~= v@.subrange(a as int, p as int));
        let secs = match parse_seconds(v, a, p) {
            Some(x) => x,
            None => return,
        };
        let t = now.saturating_add(secs);
        let ghost rest = g.subrange(p - a + 1, g.len() as int);
        assert(rest =~= v@.subrange(p + 1, b as int));
        let r0 = p + 1;
        let q = find_in(v, r0, b, ':');
        assert(rest.subrange(0, q - r0) =~= v@.subrange(r0 as int, q as int));
        if q == r0 {
            self.set_reset(RateLimitingCategory::Any, t);
        }
        self.apply_categories(v, r0, q, t);
    }

    /// Merges a rate-limit header received at `now`: for each entry
    /// `seconds:categories[:scope...]`, each named category (every category,
    /// where the list is empty) is limited until `now + seconds`.
    pub fn update_from_sentry_header(&mut self, header: &str, now: u64)
        ensures
            *final(self) == old(self).with_header(header@, now),
    {
        let v = chars_of(header);
        let hi = v.len();
        let ghost target = self.with_header(v@, now);
        assert(v@.subrange(0, hi as int) =~= v@);
        let mut pos: usize = 0;
        loop
            invariant
                pos <= hi == v@.len(),
                v@ == header@,
                target == old(self).with_header(header@, now),
                target == self.with_header(v@.subrange(pos as int, hi as int), now),
            decreases hi - pos,
        {
            let k = find_in(v.as_slice(), pos, hi, ',');
            let ghost h = v@.subrange(pos as int, hi as int);
            assert(h.subrange(0, k - pos) =~= v@.subrange(pos as int, k as int));
            let ghost prev = *self;
            self.apply_entry(v.as_slice(), pos, k, now);
            assert(prev.with_header(h, now) == if k < hi {
                self.with_header(h.subrange(k - pos + 1, h.len() as int), now)
            } else {
                *self
            });
            if k == hi {
                return;
            }
            assert(h.subrange(k - pos + 1, h.len() as int) =~= v@.subrange(k + 1, hi as int));
            pos = k + 1;
        }
    }
    /// The state after applying `u` at `now`.
    pub open spec fn after(self, u: RateLimitUpdateView, now: u64) -> RateLimiter {
        match u {
            RateLimitUpdateView::SentryHeader(h) => self.with_header(h, now),
            RateLimitUpdateView::RetryAfter(v) => self.with_reset(
                RateLimitingCategory::Any,
                retry_after_reset(v, now),
            ),
            RateLimitUpdateView::TooManyRequests => self.with_reset(
                RateLimitingCategory::Any,
                reset_time(now, DEFAULT_RETRY_AFTER_SECS as nat),
            ),
            RateLimitUpdateView::Unchanged => self,
        }
    }

    /// Limits every category until the instant that the `retry-after` value
    /// received at `now` gives.
    pub fn update_from_retry_after(&mut self, value: &str, now: u64)
        ensures
            *final(self) == old(self).with_reset(
                RateLimitingCategory::Any,
                retry_after_reset(value@, now),
            ),
    {
        let v = chars_of(value);
        let (a, b) = trim_in(v.as_slice(), 0, v.len());
        assert(v@.subrange(0, v@.len() as int) =~= v@);
        let t = match parse_seconds(v.as_slice(), a, b) {
            Some(secs) => now.saturating_add(secs),
            None => {
                let date = vstd::slice::slice_subrange(v.as_slice(), a, b);
                match parse_http_date(date) {
                    Some(t) => t,
                    None => now.saturating_add(DEFAULT_RETRY_AFTER_SECS),
                }
            },
        };
        self.set_reset(RateLimitingCategory::Any, t);
    }

    /// Limits every category for the default delay after a bare status 429
    /// received at `now`.
    pub fn update_from_429(&mut self, now: u64)
        ensures
            *final(self) == old(self).with_reset(
                RateLimitingCategory::Any,
                reset_time(now, DEFAULT_RETRY_AFTER_SECS as nat),
            ),
    {
        self.set_reset(RateLimitingCategory::Any, now.saturating_add(DEFAULT_RETRY_AFTER_SECS));
    }

    /// Records what `update` asks, received at `now`.
    pub fn apply_update(&mut self, update: &RateLimitUpdate, now: u64)
        ensures
            *final(self) == old(self).after(update@, now),
    {
        match update {
            RateLimitUpdate::SentryHeader(h) => self.update_from_sentry_header(h.as_str(), now),
            RateLimitUpdate::RetryAfter(h) => self.update_from_retry_after(h.as_str(), now),
            RateLimitUpdate::TooManyRequests => self.update_from_429(now),
            RateLimitUpdate::Unchanged => {},
        }
    }

    /// Records a response received at `now` with `status` and the two optional
    /// headers, by the precedence of `classify_response`.
    pub fn update_from_response(
        &mut self,
        status: u16,
        rate_limits: Option<String>,
        retry_after: Option<String>,
        now: u64,
    )
        ensures
            *final(self) == old(self).after(
                update_for(status, opt_view(rate_limits), opt_view(retry_after)),
                now,
            ),
    {
        let u = classify_response(status, rate_limits, retry_after);
        self.apply_update(&u, now);
    }
}

/// A structured rate-limit header decides alone: while it is present, neither
/// `retry-after` nor the status changes what is recorded; and `retry-after`,
/// when present, decides over the status.
pub proof fn lemma_update_precedence(
    limits: RateLimiter,
    status: u16,
    rate_limits: Seq<char>,
    retry_after: Seq<char>,
    other: Option<Seq<char>>,
    now: u64,
)
    ensures
        limits.after(update_for(status, Some(rate_limits), other), now) == limits.with_header(
            rate_limits,
            now,
        ),
        limits.after(update_for(status, None, Some(retry_after)), now) == limits.with_reset(
            RateLimitingCategory::Any,
            retry_after_reset(retry_after, now),
        ),
{
}

} // verus!
