//! Polling a container's health endpoint before traffic is switched to it.
//!
//! A poll is a machine: it says when to wait and what to probe, takes each
//! outcome, and ends with a verdict. Redirects are not followed, so the status
//! that counts is that of the first response.

use crate::config::{Duplicate, HealthConfig, StatusExpectation};
use crate::error::HealthError;
use crate::text::{decimal, decimal_text};
use crate::time::Duration;
use vstd::prelude::*;
use vstd::string::*;

verus! {

/// Whether a status counts as healthy; without an expectation every code from
/// 200 to 399 does.
pub open spec fn counts_as_healthy(status: u16, expected: Option<StatusExpectation>) -> bool {
    match expected {
        Some(e) => e.admits(status),
        None => 200 <= status <= 399,
    }
}

/// Tests a status.
pub fn status_matches(status: u16, expected: &Option<StatusExpectation>) -> (r: bool)
    ensures
        r == counts_as_healthy(status, *expected),
{
    match expected {
        Some(e) => e.accepts(status),
        None => {
            let e = StatusExpectation::default();
            assert(e.ranges@[0] == (200u16, 399u16));
            e.accepts(status)
        },
    }
}

/// The notation of an expectation.
pub open spec fn expectation_text(expected: Option<StatusExpectation>) -> Seq<char> {
    match expected {
        Some(e) => e.notation@,
        None => "200-399"@,
    }
}

/// What is to be done next.
#[derive(Debug)]
pub enum HealthAction {
    Sleep(Duration),
    /// Ask the url, and give up on the answer after the timeout.
    Probe { url: String, timeout: Duration },
    Finish(Result<(), HealthError>),
}

/// A poll under way.
#[derive(Debug)]
pub struct HealthPoll {
    /// What is probed; without it nothing is.
    pub url: Option<String>,
    pub interval: Duration,
    pub timeout: Duration,
    pub retries: u32,
    pub expect_status: Option<StatusExpectation>,
    /// How many probes have been made.
    pub attempts: u32,
    /// The status of the last response.
    pub last_status: Option<u16>,
}

/// Where a container is probed.
pub open spec fn probe_url(port: u16, path: Seq<char>) -> Seq<char> {
    "http://127.0.0.1:"@ + decimal(port as nat) + path
}

impl HealthPoll {
    /// Whether a poll ends with the failure that its probes amount to: an
    /// unexpected status if any response came, else no response.
    pub open spec fn fails_with(self, e: HealthError) -> bool {
        match (self.last_status, e) {
            (Some(status), HealthError::UnexpectedStatus { expected, actual, url, attempts }) => {
                &&& expected@ == expectation_text(self.expect_status)
                &&& actual == status
                &&& Some(url@) == crate::text::opt_text(self.url)
                &&& attempts == self.retries
            },
            (None, HealthError::Unhealthy { retries, url }) => {
                &&& retries == self.retries
                &&& Some(url@) == crate::text::opt_text(self.url)
            },
            _ => false,
        }
    }

    /// What follows a wait: a probe, or the end.
    pub open spec fn goes_on(self, action: HealthAction) -> bool {
        match self.url {
            None => action == HealthAction::Finish(Ok(())),
            Some(u) => if self.attempts < self.retries {
                action matches HealthAction::Probe { url, timeout } && url@ == u@ && timeout == self.timeout
            } else {
                action matches HealthAction::Finish(Err(e)) && self.fails_with(e)
            },
        }
    }

    /// Begins a poll with the wait that lets the container start.
    pub fn begin(host_port: u16, config: &HealthConfig) -> (r: (HealthPoll, HealthAction))
        ensures
            crate::text::opt_text(r.0.url) == (match config.path {
                Some(p) => Some(probe_url(host_port, p@)),
                None => None,
            }),
            r.0.interval == config.interval,
            r.0.timeout == config.timeout,
            r.0.retries == config.retries,
            crate::config::alike_expectation(r.0.expect_status, config.expect_status),
            r.0.attempts == 0,
            r.0.last_status is None,
            r.1 == HealthAction::Sleep(config.start_period),
    {
        let url: Option<String> = match &config.path {
            Some(p) => Some(
                "http://127.0.0.1:".to_owned().concat(decimal_text(host_port as u64).as_str()).concat(p.as_str()),
            ),
            None => None,
        };
        let poll = HealthPoll {
            url,
            interval: config.interval,
            timeout: config.timeout,
            retries: config.retries,
            expect_status: match &config.expect_status {
                Some(e) => Some(e.duplicate()),
                None => None,
            },
            attempts: 0,
            last_status: None,
        };
        (poll, HealthAction::Sleep(config.start_period))
    }

    fn failure(&self) -> (e: HealthError)
        requires
            self.url is Some,
        ensures
            self.fails_with(e),
    {
        let url: String = match &self.url {
            Some(u) => u.clone(),
            None => String::new(),
        };
        match self.last_status {
            Some(actual) => HealthError::UnexpectedStatus {
                expected: match &self.expect_status {
                    Some(e) => e.canonical(),
                    None => StatusExpectation::default().canonical(),
                },
                actual,
                url,
                attempts: self.retries,
            },
            None => HealthError::Unhealthy { retries: self.retries, url },
        }
    }

    /// A wait is over.
    pub fn slept(&self) -> (action: HealthAction)
        ensures
            self.goes_on(action),
    {
        match &self.url {
            None => HealthAction::Finish(Ok(())),
            Some(u) => if self.attempts < self.retries {
                HealthAction::Probe { url: u.clone(), timeout: self.timeout }
            } else {
                HealthAction::Finish(Err(self.failure()))
            },
        }
    }

    /// What a probe leads to: the end if the status is healthy or it was the
    /// last probe, else a wait.
    pub open spec fn probed_to(self, status: Option<u16>, post: HealthPoll, action: HealthAction) -> bool {
        let last = match status {
            Some(s) => Some(s),
            None => self.last_status,
        };
        if status is Some && counts_as_healthy(status->0, self.expect_status) {
            &&& post == (HealthPoll { attempts: (self.attempts + 1) as u32, last_status: last, ..self })
            &&& action == HealthAction::Finish(Ok(()))
        } else {
            &&& post == (HealthPoll { attempts: (self.attempts + 1) as u32, last_status: last, ..self })
            &&& if post.attempts < post.retries {
                action == HealthAction::Sleep(self.interval)
            } else {
                action matches HealthAction::Finish(Err(e)) && post.fails_with(e)
            }
        }
    }

    /// A probe is over; `status` is that of the response, if one came in time.
    pub fn probed(&mut self, status: Option<u16>) -> (action: HealthAction)
        requires
            old(self).url is Some,
            old(self).attempts < old(self).retries,
        ensures
            old(self).probed_to(status, *final(self), action),
    {
        self.attempts = self.attempts + 1;
        match status {
            Some(s) => {
                self.last_status = Some(s);
                if status_matches(s, &self.expect_status) {
                    return HealthAction::Finish(Ok(()));
                }
            },
            None => {},
        }
        if self.attempts < self.retries {
            HealthAction::Sleep(self.interval)
        } else {
            HealthAction::Finish(Err(self.failure()))
        }
    }
}

// ── The verdict over all probes ─────────────────────────────────────────────

/// What probes come to.
pub ghost enum Verdict {
    Pending,
    Healthy,
    /// The last status that was seen, if any.
    Failed(Option<u16>),
}

/// The last status among outcomes.
pub open spec fn last_seen(outcomes: Seq<Option<u16>>) -> Option<u16>
    decreases outcomes.len(),
{
    if outcomes.len() == 0 {
        None
    } else if outcomes.last() is Some {
        outcomes.last()
    } else {
        last_seen(outcomes.drop_last())
    }
}

/// Whether an outcome is a healthy status.
pub open spec fn is_healthy(o: Option<u16>, expected: Option<StatusExpectation>) -> bool {
    o is Some && counts_as_healthy(o->0, expected)
}

/// Whether some outcome is a healthy status.
pub open spec fn any_healthy(outcomes: Seq<Option<u16>>, expected: Option<StatusExpectation>) -> bool {
    exists|i: int| 0 <= i < outcomes.len() && is_healthy(#[trigger] outcomes[i], expected)
}

/// The verdict over the outcomes so far: healthy as soon as one is, failed
/// when the probes are used up without.
pub open spec fn verdict(
    outcomes: Seq<Option<u16>>,
    retries: nat,
    expected: Option<StatusExpectation>,
) -> Verdict {
    if any_healthy(outcomes, expected) {
        Verdict::Healthy
    } else if outcomes.len() >= retries {
        Verdict::Failed(last_seen(outcomes))
    } else {
        Verdict::Pending
    }
}

/// Whether a poll has seen outcomes, none of them healthy.
pub open spec fn has_seen(p: HealthPoll, outcomes: Seq<Option<u16>>) -> bool {
    &&& p.url is Some
    &&& p.attempts == outcomes.len()
    &&& p.last_status == last_seen(outcomes)
    &&& !any_healthy(outcomes, p.expect_status)
}

/// A poll follows the verdict over everything it has seen: after each probe it
/// ends as healthy, ends as failed with the last status seen, or waits and has
/// seen one outcome more.
pub proof fn poll_follows_the_verdict(
    pre: HealthPoll,
    outcomes: Seq<Option<u16>>,
    status: Option<u16>,
    post: HealthPoll,
    action: HealthAction,
)
    requires
        has_seen(pre, outcomes),
        pre.attempts < pre.retries,
        pre.probed_to(status, post, action),
    ensures
        match verdict(outcomes.push(status), pre.retries as nat, pre.expect_status) {
            Verdict::Healthy => action == HealthAction::Finish(Ok(())),
            Verdict::Failed(last) => post.last_status == last && (action matches HealthAction::Finish(Err(e))
                && post.fails_with(e)),
            Verdict::Pending => action == HealthAction::Sleep(pre.interval) && has_seen(post, outcomes.push(status)),
        },
{
    let all = outcomes.push(status);
    assert(all.drop_last() =~= outcomes);
    assert(all.last() == status);
    assert(all[outcomes.len() as int] == status);
    if is_healthy(status, pre.expect_status) {
        assert(is_healthy(all[outcomes.len() as int], pre.expect_status));
        assert(any_healthy(all, pre.expect_status));
    } else {
        assert(!any_healthy(all, pre.expect_status)) by {
            if any_healthy(all, pre.expect_status) {
                let i = choose|i: int| 0 <= i < all.len() && is_healthy(#[trigger] all[i], pre.expect_status);
                assert(all[i] == outcomes[i]);
                assert(is_healthy(outcomes[i], pre.expect_status));
            }
        }
    }
}

/// Every status that failed a poll was a response's: a poll that never saw a
/// response is unhealthy, one that saw any has an unexpected status.
pub proof fn failure_names_what_was_seen(p: HealthPoll, outcomes: Seq<Option<u16>>, e: HealthError)
    requires
        has_seen(p, outcomes),
        p.fails_with(e),
    ensures
        e is Unhealthy <==> forall|i: int| 0 <= i < outcomes.len() ==> (#[trigger] outcomes[i]) is None,
{
    seen_iff_some(outcomes);
}

proof fn seen_iff_some(outcomes: Seq<Option<u16>>)
    ensures
        last_seen(outcomes) is None <==> forall|i: int| 0 <= i < outcomes.len() ==> (#[trigger] outcomes[i]) is None,
    decreases outcomes.len(),
{
    if outcomes.len() > 0 {
        let init = outcomes.drop_last();
        seen_iff_some(init);
        assert forall|i: int| 0 <= i < init.len() implies #[trigger] outcomes[i] == init[i] by {}
        if outcomes.last() is None && last_seen(init) is None {
            assert forall|i: int| 0 <= i < outcomes.len() implies (#[trigger] outcomes[i]) is None by {
                if i < init.len() {
                    assert(init[i] is None);
                }
            }
        }
        if forall|i: int| 0 <= i < outcomes.len() ==> (#[trigger] outcomes[i]) is None {
            assert(outcomes[outcomes.len() - 1] is None);
            assert forall|i: int| 0 <= i < init.len() implies (#[trigger] init[i]) is None by {
                assert(outcomes[i] is None);
            }
        }
    }
}

proof fn the_last_response_is_seen(outcomes: Seq<Option<u16>>, i: int)
    requires
        0 <= i < outcomes.len(),
        outcomes[i] is Some,
        forall|j: int| i < j < outcomes.len() ==> (#[trigger] outcomes[j]) is None,
    ensures
        last_seen(outcomes) == outcomes[i],
    decreases outcomes.len(),
{
    if i < outcomes.len() - 1 {
        let init = outcomes.drop_last();
        assert(outcomes[outcomes.len() - 1] is None);
        assert forall|j: int| i < j < init.len() implies (#[trigger] init[j]) is None by {
            assert(outcomes[j] is None);
        }
        the_last_response_is_seen(init, i);
    }
}

/// A poll that failed reports the last response that came, whatever came before
/// it, and how many probes it had.
pub proof fn the_last_response_is_reported(p: HealthPoll, outcomes: Seq<Option<u16>>, i: int, e: HealthError)
    requires
        has_seen(p, outcomes),
        p.fails_with(e),
        0 <= i < outcomes.len(),
        outcomes[i] is Some,
        forall|j: int| i < j < outcomes.len() ==> (#[trigger] outcomes[j]) is None,
    ensures
        e matches HealthError::UnexpectedStatus { actual, attempts, .. } && Some(actual) == outcomes[i] && attempts
            == p.retries,
{
    the_last_response_is_seen(outcomes, i);
}

/// Without an expectation the codes from 200 to 399 are healthy; with one those
/// that lie in any of its ranges, bounds included.
pub proof fn which_codes_are_healthy(e: StatusExpectation, unset: Option<StatusExpectation>, i: int, status: u16)
    requires
        unset is None,
    ensures
        counts_as_healthy(status, unset) <==> 200 <= status < 400,
        0 <= i < e.ranges@.len() && e.ranges@[i].0 <= status <= e.ranges@[i].1 ==> counts_as_healthy(
            status,
            Some(e),
        ),
        (forall|k: int|
            0 <= k < e.ranges@.len() ==> status < (#[trigger] e.ranges@[k]).0 || status > e.ranges@[k].1)
            ==> !counts_as_healthy(status, Some(e)),
{
}

} // verus!
