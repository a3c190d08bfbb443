//! An approval adapter that decides by itself, for tests and local development.

use vstd::prelude::*;
use vstd::string::*;

use crate::governance::approval::types::{
    read_secs_or, secs_or, AdapterError, ApprovalReference, ApprovalRequest, DecisionMethod,
    PollDecision, PollResult,
};
use crate::text::{lower_case, same_text};
use crate::time::{Duration, Timestamp};

verus! {

/// Approval adapter that approves or rejects every request after a delay.
#[derive(Debug, Clone, Copy, PartialEq, Eq, Structural)]
pub struct MockAdapter {
    delay: Duration,
    auto_approve: bool,
    post_count: u32,
    poll_count: u32,
}

/// A count that starts again at zero after the largest number.
pub open spec fn next_count(n: u32) -> u32 {
    if n == u32::MAX {
        0
    } else {
        (n + 1) as u32
    }
}

impl MockAdapter {
    /// The delay before a decision.
    pub closed spec fn waits(self) -> Duration {
        self.delay
    }

    /// Whether requests are approved.
    pub closed spec fn approves(self) -> bool {
        self.auto_approve
    }

    /// The number of requests posted.
    pub closed spec fn posts(self) -> u32 {
        self.post_count
    }

    /// The number of polls.
    pub closed spec fn polls(self) -> u32 {
        self.poll_count
    }

    /// Create a mock adapter.
    pub fn new(delay: Duration, auto_approve: bool) -> (r: Self)
        ensures
            r.waits() == delay,
            r.approves() == auto_approve,
            r.posts() == 0,
            r.polls() == 0,
    {
        MockAdapter { delay, auto_approve, post_count: 0, poll_count: 0 }
    }

    /// Create a mock adapter for the values of environment variables:
    /// `THOUGHTGATE_MOCK_APPROVAL_DELAY_SECS` (5 if not set) and
    /// `THOUGHTGATE_MOCK_AUTO_APPROVE` (anything but `false` approves).
    pub fn from_env(delay_secs: Option<&str>, auto_approve: Option<&str>) -> (r: Self)
        ensures
            r.waits() == secs_or(
                match delay_secs {
                    Some(t) => Some(t@),
                    None => None,
                },
                5,
            ),
            r.approves() == match auto_approve {
                Some(t) => lower_case(t@) != "false"@,
                None => true,
            },
            r.posts() == 0,
            r.polls() == 0,
    {
        let approve = match auto_approve {
            Some(t) => !same_text(t.to_lowercase().as_str(), "false"),
            None => true,
        };
        MockAdapter::new(read_secs_or(delay_secs, 5), approve)
    }

    /// Create a mock adapter that approves at once.
    pub fn instant_approve() -> (r: Self)
        ensures
            r.waits() == (Duration { nanos: 0 }),
            r.approves(),
            r.posts() == 0,
            r.polls() == 0,
    {
        MockAdapter::new(Duration { nanos: 0 }, true)
    }

    /// Create a mock adapter that rejects at once.
    pub fn instant_reject() -> (r: Self)
        ensures
            r.waits() == (Duration { nanos: 0 }),
            !r.approves(),
            r.posts() == 0,
            r.polls() == 0,
    {
        MockAdapter::new(Duration { nanos: 0 }, false)
    }

    /// Get the number of approval requests posted.
    pub fn post_count(&self) -> (r: u32)
        ensures
            r == self.posts(),
    {
        self.post_count
    }

    /// Get the number of polls made.
    pub fn poll_count(&self) -> (r: u32)
        ensures
            r == self.polls(),
    {
        self.poll_count
    }

    /// Set both counts back to zero.
    pub fn reset_counters(&mut self)
        ensures
            final(self).posts() == 0,
            final(self).polls() == 0,
            final(self).waits() == old(self).waits(),
            final(self).approves() == old(self).approves(),
    {
        self.post_count = 0;
        self.poll_count = 0;
    }

    /// Post an approval request: the decision can be polled once the delay has
    /// passed.
    pub fn post_approval_request(&mut self, request: &ApprovalRequest, now: Timestamp) -> (r: Result<
        ApprovalReference,
        AdapterError,
    >)
        ensures
            r is Ok,
            r->Ok_0@ == (ApprovalReference::<Seq<char>> {
                task_id: request.task_id@,
                external_id: "mock_"@ + request.task_id@,
                channel: "mock_channel"@,
                posted_at: now,
                next_poll_at: now.after(old(self).waits()),
                poll_count: 0,
            }),
            final(self).posts() == next_count(old(self).posts()),
            final(self).polls() == old(self).polls(),
            final(self).waits() == old(self).waits(),
            final(self).approves() == old(self).approves(),
    {
        self.post_count = self.post_count.wrapping_add(1);
        Ok(
            ApprovalReference {
                task_id: request.task_id.clone(),
                external_id: "mock_".to_owned().concat(request.task_id.as_str()),
                channel: "mock_channel".to_owned(),
                posted_at: now,
                next_poll_at: now.plus(self.delay),
                poll_count: 0,
            },
        )
    }

    /// Poll for a decision: none before the delay has passed, then the one that
    /// the adapter was made with.
    pub fn poll_for_decision(&mut self, reference: &ApprovalReference, now: Timestamp) -> (r: Result<
        Option<PollResult>,
        AdapterError,
    >)
        ensures
            r is Ok,
            now.nanos < reference.next_poll_at.nanos ==> r->Ok_0 is None,
            now.nanos >= reference.next_poll_at.nanos ==> r->Ok_0 is Some && r->Ok_0->0@ == (
            PollResult::<Seq<char>> {
                decision: if old(self).approves() {
                    PollDecision::Approved
                } else {
                    PollDecision::Rejected
                },
                decided_by: "mock:auto"@,
                decided_at: now,
                method: DecisionMethod::Reaction {
                    emoji: if old(self).approves() {
                        "+1"@
                    } else {
                        "-1"@
                    },
                },
            }),
            final(self).polls() == next_count(old(self).polls()),
            final(self).posts() == old(self).posts(),
            final(self).waits() == old(self).waits(),
            final(self).approves() == old(self).approves(),
    {
        self.poll_count = self.poll_count.wrapping_add(1);
        if now.nanos < reference.next_poll_at.nanos {
            return Ok(None);
        }
        let (decision, emoji) = if self.auto_approve {
            (PollDecision::Approved, "+1".to_owned())
        } else {
            (PollDecision::Rejected, "-1".to_owned())
        };
        Ok(
            Some(
                PollResult {
                    decision,
                    decided_by: "mock:auto".to_owned(),
                    decided_at: now,
                    method: DecisionMethod::Reaction { emoji },
                },
            ),
        )
    }

    /// Cancel a pending approval: there is nothing to do.
    pub fn cancel_approval(&self, reference: &ApprovalReference) -> (r: Result<(), AdapterError>)
        ensures
            r is Ok,
    {
        Ok(())
    }

    /// Returns the adapter name.
    pub fn name(&self) -> (r: &'static str)
        ensures
            r@ == "mock"@,
    {
        "mock"
    }
}

} // verus!
