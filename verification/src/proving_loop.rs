//! The decisions of the proving loops. Each loop is a state machine: the caller
//! runs one proving attempt, hands its outcome to the machine, and performs the
//! actions that come back (lines to show, pauses, analytics events) in order.

use vstd::prelude::*;
use crate::digest::md5_digest;
use crate::prover::{client_id, client_seed, error_text, ProverError};
use crate::text::{decimal, ends_with, hex_lower, join, push_decimal, starts_with};

verus! {

/// Attempts per proof in batch mode.
pub const BATCH_MAX_ATTEMPTS: u64 = 5;

/// Attempts per proof in single-node mode.
pub const NODE_MAX_ATTEMPTS: u64 = 3;

/// Seconds to wait after a rate limit.
pub const RATE_LIMIT_WAIT_SECS: u64 = 60;

/// Seconds to wait before another attempt at the same proof.
pub const RETRY_WAIT_SECS: u64 = 2;

/// Seconds to wait after a batch proof failed all its attempts.
pub const FAILED_PROOF_WAIT_SECS: u64 = 10;

/// Seconds to wait after an anonymous batch proof failed.
pub const ANONYMOUS_RETRY_WAIT_SECS: u64 = 5;

/// Seconds between proofs of the single-node anonymous loop.
pub const ANONYMOUS_PAUSE_SECS: u64 = 2;

/// Something a proving loop asks its driver to do.
#[derive(Debug)]
pub enum LoopAction {
    /// Show this line to the operator.
    Say(String),
    /// Wait this many seconds.
    Sleep(u64),
    /// Report a proof iteration with this count to analytics.
    Track(i32),
}

/// A loop action as a mathematical value.
pub enum ActionView {
    Say(Seq<char>),
    Sleep(nat),
    Track(int),
}

impl View for LoopAction {
    type V = ActionView;

    open spec fn view(&self) -> ActionView {
        match self {
            LoopAction::Say(s) => ActionView::Say(s@),
            LoopAction::Sleep(n) => ActionView::Sleep(*n as nat),
            LoopAction::Track(c) => ActionView::Track(*c as int),
        }
    }
}

/// The views of a run of actions.
pub open spec fn action_views(actions: Seq<LoopAction>) -> Seq<ActionView> {
    actions.map_values(|a: LoopAction| a@)
}

/// Where a loop's lines go.
#[derive(Debug)]
pub enum Reporting {
    /// Printed to the console, after the node's prefix and a space.
    Console(String),
    /// Handed to a status callback as they are.
    Status,
}

/// The line shown for `body`.
pub open spec fn shown(reporting: Reporting, body: Seq<char>) -> Seq<char> {
    match reporting {
        Reporting::Console(prefix) => prefix@ + " "@ + body,
        Reporting::Status => body,
    }
}

/// How one authenticated proving attempt ended.
#[derive(Debug)]
pub enum AttemptOutcome {
    Succeeded,
    /// The orchestrator refused for a rate limit, with its message.
    RateLimited(String),
    /// Any other failure, with its description.
    Failed(String),
}

/// The outcome of an attempt from the result of authenticated proving.
pub fn attempt_outcome(result: Result<(), ProverError>) -> (o: AttemptOutcome)
    ensures
        result is Ok <==> o is Succeeded,
        result matches Err(ProverError::RateLimited(m)) ==> (o matches AttemptOutcome::RateLimited(
            t,
        ) && t@ == m@),
        result matches Err(e) ==> (!(e is RateLimited) ==> (o matches AttemptOutcome::Failed(t)
            && t@ == error_text(e))),
{
    match result {
        Ok(()) => AttemptOutcome::Succeeded,
        Err(ProverError::RateLimited(m)) => AttemptOutcome::RateLimited(m),
        Err(e) => AttemptOutcome::Failed(e.message()),
    }
}

/// `✅ Proof #<count> completed successfully`.
pub open spec fn success_text(proof_count: int) -> Seq<char> {
    "✅ Proof #"@ + decimal(proof_count as nat) + " completed successfully"@
}

/// The console line for a rate limit.
pub open spec fn console_rate_limit_text() -> Seq<char> {
    "🚫 Rate limited (429) - waiting 60s before retry"@
}

/// The status line for a rate limit.
pub open spec fn status_rate_limit_text(message: Seq<char>) -> Seq<char> {
    "🚫 Rate limited: "@ + message + " - waiting 60s"@
}

/// The status line for a failed attempt.
pub open spec fn status_attempt_failed_text(attempt: nat, error: Seq<char>) -> Seq<char> {
    "⚠️ Attempt "@ + decimal(attempt) + "/"@ + decimal(BATCH_MAX_ATTEMPTS as nat) + " failed: "@
        + error
}

/// The status line announcing another attempt.
pub open spec fn status_retrying_text() -> Seq<char> {
    "🔄 Retrying in 2s..."@
}

/// The console line for a batch proof that failed all its attempts.
pub open spec fn console_proof_failed_text(proof_count: int, last_error: Seq<char>, retry: int) -> Seq<char> {
    "❌ Proof #"@ + decimal(proof_count as nat) + " failed: "@ + last_error + " (attempt "@ + decimal(
        retry as nat,
    ) + "/∞)"@
}

/// The status line for a batch proof that failed all its attempts.
pub open spec fn status_proof_failed_text(proof_count: int, last_error: Seq<char>, retry: int) -> Seq<char> {
    "❌ Proof #"@ + decimal(proof_count as nat) + " failed: "@ + last_error + " (retry "@ + decimal(
        retry as nat,
    ) + "/∞)"@
}

/// How a status line names a rate-limited attempt.
pub open spec fn status_rate_limited_error() -> Seq<char> {
    "Rate limited"@
}

/// The status line announcing the wait after a failed batch proof.
pub open spec fn status_waiting_text() -> Seq<char> {
    "🔄 Waiting 10s before retry..."@
}

/// The description of the last failed attempt of a proof, as the failed
/// proof's line gives it.
pub open spec fn last_error_text(reporting: Reporting, attempt: nat, outcome: AttemptOutcome) -> Seq<char> {
    match reporting {
        Reporting::Console(_) => match outcome {
            AttemptOutcome::RateLimited(_) => "Rate limited after "@ + decimal(
                BATCH_MAX_ATTEMPTS as nat,
            ) + " attempts"@,
            AttemptOutcome::Failed(e) => "Attempt #"@ + decimal(attempt) + " failed: "@ + e@,
            AttemptOutcome::Succeeded => Seq::empty(),
        },
        Reporting::Status => match outcome {
            AttemptOutcome::RateLimited(_) => status_rate_limited_error(),
            AttemptOutcome::Failed(e) => e@,
            AttemptOutcome::Succeeded => Seq::empty(),
        },
    }
}

/// What a failed attempt produces before the loop decides whether to retry:
/// `last` tells whether it was the proof's last attempt.
pub open spec fn failed_attempt_actions(
    reporting: Reporting,
    attempt: nat,
    outcome: AttemptOutcome,
    last: bool,
) -> Seq<ActionView> {
    match outcome {
        AttemptOutcome::RateLimited(m) => match reporting {
            Reporting::Console(_) => seq![
                ActionView::Say(shown(reporting, console_rate_limit_text())),
                ActionView::Sleep(RATE_LIMIT_WAIT_SECS as nat),
            ],
            Reporting::Status => seq![
                ActionView::Say(status_rate_limit_text(m@)),
                ActionView::Sleep(RATE_LIMIT_WAIT_SECS as nat),
                ActionView::Say(status_attempt_failed_text(attempt, status_rate_limited_error())),
            ],
        },
        AttemptOutcome::Failed(e) => match reporting {
            Reporting::Console(_) => if last {
                Seq::empty()
            } else {
                seq![ActionView::Sleep(RETRY_WAIT_SECS as nat)]
            },
            Reporting::Status => if last {
                seq![ActionView::Say(status_attempt_failed_text(attempt, e@))]
            } else {
                seq![
                    ActionView::Say(status_attempt_failed_text(attempt, e@)),
                    ActionView::Say(status_retrying_text()),
                    ActionView::Sleep(RETRY_WAIT_SECS as nat),
                ]
            },
        },
        AttemptOutcome::Succeeded => Seq::empty(),
    }
}

/// What a batch proof that failed all its attempts produces.
pub open spec fn failed_proof_actions(
    reporting: Reporting,
    proof_count: int,
    retry: int,
    last_error: Seq<char>,
) -> Seq<ActionView> {
    match reporting {
        Reporting::Console(_) => seq![
            ActionView::Say(shown(reporting, console_proof_failed_text(proof_count, last_error, retry))),
            ActionView::Sleep(FAILED_PROOF_WAIT_SECS as nat),
        ],
        Reporting::Status => seq![
            ActionView::Say(status_proof_failed_text(proof_count, last_error, retry)),
            ActionView::Say(status_waiting_text()),
            ActionView::Sleep(FAILED_PROOF_WAIT_SECS as nat),
        ],
    }
}

/// Builds the action that shows `body`.
fn say(reporting: &Reporting, body: String) -> (a: LoopAction)
    ensures
        a@ == ActionView::Say(shown(*reporting, body@)),
{
    match reporting {
        Reporting::Console(prefix) => {
            let mut line = join(prefix.as_str(), " ");
            line.append(body.as_str());
            LoopAction::Say(line)
        },
        Reporting::Status => LoopAction::Say(body),
    }
}

/// `✅ Proof #<count> completed successfully`.
fn success_line(proof_count: i32) -> (s: String)
    requires
        proof_count >= 0,
    ensures
        s@ == success_text(proof_count as int),
{
    let mut s = String::from_str("✅ Proof #");
    push_decimal(&mut s, proof_count as u64);
    s.append(" completed successfully");
    s
}

/// The counters of a proving loop as mathematical values.
pub struct Counters {
    pub proof_count: int,
    pub consecutive_failures: int,
    pub attempt: int,
}

/// The counters of a batch loop after an attempt: a success moves on to the
/// next proof; a failure moves on to the next attempt, or after the last one
/// counts a failed proof and starts the same proof over.
pub open spec fn batch_next(c: Counters, succeeded: bool) -> Counters {
    if succeeded {
        Counters { proof_count: c.proof_count + 1, consecutive_failures: 0, attempt: 1 }
    } else if c.attempt < BATCH_MAX_ATTEMPTS {
        Counters { attempt: c.attempt + 1, ..c }
    } else {
        Counters { consecutive_failures: c.consecutive_failures + 1, attempt: 1, ..c }
    }
}

/// Authenticated proving in batch mode: up to five attempts per proof, and a
/// proof that fails them all is tried again after a pause, without end.
#[derive(Debug)]
pub struct BatchNodeLoop {
    pub reporting: Reporting,
    pub proof_interval: u64,
    /// The number of the proof being made, from 1.
    pub proof_count: i32,
    /// Proofs failed in a row since the last success.
    pub consecutive_failures: i32,
    /// The number of the attempt about to be made, from 1.
    pub attempt: u64,
}

impl BatchNodeLoop {
    /// The loop's counters.
    pub open spec fn counters(&self) -> Counters {
        Counters {
            proof_count: self.proof_count as int,
            consecutive_failures: self.consecutive_failures as int,
            attempt: self.attempt as int,
        }
    }

    /// The counters are in range.
    pub open spec fn wf(&self) -> bool {
        &&& self.proof_count >= 1
        &&& self.consecutive_failures >= 0
        &&& 1 <= self.attempt <= BATCH_MAX_ATTEMPTS
    }

    /// The loop before its first attempt.
    pub fn new(reporting: Reporting, proof_interval: u64) -> (l: BatchNodeLoop)
        ensures
            l.wf(),
            l.reporting == reporting,
            l.proof_interval == proof_interval,
            l.proof_count == 1,
            l.consecutive_failures == 0,
            l.attempt == 1,
    {
        BatchNodeLoop { reporting, proof_interval, proof_count: 1, consecutive_failures: 0, attempt: 1 }
    }

    /// Records how the current attempt ended and returns what to do before
    /// the next attempt.
    pub fn record_attempt(&mut self, outcome: AttemptOutcome) -> (actions: Vec<LoopAction>)
        requires
            old(self).wf(),
            old(self).proof_count < i32::MAX,
            old(self).consecutive_failures < i32::MAX,
        ensures
            final(self).wf(),
            final(self).reporting == old(self).reporting,
            final(self).proof_interval == old(self).proof_interval,
            final(self).counters() == batch_next(old(self).counters(), outcome is Succeeded),
            outcome is Succeeded ==> {
                &&& action_views(actions@) == seq![
                    ActionView::Say(shown(old(self).reporting, success_text(old(self).proof_count as int))),
                    ActionView::Track(old(self).proof_count + 1),
                    ActionView::Sleep(old(self).proof_interval as nat),
                ]
            },
            !(outcome is Succeeded) && old(self).attempt < BATCH_MAX_ATTEMPTS ==> {
                &&& action_views(actions@) == failed_attempt_actions(
                    old(self).reporting,
                    old(self).attempt as nat,
                    outcome,
                    false,
                )
            },
            !(outcome is Succeeded) && old(self).attempt == BATCH_MAX_ATTEMPTS ==> {
                &&& action_views(actions@) == failed_attempt_actions(
                    old(self).reporting,
                    old(self).attempt as nat,
                    outcome,
                    true,
                ) + failed_proof_actions(
                    old(self).reporting,
                    old(self).proof_count as int,
                    old(self).consecutive_failures + 1,
                    last_error_text(old(self).reporting, old(self).attempt as nat, outcome),
                )
            },
    {
        let mut actions: Vec<LoopAction> = Vec::new();
        match outcome {
            AttemptOutcome::Succeeded => {
                actions.push(say(&self.reporting, success_line(self.proof_count)));
                self.consecutive_failures = 0;
                self.proof_count = self.proof_count + 1;
                self.attempt = 1;
                actions.push(LoopAction::Track(self.proof_count));
                actions.push(LoopAction::Sleep(self.proof_interval));
                assert(action_views(actions@) =~= seq![
                    ActionView::Say(shown(old(self).reporting, success_text(old(self).proof_count as int))),
                    ActionView::Track(old(self).proof_count + 1),
                    ActionView::Sleep(old(self).proof_interval as nat),
                ]);
                return actions;
            },
            AttemptOutcome::RateLimited(m) => {
                let attempt = self.attempt;
                let last = attempt == BATCH_MAX_ATTEMPTS;
                match &self.reporting {
                    Reporting::Console(_) => {
                        actions.push(say(&self.reporting, String::from_str("🚫 Rate limited (429) - waiting 60s before retry")));
                    },
                    Reporting::Status => {
                        let mut line = join("🚫 Rate limited: ", m.as_str());
                        line.append(" - waiting 60s");
                        actions.push(LoopAction::Say(line));
                    },
                }
                actions.push(LoopAction::Sleep(RATE_LIMIT_WAIT_SECS));
                if let Reporting::Status = &self.reporting {
                    let mut line = String::from_str("⚠️ Attempt ");
                    push_decimal(&mut line, attempt);
                    line.append("/");
                    push_decimal(&mut line, BATCH_MAX_ATTEMPTS);
                    line.append(" failed: ");
                    line.append("Rate limited");
                    actions.push(LoopAction::Say(line));
                }
                let ghost attempt_actions = action_views(actions@);
                assert(attempt_actions =~= failed_attempt_actions(
                    old(self).reporting,
                    attempt as nat,
                    AttemptOutcome::RateLimited(m),
                    last,
                ));
                if !last {
                    self.attempt = attempt + 1;
                    return actions;
                }
                let last_error = match &self.reporting {
                    Reporting::Console(_) => {
                        let mut t = String::from_str("Rate limited after ");
                        push_decimal(&mut t, BATCH_MAX_ATTEMPTS);
                        t.append(" attempts");
                        t
                    },
                    Reporting::Status => String::from_str("Rate limited"),
                };
                assert(last_error@ == last_error_text(
                    old(self).reporting,
                    attempt as nat,
                    AttemptOutcome::RateLimited(m),
                ));
                self.finish_failed_proof(&mut actions, last_error);
                assert(action_views(actions@) =~= attempt_actions + failed_proof_actions(
                    old(self).reporting,
                    old(self).proof_count as int,
                    old(self).consecutive_failures + 1,
                    last_error_text(old(self).reporting, attempt as nat, AttemptOutcome::RateLimited(m)),
                ));
                return actions;
            },
            AttemptOutcome::Failed(e) => {
                let attempt = self.attempt;
                let last = attempt == BATCH_MAX_ATTEMPTS;
                match &self.reporting {
                    Reporting::Console(_) => {},
                    Reporting::Status => {
                        let mut line = String::from_str("⚠️ Attempt ");
                        push_decimal(&mut line, attempt);
                        line.append("/");
                        push_decimal(&mut line, BATCH_MAX_ATTEMPTS);
                        line.append(" failed: ");
                        line.append(e.as_str());
                        actions.push(LoopAction::Say(line));
                        if !last {
                            actions.push(LoopAction::Say(String::from_str("🔄 Retrying in 2s...")));
                        }
                    },
                }
                if !last {
                    actions.push(LoopAction::Sleep(RETRY_WAIT_SECS));
                }
                let ghost attempt_actions = action_views(actions@);
                assert(attempt_actions =~= failed_attempt_actions(
                    old(self).reporting,
                    attempt as nat,
                    AttemptOutcome::Failed(e),
                    last,
                ));
                if !last {
                    self.attempt = attempt + 1;
                    return actions;
                }
                let ghost error = e;
                let last_error = match &self.reporting {
                    Reporting::Console(_) => {
                        let mut t = String::from_str("Attempt #");
                        push_decimal(&mut t, attempt);
                        t.append(" failed: ");
                        t.append(e.as_str());
                        t
                    },
                    Reporting::Status => e,
                };
                assert(last_error@ == last_error_text(old(self).reporting, attempt as nat, AttemptOutcome::Failed(error)));
                self.finish_failed_proof(&mut actions, last_error);
                assert(action_views(actions@) =~= attempt_actions + failed_proof_actions(
                    old(self).reporting,
                    old(self).proof_count as int,
                    old(self).consecutive_failures + 1,
                    last_error_text(old(self).reporting, attempt as nat, AttemptOutcome::Failed(error)),
                ));
                return actions;
            },
        }
    }

    /// Closes a proof that failed its last attempt: counts the failure, reports
    /// it, and pauses before the same proof is tried again.
    fn finish_failed_proof(&mut self, actions: &mut Vec<LoopAction>, last_error: String)
        requires
            old(self).wf(),
            old(self).consecutive_failures < i32::MAX,
        ensures
            final(self).wf(),
            final(self).reporting == old(self).reporting,
            final(self).proof_interval == old(self).proof_interval,
            final(self).proof_count == old(self).proof_count,
            final(self).consecutive_failures == old(self).consecutive_failures + 1,
            final(self).attempt == 1,
            action_views(final(actions)@) == action_views(old(actions)@) + failed_proof_actions(
                old(self).reporting,
                old(self).proof_count as int,
                old(self).consecutive_failures + 1,
                last_error@,
            ),
    {
        let ghost before = old(actions)@;
        self.consecutive_failures = self.consecutive_failures + 1;
        self.attempt = 1;
        let pc = self.proof_count as u64;
        let retry = self.consecutive_failures as u64;
        match &self.reporting {
            Reporting::Console(_) => {
                let mut body = String::from_str("❌ Proof #");
                push_decimal(&mut body, pc);
                body.append(" failed: ");
                body.append(last_error.as_str());
                body.append(" (attempt ");
                push_decimal(&mut body, retry);
                body.append("/∞)");
                actions.push(say(&self.reporting, body));
            },
            Reporting::Status => {
                let mut line = String::from_str("❌ Proof #");
                push_decimal(&mut line, pc);
                line.append(" failed: ");
                line.append(last_error.as_str());
                line.append(" (retry ");
                push_decimal(&mut line, retry);
                line.append("/∞)");
                actions.push(LoopAction::Say(line));
                actions.push(LoopAction::Say(String::from_str("🔄 Waiting 10s before retry...")));
            },
        }
        actions.push(LoopAction::Sleep(FAILED_PROOF_WAIT_SECS));
        assert(action_views(actions@) =~= action_views(before) + failed_proof_actions(
            old(self).reporting,
            old(self).proof_count as int,
            old(self).consecutive_failures + 1,
            last_error@,
        ));
    }
}

/// The status line announcing the wait after a failed anonymous proof.
pub open spec fn anonymous_waiting_text() -> Seq<char> {
    "🔄 Waiting 5s before retry..."@
}

/// The line for a failed anonymous batch proof.
pub open spec fn anonymous_failed_text(
    reporting: Reporting,
    proof_count: int,
    retry: int,
    error: Seq<char>,
) -> Seq<char> {
    match reporting {
        Reporting::Console(_) => shown(
            reporting,
            "❌ Proof #"@ + decimal(proof_count as nat) + " failed (attempt "@ + decimal(
                retry as nat,
            ) + "/∞): "@ + error,
        ),
        Reporting::Status => "❌ Proof #"@ + decimal(proof_count as nat) + " failed: "@ + error
            + " (retry "@ + decimal(retry as nat) + "/∞)"@,
    }
}

/// The counters of an anonymous batch loop after a proof: a success moves on
/// to the next proof, a failure counts and the same proof is tried again.
pub open spec fn anonymous_next(c: Counters, succeeded: bool) -> Counters {
    if succeeded {
        Counters { proof_count: c.proof_count + 1, consecutive_failures: 0, ..c }
    } else {
        Counters { consecutive_failures: c.consecutive_failures + 1, ..c }
    }
}

/// Anonymous proving in batch mode: a failed proof is tried again after a
/// pause, without end.
#[derive(Debug)]
pub struct BatchAnonymousLoop {
    pub reporting: Reporting,
    pub proof_interval: u64,
    /// The number of the proof being made, from 1.
    pub proof_count: i32,
    /// Proofs failed in a row since the last success.
    pub consecutive_failures: i32,
}

impl BatchAnonymousLoop {
    /// The loop's counters (its attempt is always the first).
    pub open spec fn counters(&self) -> Counters {
        Counters {
            proof_count: self.proof_count as int,
            consecutive_failures: self.consecutive_failures as int,
            attempt: 1,
        }
    }

    /// The counters are in range.
    pub open spec fn wf(&self) -> bool {
        self.proof_count >= 1 && self.consecutive_failures >= 0
    }

    /// The loop before its first proof.
    pub fn new(reporting: Reporting, proof_interval: u64) -> (l: BatchAnonymousLoop)
        ensures
            l.wf(),
            l.reporting == reporting,
            l.proof_interval == proof_interval,
            l.proof_count == 1,
            l.consecutive_failures == 0,
    {
        BatchAnonymousLoop { reporting, proof_interval, proof_count: 1, consecutive_failures: 0 }
    }

    /// Records how the current proof ended (`failure` holds the error's
    /// description) and returns what to do before the next one.
    pub fn record_proof(&mut self, failure: Option<String>) -> (actions: Vec<LoopAction>)
        requires
            old(self).wf(),
            old(self).proof_count < i32::MAX,
            old(self).consecutive_failures < i32::MAX,
        ensures
            final(self).wf(),
            final(self).reporting == old(self).reporting,
            final(self).proof_interval == old(self).proof_interval,
            final(self).counters() == anonymous_next(old(self).counters(), failure is None),
            failure is None ==> action_views(actions@) == seq![
                ActionView::Say(shown(old(self).reporting, success_text(old(self).proof_count as int))),
                ActionView::Track(old(self).proof_count as int),
                ActionView::Sleep(old(self).proof_interval as nat),
            ],
            failure matches Some(e) ==> action_views(actions@) == (match old(self).reporting {
                Reporting::Console(_) => seq![
                    ActionView::Say(anonymous_failed_text(
                        old(self).reporting,
                        old(self).proof_count as int,
                        old(self).consecutive_failures + 1,
                        e@,
                    )),
                    ActionView::Sleep(ANONYMOUS_RETRY_WAIT_SECS as nat),
                ],
                Reporting::Status => seq![
                    ActionView::Say(anonymous_failed_text(
                        old(self).reporting,
                        old(self).proof_count as int,
                        old(self).consecutive_failures + 1,
                        e@,
                    )),
                    ActionView::Say(anonymous_waiting_text()),
                    ActionView::Sleep(ANONYMOUS_RETRY_WAIT_SECS as nat),
                ],
            }),
    {
        let mut actions: Vec<LoopAction> = Vec::new();
        match failure {
            None => {
                actions.push(say(&self.reporting, success_line(self.proof_count)));
                actions.push(LoopAction::Track(self.proof_count));
                actions.push(LoopAction::Sleep(self.proof_interval));
                self.consecutive_failures = 0;
                self.proof_count = self.proof_count + 1;
                assert(action_views(actions@) =~= seq![
                    ActionView::Say(shown(old(self).reporting, success_text(old(self).proof_count as int))),
                    ActionView::Track(old(self).proof_count as int),
                    ActionView::Sleep(old(self).proof_interval as nat),
                ]);
            },
            Some(e) => {
                self.consecutive_failures = self.consecutive_failures + 1;
                let pc = self.proof_count as u64;
                let retry = self.consecutive_failures as u64;
                match &self.reporting {
                    Reporting::Console(_) => {
                        let mut body = String::from_str("❌ Proof #");
                        push_decimal(&mut body, pc);
                        body.append(" failed (attempt ");
                        push_decimal(&mut body, retry);
                        body.append("/∞): ");
                        body.append(e.as_str());
                        actions.push(say(&self.reporting, body));
                    },
                    Reporting::Status => {
                        let mut line = String::from_str("❌ Proof #");
                        push_decimal(&mut line, pc);
                        line.append(" failed: ");
                        line.append(e.as_str());
                        line.append(" (retry ");
                        push_decimal(&mut line, retry);
                        line.append("/∞)");
                        actions.push(LoopAction::Say(line));
                        actions.push(LoopAction::Say(String::from_str("🔄 Waiting 5s before retry...")));
                    },
                }
                actions.push(LoopAction::Sleep(ANONYMOUS_RETRY_WAIT_SECS));
                assert(action_views(actions@) =~= (match old(self).reporting {
                    Reporting::Console(_) => seq![
                        ActionView::Say(anonymous_failed_text(
                            old(self).reporting,
                            old(self).proof_count as int,
                            old(self).consecutive_failures + 1,
                            e@,
                        )),
                        ActionView::Sleep(ANONYMOUS_RETRY_WAIT_SECS as nat),
                    ],
                    Reporting::Status => seq![
                        ActionView::Say(anonymous_failed_text(
                            old(self).reporting,
                            old(self).proof_count as int,
                            old(self).consecutive_failures + 1,
                            e@,
                        )),
                        ActionView::Say(anonymous_waiting_text()),
                        ActionView::Sleep(ANONYMOUS_RETRY_WAIT_SECS as nat),
                    ],
                }));
            },
        }
        actions
    }
}

/// The counters of the single-node loop after an attempt: three attempts per
/// proof, after which the loop moves on to the next proof whatever happened.
pub open spec fn node_next(c: Counters, succeeded: bool) -> Counters {
    if succeeded || c.attempt >= NODE_MAX_ATTEMPTS {
        Counters { proof_count: c.proof_count + 1, attempt: 1, ..c }
    } else {
        Counters { attempt: c.attempt + 1, ..c }
    }
}

/// Authenticated proving in single-node mode: up to three attempts per proof,
/// each proof iteration reported to analytics whether it succeeded or not.
#[derive(Debug)]
pub struct NodeLoop {
    /// Proof iterations begun, from 1.
    pub proof_count: i32,
    /// The number of the attempt about to be made, from 1.
    pub attempt: u64,
}

impl NodeLoop {
    /// The loop's counters (it keeps no failure count).
    pub open spec fn counters(&self) -> Counters {
        Counters { proof_count: self.proof_count as int, consecutive_failures: 0, attempt: self.attempt as int }
    }

    /// The counters are in range.
    pub open spec fn wf(&self) -> bool {
        self.proof_count >= 1 && 1 <= self.attempt <= NODE_MAX_ATTEMPTS
    }

    /// The loop before its first attempt.
    pub fn new() -> (l: NodeLoop)
        ensures
            l.wf(),
            l.proof_count == 1,
            l.attempt == 1,
    {
        NodeLoop { proof_count: 1, attempt: 1 }
    }

    /// Records whether the current attempt succeeded and returns what to do
    /// before the next attempt.
    pub fn record_attempt(&mut self, succeeded: bool) -> (actions: Vec<LoopAction>)
        requires
            old(self).wf(),
            old(self).proof_count < i32::MAX,
        ensures
            final(self).wf(),
            final(self).counters() == node_next(old(self).counters(), succeeded),
            succeeded || old(self).attempt == NODE_MAX_ATTEMPTS ==> action_views(actions@) == seq![
                ActionView::Track(old(self).proof_count + 1),
            ],
            !succeeded && old(self).attempt < NODE_MAX_ATTEMPTS ==> action_views(actions@) == seq![
                ActionView::Sleep(RETRY_WAIT_SECS as nat),
            ],
    {
        let mut actions: Vec<LoopAction> = Vec::new();
        if succeeded || self.attempt == NODE_MAX_ATTEMPTS {
            self.proof_count = self.proof_count + 1;
            self.attempt = 1;
            actions.push(LoopAction::Track(self.proof_count));
        } else {
            self.attempt = self.attempt + 1;
            actions.push(LoopAction::Sleep(RETRY_WAIT_SECS));
        }
        assert(action_views(actions@) =~= seq![actions@[0]@]);
        actions
    }
}

/// Anonymous proving in single-node mode: one proof every two seconds, each
/// success reported to analytics.
#[derive(Debug)]
pub struct AnonymousLoop {
    /// The number of the proof being made, from 1.
    pub proof_count: i32,
}

impl AnonymousLoop {
    /// The loop before its first proof.
    pub fn new() -> (l: AnonymousLoop)
        ensures
            l.proof_count == 1,
    {
        AnonymousLoop { proof_count: 1 }
    }

    /// Records whether the current proof succeeded and returns what to do
    /// before the next one.
    pub fn record_proof(&mut self, succeeded: bool) -> (actions: Vec<LoopAction>)
        requires
            1 <= old(self).proof_count < i32::MAX,
        ensures
            final(self).proof_count == old(self).proof_count + 1,
            succeeded ==> action_views(actions@) == seq![
                ActionView::Track(old(self).proof_count as int),
                ActionView::Sleep(ANONYMOUS_PAUSE_SECS as nat),
            ],
            !succeeded ==> action_views(actions@) == seq![
                ActionView::Sleep(ANONYMOUS_PAUSE_SECS as nat),
            ],
    {
        let mut actions: Vec<LoopAction> = Vec::new();
        if succeeded {
            actions.push(LoopAction::Track(self.proof_count));
        }
        actions.push(LoopAction::Sleep(ANONYMOUS_PAUSE_SECS));
        self.proof_count = self.proof_count + 1;
        assert(action_views(actions@) =~= if succeeded {
            seq![ActionView::Track(old(self).proof_count as int), ActionView::Sleep(ANONYMOUS_PAUSE_SECS as nat)]
        } else {
            seq![ActionView::Sleep(ANONYMOUS_PAUSE_SECS as nat)]
        });
        actions
    }
}

/// The line that announces a loop's start.
pub open spec fn start_text(reporting: Reporting, authenticated: bool) -> Seq<char> {
    match reporting {
        Reporting::Console(_) => shown(
            reporting,
            if authenticated {
                "🚀 Started"@
            } else {
                "🚀 Started (anonymous mode)"@
            },
        ),
        Reporting::Status => if authenticated {
            "🚀 Starting authenticated mode"@
        } else {
            "🚀 Starting anonymous mode"@
        },
    }
}

/// The line that announces a batch loop's start.
pub fn start_line(reporting: &Reporting, authenticated: bool) -> (s: String)
    ensures
        s@ == start_text(*reporting, authenticated),
{
    match reporting {
        Reporting::Console(prefix) => {
            let mut s = join(prefix.as_str(), " ");
            if authenticated {
                s.append("🚀 Started");
            } else {
                s.append("🚀 Started (anonymous mode)");
            }
            s
        },
        Reporting::Status => if authenticated {
            String::from_str("🚀 Starting authenticated mode")
        } else {
            String::from_str("🚀 Starting anonymous mode")
        },
    }
}

/// An analytics event for a proof iteration.
#[derive(Debug)]
pub struct ProofEvent {
    pub event_name: String,
    pub description: String,
    /// The node, or `None` for anonymous proving.
    pub node_id: Option<u64>,
    pub proof_count: i32,
    pub client_id: String,
}

/// The analytics event that reports proof iteration `proof_count`.
pub fn proof_event(node_id: Option<u64>, proof_count: i32) -> (ev: ProofEvent)
    requires
        proof_count >= 0,
    ensures
        ev.node_id == node_id,
        ev.proof_count == proof_count,
        ev.client_id@ == hex_lower(md5_digest(client_seed(node_id))),
        node_id is Some ==> ev.event_name@ == "cli_proof_node_v2"@ && ev.description@
            == "Completed proof iteration #"@ + decimal(proof_count as nat),
        node_id is None ==> ev.event_name@ == "cli_proof_anon_v2"@ && ev.description@
            == "Completed anon proof iteration #"@ + decimal(proof_count as nat),
{
    let (event_name, mut description) = match node_id {
        Some(_) => (String::from_str("cli_proof_node_v2"), String::from_str("Completed proof iteration #")),
        None => (String::from_str("cli_proof_anon_v2"), String::from_str("Completed anon proof iteration #")),
    };
    push_decimal(&mut description, proof_count as u64);
    ProofEvent { event_name, description, node_id, proof_count, client_id: client_id(node_id) }
}

/// The number of successes in a history of outcomes.
pub open spec fn successes(history: Seq<bool>) -> nat
    decreases history.len(),
{
    if history.len() == 0 {
        0
    } else {
        successes(history.drop_last()) + if history.last() {
            1nat
        } else {
            0nat
        }
    }
}

/// The number of failures since the last success of a history.
pub open spec fn failures_since_success(history: Seq<bool>) -> nat
    decreases history.len(),
{
    if history.len() == 0 || history.last() {
        0
    } else {
        failures_since_success(history.drop_last()) + 1
    }
}

/// The counters of a new loop.
pub open spec fn initial_counters() -> Counters {
    Counters { proof_count: 1, consecutive_failures: 0, attempt: 1 }
}

/// The counters of a batch loop after a history of attempt outcomes.
pub open spec fn batch_after(history: Seq<bool>) -> Counters
    decreases history.len(),
{
    if history.len() == 0 {
        initial_counters()
    } else {
        batch_next(batch_after(history.drop_last()), history.last())
    }
}

/// The counters of an anonymous batch loop after a history of proof outcomes.
pub open spec fn anonymous_after(history: Seq<bool>) -> Counters
    decreases history.len(),
{
    if history.len() == 0 {
        initial_counters()
    } else {
        anonymous_next(anonymous_after(history.drop_last()), history.last())
    }
}

/// In batch mode the proof number only moves on with a success, and failures
/// never stop the loop: after any history of attempts, the proof number is one
/// more than the successes, and the `f` failures since the last success have
/// made `f / 5` failed proofs and left the loop at attempt `f % 5 + 1`.
pub proof fn lemma_batch_counters(history: Seq<bool>)
    ensures
        batch_after(history).proof_count == 1 + successes(history),
        batch_after(history).consecutive_failures == failures_since_success(history)
            / (BATCH_MAX_ATTEMPTS as nat),
        batch_after(history).attempt == 1 + failures_since_success(history) % (
        BATCH_MAX_ATTEMPTS as nat),
    decreases history.len(),
{
    if history.len() > 0 {
        let prev = history.drop_last();
        lemma_batch_counters(prev);
        let f = failures_since_success(prev);
        if !history.last() {
            if f % 5 < 4 {
                assert((f + 1) / 5 == f / 5 && (f + 1) % 5 == f % 5 + 1) by (nonlinear_arith)
                    requires
                        f % 5 < 4,
                ;
            } else {
                assert((f + 1) / 5 == f / 5 + 1 && (f + 1) % 5 == 0) by (nonlinear_arith)
                    requires
                        f % 5 == 4,
                ;
            }
        }
    }
}

/// In anonymous batch mode a failed proof is tried again under the same
/// number: after any history, the proof number is one more than the
/// successes, and the failure count is the failures since the last success.
pub proof fn lemma_anonymous_counters(history: Seq<bool>)
    ensures
        anonymous_after(history).proof_count == 1 + successes(history),
        anonymous_after(history).consecutive_failures == failures_since_success(history),
        anonymous_after(history).attempt == 1,
    decreases history.len(),
{
    if history.len() > 0 {
        lemma_anonymous_counters(history.drop_last());
    }
}

/// The counters of the single-node loop after a history of attempt outcomes.
pub open spec fn node_after(history: Seq<bool>) -> Counters
    decreases history.len(),
{
    if history.len() == 0 {
        initial_counters()
    } else {
        node_next(node_after(history.drop_last()), history.last())
    }
}

/// The proofs given up in a history of single-node attempts: one for every
/// third failure in a row since the last success.
pub open spec fn abandoned_proofs(history: Seq<bool>) -> nat
    decreases history.len(),
{
    if history.len() == 0 {
        0
    } else if history.last() {
        abandoned_proofs(history.drop_last())
    } else {
        abandoned_proofs(history.drop_last()) + if failures_since_success(history)
            % (NODE_MAX_ATTEMPTS as nat) == 0 {
            1nat
        } else {
            0nat
        }
    }
}

/// In single-node mode every proof starts at attempt 1 and gets three
/// attempts: after any history, the `f` failures since the last success leave
/// the loop at attempt `f % 3 + 1`, and the proof number is one more than the
/// successes and the proofs given up after three failures in a row.
pub proof fn lemma_node_counters(history: Seq<bool>)
    ensures
        node_after(history).attempt == 1 + failures_since_success(history) % (
        NODE_MAX_ATTEMPTS as nat),
        node_after(history).proof_count == 1 + successes(history) + abandoned_proofs(history),
    decreases history.len(),
{
    if history.len() > 0 {
        let prev = history.drop_last();
        lemma_node_counters(prev);
        let f = failures_since_success(prev);
        if !history.last() {
            if f % 3 < 2 {
                assert((f + 1) % 3 == f % 3 + 1) by (nonlinear_arith)
                    requires
                        f % 3 < 2,
                ;
            } else {
                assert((f + 1) % 3 == 0) by (nonlinear_arith)
                    requires
                        f % 3 == 2,
                ;
            }
        }
    }
}

/// The lines of a batch loop name the proof being made and the failed proofs
/// in a row: after any history, a success is reported for proof `1 +
/// successes`, and when the last attempt of a proof fails, the line that
/// reports it names proof `1 + successes` and ends with the count of failed
/// proofs in a row, `f / 5 + 1` for the `f` failures since the last success.
pub proof fn lemma_batch_lines(reporting: Reporting, history: Seq<bool>, outcome: AttemptOutcome)
    ensures
        ({
            let c = batch_after(history);
            let n = decimal((1 + successes(history)) as nat);
            let retry = decimal(failures_since_success(history) / (BATCH_MAX_ATTEMPTS as nat) + 1);
            let head = match reporting {
                Reporting::Console(prefix) => prefix@ + " "@,
                Reporting::Status => Seq::empty(),
            };
            let tail = match reporting {
                Reporting::Console(_) => " (attempt "@,
                Reporting::Status => " (retry "@,
            };
            let failed = failed_proof_actions(
                reporting,
                c.proof_count,
                c.consecutive_failures + 1,
                last_error_text(reporting, c.attempt as nat, outcome),
            );
            &&& shown(reporting, success_text(c.proof_count)) == head + "✅ Proof #"@ + n
                + " completed successfully"@
            &&& c.attempt == BATCH_MAX_ATTEMPTS ==> (failed[0] matches ActionView::Say(line)
                && starts_with(line, head + "❌ Proof #"@ + n + " failed: "@) && ends_with(
                line,
                tail + retry + "/∞)"@,
            ))
        }),
{
    lemma_batch_counters(history);
    let c = batch_after(history);
    let n = decimal((1 + successes(history)) as nat);
    let retry = decimal(failures_since_success(history) / (BATCH_MAX_ATTEMPTS as nat) + 1);
    assert(c.consecutive_failures + 1 == failures_since_success(history) / (BATCH_MAX_ATTEMPTS as nat) + 1);
    let e = last_error_text(reporting, c.attempt as nat, outcome);
    let head = match reporting {
        Reporting::Console(prefix) => prefix@ + " "@,
        Reporting::Status => Seq::<char>::empty(),
    };
    let tail = match reporting {
        Reporting::Console(_) => " (attempt "@,
        Reporting::Status => " (retry "@,
    };
    let line = match reporting {
        Reporting::Console(_) => shown(reporting, console_proof_failed_text(c.proof_count, e, c.consecutive_failures + 1)),
        Reporting::Status => status_proof_failed_text(c.proof_count, e, c.consecutive_failures + 1),
    };
    let front = head + "❌ Proof #"@ + n + " failed: "@;
    let back = tail + retry + "/∞)"@;
    assert(line =~= front + e + back);
    assert(line.subrange(0, front.len() as int) =~= front);
    assert(line.subrange(line.len() - back.len(), line.len() as int) =~= back);
    assert(shown(reporting, success_text(c.proof_count)) =~= head + "✅ Proof #"@ + n
        + " completed successfully"@);
}

/// The lines of an anonymous batch loop name the proof being made and the
/// failures in a row: after any history, success and failure are reported for
/// proof `1 + successes`, and a failure line gives `f + 1` failures in a row
/// for the `f` failures since the last success, and the error.
pub proof fn lemma_anonymous_lines(reporting: Reporting, history: Seq<bool>, error: Seq<char>)
    ensures
        ({
            let c = anonymous_after(history);
            let n = decimal((1 + successes(history)) as nat);
            let retry = decimal(failures_since_success(history) + 1);
            let line = anonymous_failed_text(reporting, c.proof_count, c.consecutive_failures + 1, error);
            &&& shown(reporting, success_text(c.proof_count)) == match reporting {
                Reporting::Console(prefix) => prefix@ + " "@,
                Reporting::Status => Seq::empty(),
            } + "✅ Proof #"@ + n + " completed successfully"@
            &&& reporting is Status ==> line == "❌ Proof #"@ + n + " failed: "@ + error + " (retry "@
                + retry + "/∞)"@
            &&& reporting matches Reporting::Console(prefix) ==> line == prefix@ + " "@
                + "❌ Proof #"@ + n + " failed (attempt "@ + retry + "/∞): "@ + error
        }),
{
    lemma_anonymous_counters(history);
    let c = anonymous_after(history);
    let n = decimal((1 + successes(history)) as nat);
    let retry = decimal(failures_since_success(history) + 1);
    match reporting {
        Reporting::Console(prefix) => {
            assert(anonymous_failed_text(reporting, c.proof_count, c.consecutive_failures + 1, error)
                =~= prefix@ + " "@ + "❌ Proof #"@ + n + " failed (attempt "@ + retry + "/∞): "@ + error);
            assert(shown(reporting, success_text(c.proof_count)) =~= prefix@ + " "@ + "✅ Proof #"@ + n
                + " completed successfully"@);
        },
        Reporting::Status => {
            assert(shown(reporting, success_text(c.proof_count)) =~= Seq::<char>::empty() + "✅ Proof #"@
                + n + " completed successfully"@);
        },
    }
}

} // verus!
