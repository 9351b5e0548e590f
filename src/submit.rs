use vstd::prelude::*;

verus! {

/// What one attempt to send and confirm a transaction came back with.
pub enum SendOutcome {
    /// Confirmed, with the transaction's signature.
    Confirmed(String),
    /// The transport or the RPC layer failed.
    Network,
    /// The node no longer knows the transaction's blockhash.
    BlockhashNotFound,
    /// The node has already processed this transaction.
    AlreadyProcessed,
    /// Preflight simulation rejected the transaction, with the simulated log.
    PreflightFailure(Vec<String>),
    /// Any other failure, with its description.
    Other(String),
}

/// Why a submission ended without a confirmed transaction.
pub enum SubmitError {
    /// Preflight simulation rejected the transaction: retrying cannot help.
    Preflight(Vec<String>),
    /// The node rejected the transaction for another reason.
    Rejected(String),
    /// Every retry allowed was spent on transient failures.
    RetriesExhausted,
}

/// What the caller does next.
pub enum SubmitAction {
    /// Stop: the transaction is confirmed under this signature.
    Done(String),
    /// Refresh the blockhash (a failed refresh is ignored), wait for the backoff delay, and send
    /// again.
    Retry,
    /// Stop with this error.
    Fail(SubmitError),
}

/// The retry discipline of one submission: how many retries were spent and how many are allowed.
pub struct SubmissionDriver {
    pub retries: u32,
    pub max_retries: u32,
}

pub open spec fn is_transient(o: SendOutcome) -> bool {
    o is Network || o is BlockhashNotFound || o is AlreadyProcessed
}

/// The retries spent after an attempt: one more for a transient failure while retries remain.
pub open spec fn next_retries(retries: nat, max: nat, o: SendOutcome) -> nat {
    if is_transient(o) && retries < max {
        retries + 1
    } else {
        retries
    }
}

impl SubmissionDriver {
    pub open spec fn wf(&self) -> bool {
        self.retries <= self.max_retries
    }

    /// A driver that has spent no retry yet.
    pub fn new(max_retries: u32) -> (r: SubmissionDriver)
        ensures
            r.retries == 0,
            r.max_retries == max_retries,
            r.wf(),
    {
        SubmissionDriver { retries: 0, max_retries }
    }

    /// Decides on one attempt's outcome. A confirmation ends the submission; a transient failure
    /// is retried while retries remain and ends it otherwise; a preflight rejection or any other
    /// failure ends it at once, with no retry spent.
    pub fn on_outcome(&mut self, outcome: SendOutcome) -> (a: SubmitAction)
        requires
            old(self).wf(),
        ensures
            final(self).wf(),
            final(self).max_retries == old(self).max_retries,
            final(self).retries == next_retries(
                old(self).retries as nat,
                old(self).max_retries as nat,
                outcome,
            ),
            is_transient(outcome) && old(self).retries < old(self).max_retries ==> a is Retry
                && final(self).retries == old(self).retries + 1,
            !(is_transient(outcome) && old(self).retries < old(self).max_retries)
                ==> final(self).retries == old(self).retries,
            is_transient(outcome) && old(self).retries == old(self).max_retries ==> a matches SubmitAction::Fail(
                SubmitError::RetriesExhausted,
            ),
            match outcome {
                SendOutcome::Confirmed(sig) => a matches SubmitAction::Done(s) && s@ == sig@,
                SendOutcome::PreflightFailure(logs) => a matches SubmitAction::Fail(
                    SubmitError::Preflight(l),
                ) && l@ == logs@,
                SendOutcome::Other(msg) => a matches SubmitAction::Fail(SubmitError::Rejected(m))
                    && m@ == msg@,
                _ => true,
            },
    {
        match outcome {
            SendOutcome::Confirmed(sig) => SubmitAction::Done(sig),
            SendOutcome::PreflightFailure(logs) => SubmitAction::Fail(SubmitError::Preflight(logs)),
            SendOutcome::Other(msg) => SubmitAction::Fail(SubmitError::Rejected(msg)),
            _ => {
                if self.retries < self.max_retries {
                    self.retries = self.retries + 1;
                    SubmitAction::Retry
                } else {
                    SubmitAction::Fail(SubmitError::RetriesExhausted)
                }
            },
        }
    }
}

/// The retries spent by a driver that starts with none and meets `n` transient failures in
/// a row, as `on_outcome` counts them.
pub open spec fn retries_after_transients(max: nat, n: nat) -> nat
    decreases n,
{
    if n == 0 {
        0
    } else {
        next_retries(retries_after_transients(max, (n - 1) as nat), max, SendOutcome::Network)
    }
}

/// A run of transient failures is retried until the budget is spent and no further: after
/// `n` of them a fresh driver has retried `min(n, max)` times, so the failure after the last
/// allowed retry ends the submission.
pub proof fn lemma_retry_budget(max: nat, n: nat)
    ensures
        retries_after_transients(max, n) == if n < max {
            n
        } else {
            max
        },
    decreases n,
{
    if n > 0 {
        lemma_retry_budget(max, (n - 1) as nat);
    }
}

/// The text that reports a preflight rejection: a heading, then each simulated log line on a
/// line of its own after a tab.
pub open spec fn report_of(logs: Seq<Seq<char>>) -> Seq<char>
    decreases logs.len(),
{
    if logs.len() == 0 {
        seq!['S', 'i', 'm', 'u', 'l', 'a', 't', 'i', 'o', 'n', ' ', 'e', 'r', 'r', 'o', 'r', ' ', 'l', 'o', 'g', 's', ':']
    } else {
        report_of(logs.drop_last()) + seq!['\t'] + logs.last() + seq!['\n']
    }
}

/// Writes the report of a preflight rejection.
pub fn simulation_report(logs: &Vec<String>) -> (r: String)
    ensures
        r@ == report_of(logs@.map_values(|s: String| s@)),
{
    let ghost model = logs@.map_values(|s: String| s@);
    let mut r = String::from_str("Simulation error logs:");
    proof {
        reveal_strlit("Simulation error logs:");
        assert(r@ =~= report_of(model.take(0)));
    }
    let mut i: usize = 0;
    while i < logs.len()
        invariant
            i <= logs@.len(),
            model == logs@.map_values(|s: String| s@),
            r@ == report_of(model.take(i as int)),
        decreases logs@.len() - i,
    {
        r.append("\t");
        r.append(logs[i].as_str());
        r.append("\n");
        proof {
            reveal_strlit("\t");
            reveal_strlit("\n");
            assert(model.take(i + 1).drop_last() =~= model.take(i as int));
            assert(r@ =~= report_of(model.take(i + 1)));
        }
        i += 1;
    }
    assert(model.take(logs@.len() as int) =~= model);
    r
}

} // verus!
