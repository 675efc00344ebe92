//! Workflow outcomes and the manager that keeps the latest one.

use vstd::prelude::*;

verus! {

/// The cumulative result of a run, as the workflow layer reports it.
#[derive(Debug, PartialEq, Eq)]
pub struct PackagedWorkflowOutcome {
    /// The run that the outcome belongs to.
    pub run_id: String,
    /// Whether the run succeeded.
    pub success: bool,
    /// What the run has to say, if anything.
    pub message: Option<String>,
}

/// What an outcome is: its fields, strings taken as sequences of
/// characters.
pub struct OutcomeView {
    pub run_id: Seq<char>,
    pub success: bool,
    pub message: Option<Seq<char>>,
}

impl View for PackagedWorkflowOutcome {
    type V = OutcomeView;

    open spec fn view(&self) -> OutcomeView {
        OutcomeView {
            run_id: self.run_id@,
            success: self.success,
            message: match self.message {
                Some(m) => Some(m@),
                None => None,
            },
        }
    }
}

impl Clone for PackagedWorkflowOutcome {
    fn clone(&self) -> (r: PackagedWorkflowOutcome)
        ensures
            r@ == self@,
    {
        let message = match &self.message {
            Some(m) => Some(m.clone()),
            None => None,
        };
        PackagedWorkflowOutcome { run_id: self.run_id.clone(), success: self.success, message }
    }
}

impl PackagedWorkflowOutcome {
    /// The outcome of the given run.
    pub fn new(run_id: String, success: bool, message: Option<String>) -> (r:
        PackagedWorkflowOutcome)
        ensures
            r.run_id == run_id,
            r.success == success,
            r.message == message,
    {
        PackagedWorkflowOutcome { run_id, success, message }
    }
}

/// The state that follows a report: the reported outcome, whatever was
/// held before.
pub open spec fn upsert_spec(before: Option<OutcomeView>, outcome: OutcomeView) -> Option<
    OutcomeView,
> {
    Some(outcome)
}

/// Keeps the latest outcome that was reported, or none before the first
/// report.
pub struct StatusManager {
    current: Option<PackagedWorkflowOutcome>,
}

impl View for StatusManager {
    type V = Option<OutcomeView>;

    closed spec fn view(&self) -> Option<OutcomeView> {
        match self.current {
            Some(o) => Some(o@),
            None => None,
        }
    }
}

impl StatusManager {
    /// A manager that holds no outcome.
    pub fn new() -> (r: StatusManager)
        ensures
            r@ is None,
    {
        StatusManager { current: None }
    }

    /// Records a report. The reported outcome takes the place of the one
    /// held before, whole: nothing of the earlier outcome is kept.
    pub fn upsert(&mut self, outcome: &PackagedWorkflowOutcome)
        ensures
            final(self)@ == upsert_spec(old(self)@, outcome@),
    {
        self.current = Some(outcome.clone());
    }

    /// The outcome held now, or `None` before the first report.
    pub fn get_workflow_status(&self) -> (r: Option<&PackagedWorkflowOutcome>)
        ensures
            match r {
                Some(o) => self@ == Some(o@),
                None => self@ is None,
            },
    {
        self.current.as_ref()
    }
}

/// A report made twice leaves what one report leaves, and of two reports
/// the later one stays, with nothing of the earlier one.
pub proof fn lemma_upsert_latest_wins(
    before: Option<OutcomeView>,
    first: OutcomeView,
    second: OutcomeView,
)
    ensures
        upsert_spec(upsert_spec(before, first), first) == upsert_spec(before, first),
        upsert_spec(upsert_spec(before, first), second) == Some(second),
        upsert_spec(before, first) == Some(first),
{
}

} // verus!
