//! The capability that every sink offers.

use crate::diagnostics::SimpleLogMessage;
use crate::error::EmitError;
use crate::level::VisibilityLevel;
use crate::record::{FieldView, MatchResult};
use crate::workflow::{OutcomeView, PackagedWorkflowOutcome};
use vstd::prelude::*;

verus! {

/// A sink for results, diagnostics and workflow outcomes. Producers hand
/// results to `emit`, which filters them by visibility before the sink
/// renders them.
pub trait Messager: Sized {
    /// The invariant of the sink.
    spec fn wf(&self) -> bool;

    /// The floor below which results are dropped.
    spec fn min_level(&self) -> VisibilityLevel;

    /// The outcome that the sink holds.
    spec fn workflow_status(&self) -> Option<OutcomeView>;

    /// What rendering a result does to the sink: `after` and `r` are a
    /// sink and an answer that `raw_emit` may leave for `before` and the
    /// result.
    spec fn raw_emitted(
        before: Self,
        fields: Seq<FieldView>,
        after: Self,
        r: Result<(), EmitError>,
    ) -> bool;

    /// The floor below which results are dropped.
    fn get_min_level(&self) -> (r: VisibilityLevel)
        ensures
            r == self.min_level(),
    ;

    /// Renders a result, whatever its level.
    fn raw_emit(&mut self, item: &MatchResult) -> (r: Result<(), EmitError>)
        ensures
            old(self).wf() ==> final(self).wf(),
            Self::raw_emitted(*old(self), item@, *final(self), r),
    ;

    /// Hands a result of the given level to the sink. A result below the
    /// floor is dropped: the sink stays as it was and the answer is
    /// success. Any other result is rendered.
    fn emit(&mut self, item: &MatchResult, level: VisibilityLevel) -> (r: Result<(), EmitError>)
        ensures
            old(self).wf() ==> final(self).wf(),
            !old(self).min_level().admits_spec(level) ==> r is Ok && *final(self) == *old(self),
            old(self).min_level().admits_spec(level) ==> Self::raw_emitted(
                *old(self),
                item@,
                *final(self),
                r,
            ),
    {
        if !self.get_min_level().admits(level) {
            return Ok(());
        }
        self.raw_emit(item)
    }

    /// Takes a diagnostic line. The line is advisory: it never fails the
    /// caller and changes neither the floor nor the outcome held.
    fn emit_log(&mut self, log: &SimpleLogMessage) -> (r: Result<(), EmitError>)
        ensures
            old(self).wf() ==> final(self).wf(),
            r is Ok,
            final(self).min_level() == old(self).min_level(),
            final(self).workflow_status() == old(self).workflow_status(),
    ;

    /// The outcome that the sink holds, or `None` before the first report.
    fn get_workflow_status(&self) -> (r: Result<Option<&PackagedWorkflowOutcome>, EmitError>)
        ensures
            match r {
                Ok(Some(o)) => self.workflow_status() == Some(o@),
                Ok(None) => self.workflow_status() is None,
                Err(_) => true,
            },
    ;

    /// Records the outcome of a run. On success the sink holds the
    /// reported outcome and nothing of the one it held before; on failure
    /// it holds what it held.
    fn finish_workflow(&mut self, outcome: &PackagedWorkflowOutcome) -> (r: Result<(), EmitError>)
        ensures
            old(self).wf() ==> final(self).wf(),
            final(self).min_level() == old(self).min_level(),
            r is Ok ==> final(self).workflow_status() == Some(outcome@),
            r is Err ==> final(self).workflow_status() == old(self).workflow_status(),
    ;
}

} // verus!
