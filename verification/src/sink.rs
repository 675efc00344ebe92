//! The line sink: a messager that writes one JSON record per line.

use crate::diagnostics::SimpleLogMessage;
use crate::error::EmitError;
use crate::level::VisibilityLevel;
use crate::messager::Messager;
use crate::mode::OutputMode;
use crate::record::{
    entries_of, lemma_compact_within_full, names_distinct, summary_of, FieldView, MatchResult,
};
use crate::render::{payload_of, render, text_of};
use crate::stream::{
    count_terminators, is_payload, lemma_count_of_concat, lemma_count_of_payload, line_of,
    LineStream,
};
use crate::workflow::{upsert_spec, OutcomeView, PackagedWorkflowOutcome, StatusManager};
use vstd::prelude::*;

verus! {

/// A sink that renders each admitted result as one line of JSON on a
/// guarded stream of its own. Mode and floor are fixed when the sink is
/// built.
pub struct JSONLineMessenger {
    stream: LineStream,
    mode: OutputMode,
    min_level: VisibilityLevel,
    status: StatusManager,
}

impl JSONLineMessenger {
    /// The stream that the sink owns.
    pub closed spec fn stream(&self) -> LineStream {
        self.stream
    }

    /// The mode in which the sink renders.
    pub closed spec fn mode(&self) -> OutputMode {
        self.mode
    }

    /// The floor of the sink.
    pub closed spec fn floor(&self) -> VisibilityLevel {
        self.min_level
    }

    /// The outcome that the sink holds.
    pub closed spec fn status(&self) -> Option<OutcomeView> {
        self.status@
    }

    /// The bytes that the sink has written and that were not taken out.
    pub open spec fn written(&self) -> Seq<u8> {
        self.stream().written()
    }

    /// The records that the sink has written and that were not taken out.
    pub open spec fn records(&self) -> Seq<Seq<u8>> {
        self.stream().records()
    }

    /// Mode, floor, outcome and the state of the stream's guard and limit
    /// are the same in both sinks.
    pub open spec fn same_settings(&self, other: &JSONLineMessenger) -> bool {
        &&& self.mode() == other.mode()
        &&& self.floor() == other.floor()
        &&& self.status() == other.status()
        &&& self.stream().limit_spec() == other.stream().limit_spec()
        &&& self.stream().closed_spec() == other.stream().closed_spec()
        &&& self.stream().poisoned_spec() == other.stream().poisoned_spec()
    }

    /// What rendering the given result comes to: a failure, success with
    /// nothing to write, or success with the record that is written. The
    /// guard is looked at first, then the mode, then the encoder, then the
    /// stream.
    pub open spec fn emission(&self, fields: Seq<FieldView>) -> Result<Option<Seq<u8>>, EmitError> {
        if self.stream().poisoned_spec() {
            Err(EmitError::Internal)
        } else {
            match payload_of(self.mode(), fields) {
                Err(e) => Err(e),
                Ok(None) => Ok(None),
                Ok(Some(payload)) => match self.stream().append_outcome(payload) {
                    Err(e) => Err(e),
                    Ok(_) => Ok(Some(payload)),
                },
            }
        }
    }

    /// `after` and `r` are what is left of `before` when rendering came to
    /// `emission`: the answer, the stream with the record appended as one
    /// line or unchanged, and the same settings.
    pub open spec fn emitted(
        before: JSONLineMessenger,
        emission: Result<Option<Seq<u8>>, EmitError>,
        after: JSONLineMessenger,
        r: Result<(), EmitError>,
    ) -> bool {
        &&& after.same_settings(&before)
        &&& match emission {
            Err(e) => {
                &&& r == Err::<(), EmitError>(e)
                &&& after.records() == before.records()
                &&& after.written() == before.written()
            },
            Ok(None) => {
                &&& r is Ok
                &&& after.records() == before.records()
                &&& after.written() == before.written()
            },
            Ok(Some(payload)) => {
                &&& r is Ok
                &&& after.records() == before.records().push(payload)
                &&& after.written() == before.written() + line_of(payload)
            },
        }
    }

    /// A sink with an empty stream without a limit of its own.
    pub fn new(mode: OutputMode, min_level: VisibilityLevel) -> (r: JSONLineMessenger)
        ensures
            r.wf(),
            r.mode() == mode,
            r.floor() == min_level,
            r.status() is None,
            r.written() == Seq::<u8>::empty(),
            r.records() == Seq::<Seq<u8>>::empty(),
            r.stream().limit_spec() == usize::MAX,
            !r.stream().closed_spec(),
            !r.stream().poisoned_spec(),
    {
        JSONLineMessenger::bounded(usize::MAX, mode, min_level)
    }

    /// A sink with an empty stream that holds at most `limit` bytes.
    pub fn bounded(limit: usize, mode: OutputMode, min_level: VisibilityLevel) -> (r:
        JSONLineMessenger)
        ensures
            r.wf(),
            r.mode() == mode,
            r.floor() == min_level,
            r.status() is None,
            r.written() == Seq::<u8>::empty(),
            r.records() == Seq::<Seq<u8>>::empty(),
            r.stream().limit_spec() == limit,
            !r.stream().closed_spec(),
            !r.stream().poisoned_spec(),
    {
        JSONLineMessenger {
            stream: LineStream::new(limit),
            mode,
            min_level,
            status: StatusManager::new(),
        }
    }

    /// The mode in which the sink renders.
    pub fn get_mode(&self) -> (r: OutputMode)
        ensures
            r == self.mode(),
    {
        self.mode
    }

    /// The bytes that the sink has written and that were not taken out.
    pub fn output(&self) -> (r: &[u8])
        ensures
            r@ == self.written(),
    {
        self.stream.as_bytes()
    }

    /// Whether the guard of the stream is poisoned.
    pub fn is_poisoned(&self) -> (r: bool)
        ensures
            r == self.stream().poisoned_spec(),
    {
        self.stream.is_poisoned()
    }

    /// Takes out what the sink has written and leaves its stream empty.
    pub fn take_output(&mut self) -> (r: Vec<u8>)
        ensures
            final(self).wf(),
            r@ == old(self).written(),
            final(self).written() == Seq::<u8>::empty(),
            final(self).records() == Seq::<Seq<u8>>::empty(),
            final(self).same_settings(old(self)),
    {
        self.stream.drain()
    }

    /// Closes the stream: every later record is rejected with `Write`.
    pub fn close(&mut self)
        ensures
            final(self).stream().closed_spec(),
            final(self).written() == old(self).written(),
            final(self).records() == old(self).records(),
            final(self).mode() == old(self).mode(),
            final(self).floor() == old(self).floor(),
            final(self).status() == old(self).status(),
            final(self).stream().limit_spec() == old(self).stream().limit_spec(),
            final(self).stream().poisoned_spec() == old(self).stream().poisoned_spec(),
            old(self).wf() ==> final(self).wf(),
    {
        self.stream.close();
    }

    /// Marks the guard of the stream as poisoned: every later emission is
    /// refused with `Internal`.
    pub fn poison(&mut self)
        ensures
            final(self).stream().poisoned_spec(),
            final(self).written() == old(self).written(),
            final(self).records() == old(self).records(),
            final(self).mode() == old(self).mode(),
            final(self).floor() == old(self).floor(),
            final(self).status() == old(self).status(),
            final(self).stream().limit_spec() == old(self).stream().limit_spec(),
            final(self).stream().closed_spec() == old(self).stream().closed_spec(),
            old(self).wf() ==> final(self).wf(),
    {
        self.stream.poison();
    }

    /// Writes the given bytes as one record: the bytes and the terminator
    /// go to the stream together, or the stream stays as it was.
    pub fn write_record(&mut self, payload: &[u8]) -> (r: Result<(), EmitError>)
        ensures
            old(self).wf() ==> final(self).wf(),
            r == old(self).stream().append_outcome(payload@),
            final(self).same_settings(old(self)),
            r is Ok ==> final(self).records() == old(self).records().push(payload@),
            r is Ok ==> final(self).written() == old(self).written() + line_of(payload@),
            r is Err ==> final(self).records() == old(self).records(),
            r is Err ==> final(self).written() == old(self).written(),
    {
        self.stream.append(payload)
    }
}

impl Messager for JSONLineMessenger {
    open spec fn wf(&self) -> bool {
        self.stream().wf()
    }

    open spec fn min_level(&self) -> VisibilityLevel {
        self.floor()
    }

    open spec fn workflow_status(&self) -> Option<OutcomeView> {
        self.status()
    }

    open spec fn raw_emitted(
        before: JSONLineMessenger,
        fields: Seq<FieldView>,
        after: JSONLineMessenger,
        r: Result<(), EmitError>,
    ) -> bool {
        JSONLineMessenger::emitted(before, before.emission(fields), after, r)
    }

    fn get_min_level(&self) -> (r: VisibilityLevel) {
        self.min_level
    }

    fn raw_emit(&mut self, item: &MatchResult) -> (r: Result<(), EmitError>) {
        if self.stream.is_poisoned() {
            return Err(EmitError::Internal);
        }
        match render(self.mode, item) {
            Err(e) => Err(e),
            Ok(None) => Ok(()),
            Ok(Some(payload)) => self.stream.append(payload.as_slice()),
        }
    }

    fn emit_log(&mut self, log: &SimpleLogMessage) -> (r: Result<(), EmitError>)
        ensures
            *final(self) == *old(self),
    {
        Ok(())
    }

    fn get_workflow_status(&self) -> (r: Result<Option<&PackagedWorkflowOutcome>, EmitError>)
        ensures
            r is Ok,
    {
        Ok(self.status.get_workflow_status())
    }

    fn finish_workflow(&mut self, outcome: &PackagedWorkflowOutcome) -> (r: Result<(), EmitError>)
        ensures
            r is Ok,
            final(self).status() == upsert_spec(old(self).status(), outcome@),
            final(self).stream() == old(self).stream(),
            final(self).mode() == old(self).mode(),
    {
        self.status.upsert(outcome);
        Ok(())
    }
}

/// A sink whose output is suppressed never writes: whatever the result,
/// rendering leaves the stream as it was, and it succeeds unless the guard
/// is poisoned.
pub proof fn lemma_suppressed_writes_nothing(
    before: JSONLineMessenger,
    fields: Seq<FieldView>,
    after: JSONLineMessenger,
    r: Result<(), EmitError>,
)
    requires
        before.mode() == OutputMode::Suppressed,
        JSONLineMessenger::raw_emitted(before, fields, after, r),
    ensures
        after.written() == before.written(),
        after.records() == before.records(),
        r is Ok <==> !before.stream().poisoned_spec(),
{
}

/// In full mode, rendering succeeds exactly when the guard is sound, the
/// encoder gives a text for all the fields, and the stream takes that
/// text. It then appends that text as one record on one line, and
/// otherwise leaves the stream as it was.
pub proof fn lemma_full_appends_one_record(
    before: JSONLineMessenger,
    fields: Seq<FieldView>,
    after: JSONLineMessenger,
    r: Result<(), EmitError>,
)
    requires
        before.mode() == OutputMode::Full,
        JSONLineMessenger::raw_emitted(before, fields, after, r),
    ensures
        r is Ok <==> !before.stream().poisoned_spec() && text_of(fields) is Some
            && before.stream().append_outcome(text_of(fields).unwrap()) is Ok,
        r is Ok ==> is_payload(text_of(fields).unwrap()),
        r is Ok ==> after.records() == before.records().push(text_of(fields).unwrap()),
        r is Ok ==> after.written() == before.written() + line_of(text_of(fields).unwrap()),
        r is Ok ==> count_terminators(after.written()) == count_terminators(before.written()) + 1,
        r is Err ==> after.written() == before.written(),
        r is Err ==> after.records() == before.records(),
{
    if r is Ok {
        let text = text_of(fields).unwrap();
        lemma_count_of_concat(before.written(), line_of(text));
        lemma_count_of_payload(text);
        assert(line_of(text).drop_last() =~= text);
    }
}

/// In compact mode, what a successful rendering appends is the text of
/// the compact form, and the compact form holds nothing that the result
/// does not: each of its keys is a key of the result, with the same
/// value.
pub proof fn lemma_compact_appends_reduced_record(
    before: JSONLineMessenger,
    fields: Seq<FieldView>,
    after: JSONLineMessenger,
    r: Result<(), EmitError>,
)
    requires
        names_distinct(fields),
        before.mode() == OutputMode::Compact,
        JSONLineMessenger::raw_emitted(before, fields, after, r),
    ensures
        r is Ok <==> !before.stream().poisoned_spec() && text_of(summary_of(fields)) is Some
            && before.stream().append_outcome(text_of(summary_of(fields)).unwrap()) is Ok,
        r is Ok ==> after.records() == before.records().push(
            text_of(summary_of(fields)).unwrap(),
        ),
        r is Ok ==> after.written() == before.written() + line_of(
            text_of(summary_of(fields)).unwrap(),
        ),
        r is Err ==> after.written() == before.written(),
        entries_of(summary_of(fields)).submap_of(entries_of(fields)),
{
    lemma_compact_within_full(fields);
}

/// Whatever the mode and the result, rendering keeps what was written and
/// adds at most one record, whole.
pub proof fn lemma_raw_emit_appends_at_most_one_line(
    before: JSONLineMessenger,
    fields: Seq<FieldView>,
    after: JSONLineMessenger,
    r: Result<(), EmitError>,
)
    requires
        JSONLineMessenger::raw_emitted(before, fields, after, r),
    ensures
        after.records() == before.records() || (after.records().len() == before.records().len()
            + 1 && after.records().drop_last() == before.records() && is_payload(
            after.records().last(),
        )),
        before.written().is_prefix_of(after.written()),
        r is Err ==> after.written() == before.written(),
{
    match before.emission(fields) {
        Ok(Some(payload)) => {
            assert(before.records().push(payload).drop_last() =~= before.records());
        },
        _ => {},
    }
}

} // verus!
