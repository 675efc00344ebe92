//! Rendering: from a result and an output mode to the bytes of a record.

use crate::error::EmitError;
use crate::json::{encode_object, object_text};
use crate::mode::OutputMode;
use crate::record::{entries_of, summary_of, FieldView, MatchResult};
use vstd::prelude::*;

verus! {

/// The fields that a sink in the given mode renders for a result: none
/// where output is suppressed, all of them in full mode, the compact form
/// in compact mode.
pub open spec fn shape_of(mode: OutputMode, fields: Seq<FieldView>) -> Option<Seq<FieldView>> {
    match mode {
        OutputMode::Suppressed => None,
        OutputMode::Full => Some(fields),
        OutputMode::Compact => Some(summary_of(fields)),
    }
}

/// The JSON text of the object that the fields make up, or `None` where
/// the encoder fails on it.
pub open spec fn text_of(fields: Seq<FieldView>) -> Option<Seq<u8>> {
    object_text(entries_of(fields))
}

/// What a sink in the given mode has to write for a result: nothing, the
/// bytes of one record, or the failure of the encoder.
pub open spec fn payload_of(mode: OutputMode, fields: Seq<FieldView>) -> Result<
    Option<Seq<u8>>,
    EmitError,
> {
    match shape_of(mode, fields) {
        None => Ok(None),
        Some(shape) => match text_of(shape) {
            None => Err(EmitError::Serialize),
            Some(bytes) => Ok(Some(bytes)),
        },
    }
}

/// What a rendering holds, bytes taken as a sequence.
pub open spec fn payload_view(r: Result<Option<Vec<u8>>, EmitError>) -> Result<
    Option<Seq<u8>>,
    EmitError,
> {
    match r {
        Ok(Some(bytes)) => Ok(Some(bytes@)),
        Ok(None) => Ok(None),
        Err(e) => Err(e),
    }
}

/// Encodes a result as the JSON text of its object.
pub fn encode(item: &MatchResult) -> (r: Result<Vec<u8>, EmitError>)
    ensures
        match r {
            Ok(bytes) => text_of(item@) == Some(bytes@),
            Err(e) => e == EmitError::Serialize && text_of(item@) is None,
        },
{
    let object = item.to_object();
    match encode_object(&object) {
        Ok(bytes) => Ok(bytes),
        Err(_) => Err(EmitError::Serialize),
    }
}

/// Renders a result in the given mode.
pub fn render(mode: OutputMode, item: &MatchResult) -> (r: Result<Option<Vec<u8>>, EmitError>)
    ensures
        payload_view(r) == payload_of(mode, item@),
{
    match mode {
        OutputMode::Suppressed => Ok(None),
        OutputMode::Full => {
            match encode(item) {
                Ok(bytes) => Ok(Some(bytes)),
                Err(e) => Err(e),
            }
        },
        OutputMode::Compact => {
            let reduced = item.compact();
            match encode(&reduced) {
                Ok(bytes) => Ok(Some(bytes)),
                Err(e) => Err(e),
            }
        },
    }
}

} // verus!
