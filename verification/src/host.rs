//! Plain models of the values that cross the host boundary.
//!
//! The host hands back untyped values; this module gives them a typed
//! shape and says exactly when such a value coerces to an expected shape.

use vstd::prelude::*;

verus! {

/// A value received from or owed to the host, in plain form.  Host
/// numbers are carried as integers: the counts and sizes this core reads
/// are whole numbers.
#[derive(Debug, PartialEq, Eq)]
pub enum HostValue {
    Undefined,
    Null,
    Boolean(bool),
    Number(i64),
    Text(String),
    Handle(u64),
}

/// The result shape one promise adaptation expects.
#[derive(Debug, PartialEq, Eq, Structural, Clone, Copy)]
pub enum ResultShape {
    Unit,
    Number,
    Text,
    Handle,
}

/// A host value coerced to the shape a caller asked for.
#[derive(Debug, PartialEq, Eq)]
pub enum TypedValue {
    Unit,
    Number(i64),
    Text(String),
    Handle(u64),
}

/// How one adaptation fails: the host rejected, or the settled value did
/// not match the expected shape (a contract violation, surfaced loudly).
#[derive(Debug, PartialEq, Eq)]
pub enum AdaptError {
    HostRejection { error: HostValue },
    CoercionFailure { expected: ResultShape, got: HostValue },
}

/// How the host settled one promise: exactly one of these, exactly once.
#[derive(Debug, PartialEq, Eq)]
pub enum HostOutcome {
    Resolved { value: HostValue },
    Rejected { error: HostValue },
}

/// Whether `value` can be coerced to `shape`.  A unit expectation
/// discards whatever the host resolved with; every other shape demands a
/// value of exactly its kind.
pub open spec fn coercible(shape: ResultShape, value: HostValue) -> bool {
    match shape {
        ResultShape::Unit => true,
        ResultShape::Number => value is Number,
        ResultShape::Text => value is Text,
        ResultShape::Handle => value is Handle,
    }
}

/// The coercion itself, defined on coercible pairs.
pub open spec fn coerce(shape: ResultShape, value: HostValue) -> TypedValue
    recommends
        coercible(shape, value),
{
    match shape {
        ResultShape::Unit => TypedValue::Unit,
        ResultShape::Number => TypedValue::Number(value->Number_0),
        ResultShape::Text => TypedValue::Text(value->Text_0),
        ResultShape::Handle => TypedValue::Handle(value->Handle_0),
    }
}

/// What one settled promise adapts to: a rejection is forwarded
/// unchanged; a resolution is coerced, and a shape mismatch fails loudly.
pub open spec fn adapt_outcome(shape: ResultShape, outcome: HostOutcome) -> Result<
    TypedValue,
    AdaptError,
> {
    match outcome {
        HostOutcome::Rejected { error } => Err(AdaptError::HostRejection { error }),
        HostOutcome::Resolved { value } => if coercible(shape, value) {
            Ok(coerce(shape, value))
        } else {
            Err(AdaptError::CoercionFailure { expected: shape, got: value })
        },
    }
}

/// Executable form of `adapt_outcome`.
pub fn adapt_settled(shape: ResultShape, outcome: HostOutcome) -> (r: Result<
    TypedValue,
    AdaptError,
>)
    ensures
        r == adapt_outcome(shape, outcome),
{
    match outcome {
        HostOutcome::Rejected { error } => Err(AdaptError::HostRejection { error }),
        HostOutcome::Resolved { value } => match shape {
            ResultShape::Unit => Ok(TypedValue::Unit),
            ResultShape::Number => match value {
                HostValue::Number(n) => Ok(TypedValue::Number(n)),
                other => Err(AdaptError::CoercionFailure { expected: shape, got: other }),
            },
            ResultShape::Text => match value {
                HostValue::Text(s) => Ok(TypedValue::Text(s)),
                other => Err(AdaptError::CoercionFailure { expected: shape, got: other }),
            },
            ResultShape::Handle => match value {
                HostValue::Handle(h) => Ok(TypedValue::Handle(h)),
                other => Err(AdaptError::CoercionFailure { expected: shape, got: other }),
            },
        },
    }
}

} // verus!
