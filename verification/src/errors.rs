//! Error taxonomy of the forecasting pipeline.

use vstd::prelude::*;

verus! {

/// The failure modes a forecast call can surface to its caller.
#[derive(Clone, Copy, Debug, PartialEq, Eq, Structural)]
pub enum PredictionError {
    /// Fewer than the required number of usable samples were available
    /// after window construction.
    InsufficientData,
    /// A sample timestamp could not be resolved to a calendar instant.
    TimestampConversionError,
    /// The model artifact could not be loaded or does not match the
    /// expected tensor shapes; fatal at initialization.
    ModelLoadError,
    /// The runtime failed to evaluate the model on a well-formed tensor.
    InferenceError,
}

impl PredictionError {
    /// A short, stable description of the error kind.
    pub fn describe(&self) -> (r: &'static str)
        ensures
            self is InsufficientData ==> r@ == "insufficient data: fewer than 19 usable samples"@,
            self is TimestampConversionError ==> r@ == "timestamp conversion error"@,
            self is ModelLoadError ==> r@ == "model load error"@,
            self is InferenceError ==> r@ == "inference error"@,
    {
        match self {
            PredictionError::InsufficientData => "insufficient data: fewer than 19 usable samples",
            PredictionError::TimestampConversionError => "timestamp conversion error",
            PredictionError::ModelLoadError => "model load error",
            PredictionError::InferenceError => "inference error",
        }
    }
}

} // verus!
