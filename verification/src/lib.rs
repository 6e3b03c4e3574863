//! Core of a short-horizon electrical grid load forecaster.
//!
//! The library owns the verified heart of the pipeline: construction of the
//! fixed 19-sample input window, the calendar phase features derived from each
//! sample's UTC timestamp, the assembly of the model's `[1, 19, 3]` input
//! tensor, and the request-body template sent to the market-data API.
//! Floating-point load values travel through the library as their raw IEEE-754
//! bit patterns; the surrounding binary performs the float arithmetic itself
//! (min-max scaling, sinusoidal encoding, model evaluation).

pub mod calendar;
pub mod errors;
pub mod request;
pub mod tensor;
pub mod window;
