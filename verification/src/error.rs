use vstd::prelude::*;

verus! {

/// The error type of a step that `anyhow` produced or carried.
#[verifier::external_type_specification]
#[verifier::external_body]
pub struct ExAnyhowError(anyhow::Error);

/// The error of a pipeline run.
///
/// `Aggregated` gathers the errors of several branches that ran side by side;
/// `Any` carries the error of a single step.
#[derive(Debug)]
pub enum PipelineError {
    Aggregated(Vec<PipelineError>),
    Any(anyhow::Error),
}

pub type PipelineResult<T> = Result<T, PipelineError>;

/// A step's error becomes a pipeline error as it is.
impl From<anyhow::Error> for PipelineError {
    fn from(err: anyhow::Error) -> (r: Self) {
        PipelineError::Any(err)
    }
}

impl vstd::std_specs::convert::FromSpecImpl<anyhow::Error> for PipelineError {
    open spec fn obeys_from_spec() -> bool {
        true
    }

    open spec fn from_spec(v: anyhow::Error) -> Self {
        PipelineError::Any(v)
    }
}

/// An error that carries only a message: `anyhow::Error::msg`.
///
/// Nothing is claimed of the value: `anyhow` may capture a backtrace in it,
/// which depends on the environment.
#[verifier::external_body]
pub(crate) fn message_error(message: &'static str) -> anyhow::Error {
    anyhow::Error::msg(message)
}

} // verus!
