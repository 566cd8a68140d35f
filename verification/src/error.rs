//! The two ways in which an operation on a window can fail.

use vstd::prelude::*;

verus! {

/// Why an operation was aborted. Both failures are final: nothing is retried
/// and no request follows one.
#[derive(Clone, Copy, Debug, PartialEq, Eq, Structural)]
pub enum ShellError {
    /// No window carries the label that was looked up.
    WindowNotFound,
    /// The platform cannot render the shadow effect.
    UnsupportedPlatform,
}

/// Classifies what `window_shadows::set_shadow` returned for a shadow
/// request: `window_shadows` knows a single failure, that the platform
/// renders no shadows, so every error is reported as that one.
pub fn shadow_outcome(result: Result<(), window_shadows::Error>) -> (outcome: Result<(), ShellError>)
    ensures
        result is Ok ==> outcome == Ok::<(), ShellError>(()),
        result is Err ==> outcome == Err::<(), ShellError>(ShellError::UnsupportedPlatform),
{
    match result {
        Ok(_) => Ok(()),
        Err(_) => Err(ShellError::UnsupportedPlatform),
    }
}

/// Makes `window_shadows::Error` known as an opaque type: a value of it can
/// be passed on and told from success, and nothing is claimed of what it
/// holds.
#[verifier::external_type_specification]
#[verifier::external_body]
pub struct ExShadowError(window_shadows::Error);

} // verus!
